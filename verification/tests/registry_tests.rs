use jsbridge::registry::{is_proxy, ProxyRegistry};
use jsbridge::value::{GuestValue, HostValue, ProxyHandle};

const NOT_SERIALIZABLE: &str = "{\"nativeProxy\": true}";

#[test]
fn exposed_value_is_retrievable_through_describe() {
    let mut reg = ProxyRegistry::new();
    let h = reg.expose(HostValue::Text(String::from("pong")));
    assert_eq!(reg.describe(&h), "\"pong\"");
}

#[test]
fn exposed_opaque_value_describes_as_the_sentinel() {
    let mut reg = ProxyRegistry::new();
    let h = reg.expose(HostValue::Obj(7));
    assert_eq!(reg.describe(&h), NOT_SERIALIZABLE);
}

#[test]
fn a_dangling_handle_describes_as_the_sentinel() {
    let reg = ProxyRegistry::new();
    let h = ProxyHandle { id: 99 };
    assert_eq!(reg.describe(&h), NOT_SERIALIZABLE);
}

#[test]
fn later_exposures_do_not_disturb_older_handles() {
    let mut reg = ProxyRegistry::new();
    let h1 = reg.expose(HostValue::Int(1));
    let _h2 = reg.expose(HostValue::Int(2));
    let _h3 = reg.expose(HostValue::Obj(3));
    assert_eq!(reg.describe(&h1), "1");
}

#[test]
fn sweep_keeps_exactly_the_reported_survivors() {
    let mut reg = ProxyRegistry::new();
    let ha = reg.expose(HostValue::Int(10));
    let hb = reg.expose(HostValue::Int(20));
    let hc = reg.expose(HostValue::Int(30));
    reg.sweep(&vec![
        ProxyHandle { id: hc.id },
        ProxyHandle { id: ha.id },
    ]);
    assert_eq!(reg.describe(&hc), "30");
    assert_eq!(reg.describe(&ha), "10");
    assert_eq!(reg.describe(&hb), NOT_SERIALIZABLE);
    assert_eq!(reg.retained.len(), 2);
    assert_eq!(reg.retained[0].id, hc.id);
    assert_eq!(reg.retained[1].id, ha.id);
}

#[test]
fn sweep_with_no_survivors_releases_everything() {
    let mut reg = ProxyRegistry::new();
    let h = reg.expose(HostValue::Int(5));
    assert_eq!(reg.describe(&h), "5");
    reg.sweep(&Vec::new());
    assert_eq!(reg.retained.len(), 0);
    assert_eq!(reg.describe(&h), NOT_SERIALIZABLE);
}

#[test]
fn sweep_passes_over_identities_that_no_longer_resolve() {
    let mut reg = ProxyRegistry::new();
    let h = reg.expose(HostValue::Int(5));
    reg.sweep(&vec![ProxyHandle { id: h.id }, ProxyHandle { id: 42 }]);
    assert_eq!(reg.retained.len(), 1);
    assert_eq!(reg.describe(&h), "5");
}

#[test]
fn the_proxy_predicate_marks_only_handles() {
    assert!(is_proxy(&GuestValue::Proxy(ProxyHandle { id: 0 })));
    assert!(!is_proxy(&GuestValue::Text(String::from("42"))));
    assert!(!is_proxy(&GuestValue::Other));
}
