use jsbridge::dispatch::{
    complete_dispatch, normalize_name, prepare_dispatch, DispatchOutcome, HostError,
};
use jsbridge::registry::ProxyRegistry;
use jsbridge::value::{BridgeError, GuestValue, HostValue, ProxyHandle};

#[test]
fn names_normalize_underscores_to_hyphens() {
    assert_eq!(normalize_name("message"), "message");
    assert_eq!(normalize_name("buffer_name"), "buffer-name");
    assert_eq!(normalize_name("a_b_c"), "a-b-c");
}

#[test]
fn a_text_argument_decodes_to_the_host_primitive() {
    // dispatch("message", "42"): the text decodes to a host integer and
    // the name is already in the host's convention.
    let reg = ProxyRegistry::new();
    let args = vec![GuestValue::Text(String::from("42"))];
    let frame = prepare_dispatch("message", &args, &reg).unwrap();
    assert_eq!(frame.op, "message");
    assert_eq!(frame.args, vec![HostValue::Int(42)]);
}

#[test]
fn a_primitive_result_returns_as_its_encoding() {
    // The host operation answered with the string "pong": the guest
    // receives its text encoding.
    let mut reg = ProxyRegistry::new();
    let out = complete_dispatch(Ok(HostValue::Text(String::from("pong"))), &mut reg);
    assert_eq!(
        out,
        DispatchOutcome::Value(String::from("\"pong\""))
    );
    assert_eq!(reg.retained.len(), 0);
}

#[test]
fn a_non_primitive_result_returns_as_a_retained_handle() {
    // dispatch("identity", <non-primitive host object>): the guest receives
    // a proxy handle, and describing it yields the sentinel payload since
    // the object has no encoding.
    let mut reg = ProxyRegistry::new();
    let out = complete_dispatch(Ok(HostValue::Obj(7)), &mut reg);
    match out {
        DispatchOutcome::Handle(h) => {
            assert_eq!(reg.retained.len(), 1);
            assert_eq!(reg.describe(&h), "{\"nativeProxy\": true}");
        }
        other => panic!("expected a handle, got {:?}", other),
    }
}

#[test]
fn a_host_error_returns_as_a_guest_exception() {
    // The dispatched operation raised: control comes back as a catchable
    // guest exception carrying the rendered message, the registry is
    // untouched, and the bridge goes on serving.
    let mut reg = ProxyRegistry::new();
    let out = complete_dispatch(
        Err(HostError { message: String::from("Wrong type argument") }),
        &mut reg,
    );
    assert_eq!(
        out,
        DispatchOutcome::GuestException(String::from("Wrong type argument"))
    );
    assert_eq!(reg.retained.len(), 0);
    let after = complete_dispatch(Ok(HostValue::Int(1)), &mut reg);
    assert_eq!(after, DispatchOutcome::Value(String::from("1")));
}

#[test]
fn a_proxy_argument_resolves_through_the_registry() {
    let mut reg = ProxyRegistry::new();
    let h = reg.expose(HostValue::Obj(9));
    let args = vec![GuestValue::Proxy(h)];
    let frame = prepare_dispatch("identity", &args, &reg).unwrap();
    assert_eq!(frame.args, vec![HostValue::Obj(9)]);
}

#[test]
fn an_undecodable_argument_is_dropped_from_the_call() {
    let reg = ProxyRegistry::new();
    let args = vec![
        GuestValue::Text(String::from("not an encoding")),
        GuestValue::Text(String::from("5")),
    ];
    let frame = prepare_dispatch("message", &args, &reg).unwrap();
    assert_eq!(frame.args, vec![HostValue::Int(5)]);
}

#[test]
fn an_alien_argument_shape_is_a_contract_violation() {
    let reg = ProxyRegistry::new();
    let args = vec![GuestValue::Other];
    assert_eq!(
        prepare_dispatch("message", &args, &reg).unwrap_err(),
        BridgeError::ContractViolation
    );
}

#[test]
fn a_dangling_proxy_argument_is_a_contract_violation() {
    let reg = ProxyRegistry::new();
    let args = vec![GuestValue::Proxy(ProxyHandle { id: 3 })];
    assert_eq!(
        prepare_dispatch("message", &args, &reg).unwrap_err(),
        BridgeError::ContractViolation
    );
}

#[test]
fn arguments_resolve_in_the_given_order() {
    let mut reg = ProxyRegistry::new();
    let h = reg.expose(HostValue::Obj(1));
    let args = vec![
        GuestValue::Text(String::from("true")),
        GuestValue::Proxy(h),
        GuestValue::Text(String::from("\"x\"")),
    ];
    let frame = prepare_dispatch("f", &args, &reg).unwrap();
    assert_eq!(
        frame.args,
        vec![
            HostValue::True,
            HostValue::Obj(1),
            HostValue::Text(String::from("x")),
        ]
    );
}

#[test]
fn error_messages_are_the_fixed_texts() {
    assert_eq!(BridgeError::ContractViolation.message(), "Wrong Argument");
    assert_eq!(
        BridgeError::Configuration.message(),
        "Valid options are: :allow-net nil :allow-read nil :allow-write nil :allow-run nil"
    );
}
