use jsbridge::bridge::{eval_js, eval_js_file};
use jsbridge::config::{capabilities_from_config, Capabilities, ConfigAtom};
use jsbridge::value::BridgeError;

#[test]
fn no_configuration_grants_all_four_capabilities() {
    let caps = capabilities_from_config(&Vec::new()).unwrap();
    assert_eq!(
        caps,
        Capabilities { net: true, read: true, write: true, run: true }
    );
}

#[test]
fn a_nil_value_revokes_the_named_capability() {
    let caps =
        capabilities_from_config(&vec![ConfigAtom::AllowNet, ConfigAtom::Nil]).unwrap();
    assert_eq!(
        caps,
        Capabilities { net: false, read: true, write: true, run: true }
    );
}

#[test]
fn a_truthy_value_leaves_the_capability_granted() {
    let caps =
        capabilities_from_config(&vec![ConfigAtom::AllowNet, ConfigAtom::Truthy]).unwrap();
    assert_eq!(caps, Capabilities { net: true, read: true, write: true, run: true });
}

#[test]
fn each_capability_can_be_revoked() {
    let caps = capabilities_from_config(&vec![
        ConfigAtom::AllowNet,
        ConfigAtom::Nil,
        ConfigAtom::AllowRead,
        ConfigAtom::Nil,
        ConfigAtom::AllowWrite,
        ConfigAtom::Nil,
        ConfigAtom::AllowRun,
        ConfigAtom::Nil,
    ])
    .unwrap();
    assert_eq!(
        caps,
        Capabilities { net: false, read: false, write: false, run: false }
    );
}

#[test]
fn an_odd_length_configuration_is_an_error() {
    assert_eq!(
        capabilities_from_config(&vec![ConfigAtom::AllowNet]).unwrap_err(),
        BridgeError::Configuration
    );
}

#[test]
fn an_unrecognized_keyword_is_an_error() {
    assert_eq!(
        capabilities_from_config(&vec![ConfigAtom::Truthy, ConfigAtom::Nil]).unwrap_err(),
        BridgeError::Configuration
    );
    assert_eq!(
        capabilities_from_config(&vec![ConfigAtom::Nil, ConfigAtom::Nil]).unwrap_err(),
        BridgeError::Configuration
    );
}

#[test]
fn eval_with_no_configuration_plans_an_inline_run() {
    let plan = eval_js("lisp.message('hi')", &Vec::new()).unwrap();
    assert_eq!(plan.entry_path, "anon-lisp.js");
    assert_eq!(plan.inline_source.unwrap(), "lisp.message('hi')");
    assert_eq!(
        plan.caps,
        Capabilities { net: true, read: true, write: true, run: true }
    );
}

#[test]
fn eval_with_net_revoked_plans_a_denied_network() {
    let plan = eval_js("1", &vec![ConfigAtom::AllowNet, ConfigAtom::Nil]).unwrap();
    assert!(!plan.caps.net);
    assert!(plan.caps.read && plan.caps.write && plan.caps.run);
}

#[test]
fn eval_with_an_odd_configuration_plans_nothing() {
    // The malformed configuration is fatal to this call alone: the error
    // comes back and no plan is produced.
    assert_eq!(
        eval_js("1", &vec![ConfigAtom::AllowNet]).unwrap_err(),
        BridgeError::Configuration
    );
}

#[test]
fn eval_by_path_plans_a_module_run() {
    let plan = eval_js_file("scripts/start.js", &Vec::new()).unwrap();
    assert_eq!(plan.entry_path, "scripts/start.js");
    assert!(plan.inline_source.is_none());
}

#[test]
fn eval_by_path_reports_a_malformed_configuration() {
    assert_eq!(
        eval_js_file("a.js", &vec![ConfigAtom::AllowRun]).unwrap_err(),
        BridgeError::Configuration
    );
}
