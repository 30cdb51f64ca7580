use jsbridge::bridge::{bridge_global_names, guest_prelude, init_syms, js_tick_event_loop};
use jsbridge::config::Capabilities;
use jsbridge::context::{CtxPhase, ExecutionContext};

#[test]
fn the_context_starts_uninitialized() {
    let ctx = ExecutionContext::new();
    assert_eq!(ctx.phase, CtxPhase::Uninitialized);
    assert_eq!(ctx.ticks, 0);
    assert_eq!(ctx.tick_interval_ms, 100);
    assert_eq!(ctx.sweep_interval_ms, 10000);
}

#[test]
fn initialization_happens_exactly_once() {
    let mut ctx = ExecutionContext::new();
    let caps = Capabilities { net: false, read: true, write: true, run: true };
    assert!(ctx.ensure_initialized(caps));
    assert_eq!(ctx.phase, CtxPhase::Idle);
    assert_eq!(ctx.caps, caps);
    let other = Capabilities { net: true, read: true, write: true, run: true };
    assert!(!ctx.ensure_initialized(other));
    assert_eq!(ctx.caps, caps);
}

#[test]
fn a_second_take_while_borrowed_fails_and_replace_recovers() {
    let mut ctx = ExecutionContext::new();
    ctx.ensure_initialized(Capabilities::granted());
    assert!(ctx.try_take());
    assert_eq!(ctx.phase, CtxPhase::Borrowed);
    assert!(!ctx.try_take());
    assert_eq!(ctx.phase, CtxPhase::Borrowed);
    ctx.replace();
    assert!(ctx.try_take());
}

#[test]
fn a_take_before_initialization_fails() {
    let mut ctx = ExecutionContext::new();
    assert!(!ctx.try_take());
    assert_eq!(ctx.phase, CtxPhase::Uninitialized);
}

#[test]
fn ticks_advance_the_loop_one_step_and_return_the_context() {
    let mut ctx = ExecutionContext::new();
    ctx.ensure_initialized(Capabilities::granted());
    js_tick_event_loop(&mut ctx);
    js_tick_event_loop(&mut ctx);
    assert_eq!(ctx.ticks, 2);
    assert_eq!(ctx.phase, CtxPhase::Idle);
}

#[test]
fn the_installer_wires_the_four_bridge_functions() {
    let names = bridge_global_names();
    assert_eq!(
        names,
        vec!["lisp_invoke", "is_proxy", "finalize", "lisp_json"]
    );
}

#[test]
fn the_interned_symbols_are_fixed() {
    let syms = init_syms();
    assert_eq!(
        syms,
        vec![
            "js-retain-map",
            "js-lisp-error",
            ":allow-net",
            ":allow-read",
            ":allow-write",
            ":allow-run",
        ]
    );
}

#[test]
fn the_prelude_forwards_through_the_bridge_functions() {
    let p = guest_prelude(10000);
    assert!(p.contains("lisp_invoke.apply"));
    assert!(p.contains("is_proxy"));
    assert!(p.contains("finalize.apply"));
    assert!(p.contains("lisp_json"));
    assert!(p.contains("new WeakRef"));
    assert!(p.contains("JSON.stringify"));
}

#[test]
fn the_prelude_sweeps_at_the_given_interval() {
    assert!(guest_prelude(10000).contains("}, 10000);"));
    assert!(guest_prelude(2500).contains("}, 2500);"));
}
