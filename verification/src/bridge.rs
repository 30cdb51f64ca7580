//! The bootstrap/installer surface and the host-facing entry points.
//!
//! Initialization wires four bridge functions into the guest's global
//! namespace, injects the guest-side prelude, and schedules the recurring
//! host timer that ticks the event loop. The eval entry points read the
//! capability configuration and produce the plan the embedder runs: which
//! module to resolve, what inline source to execute, and which
//! capabilities the guest worker gets for its lifetime.

use vstd::prelude::*;
use vstd::string::*;

use crate::config::{capabilities_from_config, caps_of_config, config_ok, Capabilities, ConfigAtom};
use crate::context::ExecutionContext;
use crate::value::BridgeError;

verus! {

/// One eval request, ready for the embedder: resolve `entry_path`, then
/// execute `inline_source` where it is given, else load and execute the
/// module itself, under `caps`.
#[derive(Debug)]
pub struct EvalPlan {
    pub entry_path: String,
    pub inline_source: Option<String>,
    pub caps: Capabilities,
}

/// The module path inline script evaluation runs under.
pub open spec fn inline_module_chars() -> Seq<char> {
    "anon-lisp.js"@
}

/// Evaluates script text: reads the capability configuration and plans an
/// inline execution under the anonymous module path. A malformed
/// configuration is fatal to this call alone: it yields the configuration
/// error and plans nothing.
pub fn eval_js(source: &str, config: &Vec<ConfigAtom>) -> (r: Result<EvalPlan, BridgeError>)
    ensures
        r is Ok <==> config_ok(config@),
        r matches Ok(p) ==> p.entry_path@ == inline_module_chars() && (match p.inline_source {
            Some(s) => s@ == source@,
            None => false,
        }) && p.caps == caps_of_config(config@),
        r matches Err(e) ==> e == BridgeError::Configuration,
{
    let caps = match capabilities_from_config(config) {
        Ok(c) => c,
        Err(e) => {
            return Err(e);
        },
    };
    Ok(
        EvalPlan {
            entry_path: String::from_str("anon-lisp.js"),
            inline_source: Some(String::from_str(source)),
            caps,
        },
    )
}

/// Evaluates a module from a filesystem path: reads the capability
/// configuration and plans a module execution. A malformed configuration
/// is fatal to this call alone: it yields the configuration error and
/// plans nothing.
pub fn eval_js_file(path: &str, config: &Vec<ConfigAtom>) -> (r: Result<EvalPlan, BridgeError>)
    ensures
        r is Ok <==> config_ok(config@),
        r matches Ok(p) ==> p.entry_path@ == path@ && p.inline_source is None && p.caps
            == caps_of_config(config@),
        r matches Err(e) ==> e == BridgeError::Configuration,
{
    let caps = match capabilities_from_config(config) {
        Ok(c) => c,
        Err(e) => {
            return Err(e);
        },
    };
    Ok(EvalPlan { entry_path: String::from_str(path), inline_source: None, caps })
}

/// The recurring host timer's entry point: advances the guest event loop
/// exactly one non-blocking step, through the context's borrow/return
/// protocol.
pub fn js_tick_event_loop(ctx: &mut ExecutionContext)
    requires
        old(ctx).take_allowed(),
        old(ctx).ticks < u64::MAX,
    ensures
        *final(ctx) == (ExecutionContext { ticks: (old(ctx).ticks + 1) as u64, ..*old(ctx) }),
        final(ctx).take_allowed(),
{
    ctx.tick();
}

/// The four host-implemented functions the installer wires into the guest
/// global namespace: call dispatch, the proxy predicate, the
/// value-describe function, and the sweep function.
pub fn bridge_global_names() -> (names: Vec<String>)
    ensures
        names@.len() == 4,
        names@[0]@ == "lisp_invoke"@,
        names@[1]@ == "is_proxy"@,
        names@[2]@ == "finalize"@,
        names@[3]@ == "lisp_json"@,
{
    let mut names: Vec<String> = Vec::new();
    names.push(String::from_str("lisp_invoke"));
    names.push(String::from_str("is_proxy"));
    names.push(String::from_str("finalize"));
    names.push(String::from_str("lisp_json"));
    names
}

/// The host-side symbols the bridge interns: the retain-set root variable,
/// the host-error tag, and the four capability keywords.
pub fn init_syms() -> (syms: Vec<String>)
    ensures
        syms@.len() == 6,
        syms@[0]@ == "js-retain-map"@,
        syms@[1]@ == "js-lisp-error"@,
        syms@[2]@ == ":allow-net"@,
        syms@[3]@ == ":allow-read"@,
        syms@[4]@ == ":allow-write"@,
        syms@[5]@ == ":allow-run"@,
{
    let mut syms: Vec<String> = Vec::new();
    syms.push(String::from_str("js-retain-map"));
    syms.push(String::from_str("js-lisp-error"));
    syms.push(String::from_str(":allow-net"));
    syms.push(String::from_str(":allow-read"));
    syms.push(String::from_str(":allow-write"));
    syms.push(String::from_str(":allow-run"));
    syms
}

/// The part of the guest prelude before the sweep interval.
pub open spec fn prelude_head_chars() -> Seq<char> {
    "
(() => {
let global = (1,eval)('this');
let weakset = [];
let finalize = global.finalize;
delete global.finalize;
let lisp_json = global.lisp_json;
delete global.lisp_json;
setInterval(() => {
    const alive = [];
    const survivors = [];
    weakset.forEach((w) => {
        let x = w.deref();
        if (x) {
            alive.push(w);
            survivors.push(x);
        }
    });
    finalize.apply(this, survivors);
    weakset = alive;
}, "@
}

/// The part of the guest prelude after the sweep interval.
pub open spec fn prelude_tail_chars() -> Seq<char> {
    ");
global.lisp = new Proxy({}, {
    get: function(o, k) {
        return function() {
            const modargs = [k.replaceAll('-', '_')];
            for (let i = 0; i < arguments.length; ++i) {
                if (is_proxy(arguments[i])) {
                    modargs.push(arguments[i]);
                } else {
                    modargs.push(JSON.stringify(arguments[i]));
                }
            }
            let result = lisp_invoke.apply(this, modargs);
            let retval = null;
            if (is_proxy(result)) {
                result.json = () => {
                    return JSON.parse(lisp_json(result));
                };
                weakset.push(new WeakRef(result));
                retval = result;
            } else {
                retval = JSON.parse(result);
            }
            return retval;
        }
    }});
})();"@
}

/// The guest-side prelude, with the sweep interval written into its timer:
/// one namespace object whose property access yields a forwarding function
/// that encodes primitive arguments as text and passes proxies through;
/// every returned proxy is tracked weakly, and the surviving subset is
/// reported to the sweep function once per interval.
pub open spec fn guest_prelude_chars(sweep_interval_ms: u64) -> Seq<char> {
    prelude_head_chars() + crate::codec::dec_digits(sweep_interval_ms as nat)
        + prelude_tail_chars()
}

/// The prelude text the installer injects into the guest, right after the
/// bridge functions are wired in. The liveness lag is the tunable the
/// caller passes, normally the context's `sweep_interval_ms`.
pub fn guest_prelude(sweep_interval_ms: u64) -> (s: String)
    ensures
        s@ == guest_prelude_chars(sweep_interval_ms),
{
    let mut s = String::from_str("
(() => {
let global = (1,eval)('this');
let weakset = [];
let finalize = global.finalize;
delete global.finalize;
let lisp_json = global.lisp_json;
delete global.lisp_json;
setInterval(() => {
    const alive = [];
    const survivors = [];
    weakset.forEach((w) => {
        let x = w.deref();
        if (x) {
            alive.push(w);
            survivors.push(x);
        }
    });
    finalize.apply(this, survivors);
    weakset = alive;
}, ");
    crate::codec::push_dec(sweep_interval_ms, &mut s);
    s.append(");
global.lisp = new Proxy({}, {
    get: function(o, k) {
        return function() {
            const modargs = [k.replaceAll('-', '_')];
            for (let i = 0; i < arguments.length; ++i) {
                if (is_proxy(arguments[i])) {
                    modargs.push(arguments[i]);
                } else {
                    modargs.push(JSON.stringify(arguments[i]));
                }
            }
            let result = lisp_invoke.apply(this, modargs);
            let retval = null;
            if (is_proxy(result)) {
                result.json = () => {
                    return JSON.parse(lisp_json(result));
                };
                weakset.push(new WeakRef(result));
                retval = result;
            } else {
                retval = JSON.parse(result);
            }
            return retval;
        }
    }});
})();");
    s
}

} // verus!
