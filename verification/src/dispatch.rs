//! Call dispatch and the error bridge: one guest-requested host call.
//!
//! A dispatch normalizes the requested name into the host's identifier
//! convention, resolves each argument — a proxy handle through the
//! registry, a text through the marshalling service — and hands the frame
//! to the host evaluator. The evaluator runs inside a protected call on the
//! embedder's side, so a host error cannot unwind past the boundary: it
//! comes back here as a rendered message and leaves as a guest exception.
//! A successful primitive result leaves as its encoding; any other result
//! is exposed through the registry and leaves as a fresh proxy handle.

use vstd::prelude::*;
use vstd::string::*;

use crate::codec;
use crate::registry::{expose_model, lookup_model, ProxyRegistry, RegistryModel};
use crate::value::{BridgeError, GuestModel, GuestValue, HostValue, ProxyHandle, ValueModel};

verus! {

/// The host's identifier convention: hyphens where the guest writes
/// underscores.
pub open spec fn normalize_model(s: Seq<char>) -> Seq<char> {
    s.map_values(
        |c: char|
            if c == '_' {
                '-'
            } else {
                c
            },
    )
}

/// Rewrites a guest-side name into the host's convention.
pub fn normalize_name(name: &str) -> (r: String)
    ensures
        r@ == normalize_model(name@),
{
    let n = name.unicode_len();
    let mut out = String::new();
    let mut i: usize = 0;
    while i < n
        invariant
            0 <= i <= n,
            n == name@.len(),
            out@ == normalize_model(name@.take(i as int)),
        decreases n - i,
    {
        let c = name.get_char(i);
        if c == '_' {
            codec::push_char(&mut out, '-');
        } else {
            codec::push_char(&mut out, c);
        }
        proof {
            assert(out@ =~= normalize_model(name@.take(i as int + 1)));
        }
        i = i + 1;
    }
    proof {
        assert(name@.take(n as int) =~= name@);
    }
    out
}

/// The views of a sequence of guest values.
pub open spec fn guest_models(s: Seq<GuestValue>) -> Seq<GuestModel> {
    s.map_values(|g: GuestValue| g@)
}

/// The views of a sequence of host values.
pub open spec fn host_models(s: Seq<HostValue>) -> Seq<ValueModel> {
    s.map_values(|v: HostValue| v@)
}

/// What argument resolution yields: each proxy handle becomes the host
/// value it refers to, each text the primitive it encodes. A text that
/// encodes nothing is dropped from the call — the permissive behavior the
/// bridge documents rather than hides. A guest shape that is neither, or a
/// handle that no longer resolves, breaks the installer's contract.
pub open spec fn resolve_model(args: Seq<GuestModel>, m: RegistryModel) -> Result<
    Seq<ValueModel>,
    BridgeError,
>
    decreases args.len(),
{
    if args.len() == 0 {
        Ok(Seq::<ValueModel>::empty())
    } else {
        match args[0] {
            GuestModel::Other => Err(BridgeError::ContractViolation),
            GuestModel::Proxy(id) => match lookup_model(m.retained, id) {
                Some(v) => match resolve_model(args.skip(1), m) {
                    Ok(t) => Ok(seq![v] + t),
                    Err(e) => Err(e),
                },
                None => Err(BridgeError::ContractViolation),
            },
            GuestModel::Text(t) => match codec::decode_model(t) {
                Some(v) => match resolve_model(args.skip(1), m) {
                    Ok(tl) => Ok(seq![v] + tl),
                    Err(e) => Err(e),
                },
                None => resolve_model(args.skip(1), m),
            },
        }
    }
}

/// One prepared host call: the normalized operation name and the resolved
/// arguments, exclusively owned by the dispatch that built it.
#[derive(Debug)]
pub struct CallFrame {
    pub op: String,
    pub args: Vec<HostValue>,
}

/// Builds the call frame for one dispatch: normalizes the name and
/// resolves the arguments against the registry, in the given order.
pub fn prepare_dispatch(name: &str, args: &Vec<GuestValue>, reg: &ProxyRegistry) -> (r: Result<
    CallFrame,
    BridgeError,
>)
    ensures
        r is Ok <==> resolve_model(guest_models(args@), reg@) is Ok,
        r matches Ok(f) ==> f.op@ == normalize_model(name@) && Ok::<_, BridgeError>(
            host_models(f.args@),
        ) == resolve_model(guest_models(args@), reg@),
        r matches Err(e) ==> Err::<Seq<ValueModel>, _>(e) == resolve_model(
            guest_models(args@),
            reg@,
        ),
{
    let ghost gargs = guest_models(args@);
    let op = normalize_name(name);
    let n = args.len();
    let mut out: Vec<HostValue> = Vec::new();
    let mut i: usize = 0;
    proof {
        assert(gargs.skip(0) =~= gargs);
        assert(host_models(out@) =~= Seq::<ValueModel>::empty());
    }
    while i < n
        invariant
            0 <= i <= n,
            n == args@.len(),
            gargs == guest_models(args@),
            op@ == normalize_model(name@),
            resolve_model(gargs, reg@) == (match resolve_model(gargs.skip(i as int), reg@) {
                Ok(t) => Ok::<Seq<ValueModel>, BridgeError>(host_models(out@) + t),
                Err(e) => Err(e),
            }),
        decreases n - i,
    {
        let ghost suf = gargs.skip(i as int);
        let ghost pre = host_models(out@);
        proof {
            assert(suf[0] == args@[i as int]@);
            assert(suf.skip(1) =~= gargs.skip(i as int + 1));
        }
        match &args[i] {
            GuestValue::Other => {
                return Err(BridgeError::ContractViolation);
            },
            GuestValue::Proxy(h) => {
                match reg.find(h.id) {
                    Some(v) => {
                        let value = v.clone();
                        let ghost vm = value@;
                        out.push(value);
                        proof {
                            assert(host_models(out@) =~= pre + seq![vm]);
                            assert(resolve_model(suf, reg@) == (match resolve_model(
                                suf.skip(1),
                                reg@,
                            ) {
                                Ok(t) => Ok::<Seq<ValueModel>, BridgeError>(seq![vm] + t),
                                Err(e) => Err(e),
                            }));
                            if resolve_model(gargs.skip(i as int + 1), reg@) is Ok {
                                let t = resolve_model(gargs.skip(i as int + 1), reg@)->Ok_0;
                                assert(pre + (seq![vm] + t) =~= (pre + seq![vm]) + t);
                            }
                        }
                    },
                    None => {
                        return Err(BridgeError::ContractViolation);
                    },
                }
            },
            GuestValue::Text(t) => {
                match codec::decode(t.as_str()) {
                    Some(v) => {
                        let ghost vm = v@;
                        out.push(v);
                        proof {
                            assert(host_models(out@) =~= pre + seq![vm]);
                            assert(resolve_model(suf, reg@) == (match resolve_model(
                                suf.skip(1),
                                reg@,
                            ) {
                                Ok(t) => Ok::<Seq<ValueModel>, BridgeError>(seq![vm] + t),
                                Err(e) => Err(e),
                            }));
                            if resolve_model(gargs.skip(i as int + 1), reg@) is Ok {
                                let tl = resolve_model(gargs.skip(i as int + 1), reg@)->Ok_0;
                                assert(pre + (seq![vm] + tl) =~= (pre + seq![vm]) + tl);
                            }
                        }
                    },
                    None => {
                        // An undecodable argument is dropped from the call,
                        // as the documented permissive policy says; the
                        // contract above states the filtering exactly.
                        proof {
                            assert(resolve_model(suf, reg@) == resolve_model(suf.skip(1), reg@));
                        }
                    },
                }
            },
        }
        i = i + 1;
    }
    proof {
        assert(gargs.skip(n as int) =~= Seq::<GuestModel>::empty());
        assert(host_models(out@) + Seq::<ValueModel>::empty() =~= host_models(out@));
    }
    Ok(CallFrame { op, args: out })
}

/// A host-raised error, as the protected call hands it back: already
/// rendered to its message text.
pub struct HostError {
    pub message: String,
}

impl View for HostError {
    type V = Seq<char>;

    open spec fn view(&self) -> Seq<char> {
        self.message@
    }
}

/// What one dispatch returns to the guest.
#[derive(Debug, PartialEq)]
pub enum DispatchOutcome {
    /// A primitive result, as its encoding.
    Value(String),
    /// A non-primitive result, as a fresh proxy handle.
    Handle(ProxyHandle),
    /// A host error, to be raised as a guest exception.
    GuestException(String),
}

/// The mathematical model of a dispatch outcome.
pub enum OutcomeModel {
    Value(Seq<char>),
    Handle(u64),
    GuestException(Seq<char>),
}

impl View for DispatchOutcome {
    type V = OutcomeModel;

    open spec fn view(&self) -> OutcomeModel {
        match self {
            DispatchOutcome::Value(t) => OutcomeModel::Value(t@),
            DispatchOutcome::Handle(h) => OutcomeModel::Handle(h.id),
            DispatchOutcome::GuestException(t) => OutcomeModel::GuestException(t@),
        }
    }
}

/// The model of the host evaluator's answer for one call.
pub open spec fn host_result_model(r: Result<HostValue, HostError>) -> Result<
    ValueModel,
    Seq<char>,
> {
    match r {
        Ok(v) => Ok(v@),
        Err(e) => Err(e@),
    }
}

/// What completing a dispatch does: a host error becomes a guest exception
/// carrying the rendered message, and touches nothing; a primitive result
/// leaves as its encoding; any other result is exposed and leaves as the
/// fresh handle.
pub open spec fn complete_model(result: Result<ValueModel, Seq<char>>, m: RegistryModel) -> (
    OutcomeModel,
    RegistryModel,
) {
    match result {
        Err(msg) => (OutcomeModel::GuestException(msg), m),
        Ok(v) => match codec::encode_model(v) {
            Some(t) => (OutcomeModel::Value(t), m),
            None => (OutcomeModel::Handle(expose_model(m, v).1), expose_model(m, v).0),
        },
    }
}

/// Finishes one dispatch from the host evaluator's answer.
pub fn complete_dispatch(result: Result<HostValue, HostError>, reg: &mut ProxyRegistry) -> (out:
    DispatchOutcome)
    requires
        old(reg)@.wf(),
        old(reg)@.next_id < u64::MAX,
    ensures
        out@ == complete_model(host_result_model(result), old(reg)@).0,
        final(reg)@ == complete_model(host_result_model(result), old(reg)@).1,
        final(reg)@.wf(),
{
    match result {
        Err(e) => DispatchOutcome::GuestException(e.message),
        Ok(v) => {
            match codec::encode(&v) {
                Some(t) => DispatchOutcome::Value(t),
                None => {
                    let h = reg.expose(v);
                    DispatchOutcome::Handle(h)
                },
            }
        },
    }
}

/// Error translation: a host error during a dispatched call returns
/// control to the guest as a catchable exception carrying the host's
/// rendered message, and disturbs nothing the bridge retains.
pub proof fn lemma_error_translation(msg: Seq<char>, m: RegistryModel)
    ensures
        complete_model(Err(msg), m).0 == OutcomeModel::GuestException(msg),
        complete_model(Err(msg), m).1 == m,
{
}

} // verus!
