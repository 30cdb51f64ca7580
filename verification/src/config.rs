//! Capability configuration for the guest runtime.
//!
//! A configuration is an ordered, flat list of keyword/value pairs. Every
//! capability starts granted; a recognized keyword paired with the host's
//! false-equivalent value revokes it for the guest's lifetime. An odd-length
//! list or an unrecognized keyword is a configuration error, fatal to that
//! eval call alone.

use vstd::prelude::*;

use crate::value::BridgeError;

verus! {

/// The four capabilities the guest runtime can be granted.
#[derive(Clone, Copy, Debug, PartialEq, Eq, Structural)]
pub struct Capabilities {
    pub net: bool,
    pub read: bool,
    pub write: bool,
    pub run: bool,
}

impl Capabilities {
    /// What an absent configuration grants: everything.
    pub open spec fn all_granted() -> Capabilities {
        Capabilities { net: true, read: true, write: true, run: true }
    }

    /// The default capabilities, with every one granted.
    pub fn granted() -> (c: Capabilities)
        ensures
            c == Capabilities::all_granted(),
    {
        Capabilities { net: true, read: true, write: true, run: true }
    }
}

/// One atom of a configuration list, as the host hands it over: one of the
/// four recognized keywords, the host's false-equivalent value, or any
/// other host value.
#[derive(Clone, Copy, Debug, PartialEq, Eq, Structural)]
pub enum ConfigAtom {
    AllowNet,
    AllowRead,
    AllowWrite,
    AllowRun,
    Nil,
    Truthy,
}

/// The atoms accepted in keyword position.
pub open spec fn is_keyword(a: ConfigAtom) -> bool {
    a is AllowNet || a is AllowRead || a is AllowWrite || a is AllowRun
}

/// A well-formed configuration: pairs throughout, a recognized keyword in
/// every keyword position.
pub open spec fn config_ok(s: Seq<ConfigAtom>) -> bool {
    s.len() % 2 == 0 && forall|i: int|
        0 <= i < s.len() && i % 2 == 0 ==> is_keyword(#[trigger] s[i])
}

/// Whether some pair names capability `k` with the false-equivalent value.
pub open spec fn denies(s: Seq<ConfigAtom>, k: ConfigAtom) -> bool
    decreases s.len(),
{
    if s.len() < 2 {
        false
    } else {
        (s[0] == k && s[1] is Nil) || denies(s.skip(2), k)
    }
}

/// The capabilities a well-formed configuration grants: everything except
/// what some pair revokes.
pub open spec fn caps_of_config(s: Seq<ConfigAtom>) -> Capabilities {
    Capabilities {
        net: !denies(s, ConfigAtom::AllowNet),
        read: !denies(s, ConfigAtom::AllowRead),
        write: !denies(s, ConfigAtom::AllowWrite),
        run: !denies(s, ConfigAtom::AllowRun),
    }
}

/// A pair that names capability `k` with the false-equivalent value makes
/// the configuration deny `k`.
pub proof fn lemma_denies_witness(s: Seq<ConfigAtom>, i: int, k: ConfigAtom)
    requires
        0 <= i,
        i % 2 == 0,
        i + 1 < s.len(),
        s[i] == k,
        s[i + 1] is Nil,
    ensures
        denies(s, k),
    decreases i,
{
    if i == 0 {
    } else {
        assert(s.skip(2)[i - 2] == s[i]);
        assert(s.skip(2)[i - 1] == s[i + 1]);
        lemma_denies_witness(s.skip(2), i - 2, k);
    }
}

/// Reads a configuration list into the capabilities it grants: everything
/// by default, minus what the pairs revoke. An odd-length list or an
/// unrecognized keyword yields the configuration error instead, and grants
/// nothing.
pub fn capabilities_from_config(args: &Vec<ConfigAtom>) -> (r: Result<Capabilities, BridgeError>)
    ensures
        r is Ok <==> config_ok(args@),
        r matches Ok(c) ==> c == caps_of_config(args@),
        r matches Err(e) ==> e == BridgeError::Configuration,
{
    let n = args.len();
    if n % 2 != 0 {
        return Err(BridgeError::Configuration);
    }
    let mut net = true;
    let mut read = true;
    let mut write = true;
    let mut run = true;
    let mut i: usize = 0;
    proof {
        assert(args@.skip(0) =~= args@);
    }
    while i < n
        invariant
            0 <= i <= n,
            i % 2 == 0,
            n % 2 == 0,
            n == args@.len(),
            forall|j: int| 0 <= j < i && j % 2 == 0 ==> is_keyword(#[trigger] args@[j]),
            denies(args@, ConfigAtom::AllowNet) <==> (!net || denies(
                args@.skip(i as int),
                ConfigAtom::AllowNet,
            )),
            denies(args@, ConfigAtom::AllowRead) <==> (!read || denies(
                args@.skip(i as int),
                ConfigAtom::AllowRead,
            )),
            denies(args@, ConfigAtom::AllowWrite) <==> (!write || denies(
                args@.skip(i as int),
                ConfigAtom::AllowWrite,
            )),
            denies(args@, ConfigAtom::AllowRun) <==> (!run || denies(
                args@.skip(i as int),
                ConfigAtom::AllowRun,
            )),
        decreases n - i,
    {
        let key = args[i];
        let val = args[i + 1];
        let revoked = match val {
            ConfigAtom::Nil => true,
            _ => false,
        };
        match key {
            ConfigAtom::AllowNet => {
                if revoked {
                    net = false;
                }
            },
            ConfigAtom::AllowRead => {
                if revoked {
                    read = false;
                }
            },
            ConfigAtom::AllowWrite => {
                if revoked {
                    write = false;
                }
            },
            ConfigAtom::AllowRun => {
                if revoked {
                    run = false;
                }
            },
            _ => {
                proof {
                    assert(!is_keyword(args@[i as int]));
                }
                return Err(BridgeError::Configuration);
            },
        }
        proof {
            let suf = args@.skip(i as int);
            assert(suf[0] == args@[i as int]);
            assert(suf[1] == args@[i as int + 1]);
            assert(suf.skip(2) =~= args@.skip(i as int + 2));
        }
        i = i + 2;
    }
    proof {
        assert(args@.skip(n as int) =~= Seq::<ConfigAtom>::empty());
    }
    Ok(Capabilities { net, read, write, run })
}

/// Capability defaults: an empty configuration is well formed and grants
/// all four capabilities; a pair naming a capability with the
/// false-equivalent value revokes it.
pub proof fn lemma_capability_defaults(s: Seq<ConfigAtom>, i: int)
    ensures
        config_ok(Seq::<ConfigAtom>::empty()),
        caps_of_config(Seq::<ConfigAtom>::empty()) == Capabilities::all_granted(),
        0 <= i && i + 1 < s.len() && i % 2 == 0 && s[i] == ConfigAtom::AllowNet && s[i + 1] is Nil
            ==> !caps_of_config(s).net,
{
    assert(!denies(Seq::<ConfigAtom>::empty(), ConfigAtom::AllowNet));
    assert(!denies(Seq::<ConfigAtom>::empty(), ConfigAtom::AllowRead));
    assert(!denies(Seq::<ConfigAtom>::empty(), ConfigAtom::AllowWrite));
    assert(!denies(Seq::<ConfigAtom>::empty(), ConfigAtom::AllowRun));
    if 0 <= i && i + 1 < s.len() && i % 2 == 0 && s[i] == ConfigAtom::AllowNet && s[i + 1] is Nil {
        lemma_denies_witness(s, i, ConfigAtom::AllowNet);
    }
}

/// A configuration with an odd number of entries is never well formed.
pub proof fn lemma_odd_config_rejected(s: Seq<ConfigAtom>)
    requires
        s.len() % 2 == 1,
    ensures
        !config_ok(s),
{
}

} // verus!
