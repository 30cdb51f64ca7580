//! The proxy registry: the host-side root set that keeps exposed host
//! values alive on the guest's behalf.
//!
//! Two independent collectors cannot observe each other's reachability
//! graphs, so the bridge retains every value it exposes until the guest
//! itself reports, through `sweep`, which handles still survive. The retain
//! set is prepend-only between sweeps, and a sweep replaces it wholesale
//! with exactly the values the surviving handles refer to, in the reported
//! order. A sweep is the only path that revokes guest access.

use vstd::prelude::*;
use vstd::string::*;

use crate::codec;
use crate::value::{HostValue, ProxyHandle, ValueModel};

verus! {

/// One retained exposure: a handle identity and the host value it keeps
/// alive.
pub struct Retained {
    pub id: u64,
    pub value: HostValue,
}

impl Clone for Retained {
    fn clone(&self) -> (r: Retained)
        ensures
            r.id == self.id,
            r.value@ == self.value@,
    {
        Retained { id: self.id, value: self.value.clone() }
    }
}

/// The mathematical model of the registry: the retained entries, newest
/// first, and the next fresh handle identity.
pub struct RegistryModel {
    pub retained: Seq<(u64, ValueModel)>,
    pub next_id: u64,
}

impl RegistryModel {
    /// Every retained entry was handed out before the next fresh identity.
    pub open spec fn wf(self) -> bool {
        forall|k: int| 0 <= k < self.retained.len() ==> (#[trigger] self.retained[k]).0
            < self.next_id
    }
}

/// The value a handle identity refers to: the newest retained entry under
/// that identity.
pub open spec fn lookup_model(entries: Seq<(u64, ValueModel)>, id: u64) -> Option<ValueModel>
    decreases entries.len(),
{
    if entries.len() == 0 {
        None
    } else if entries[0].0 == id {
        Some(entries[0].1)
    } else {
        lookup_model(entries.skip(1), id)
    }
}

/// What `expose` does: prepend the value under a fresh identity.
pub open spec fn expose_model(m: RegistryModel, v: ValueModel) -> (RegistryModel, u64)
    recommends
        m.next_id < u64::MAX,
{
    (
        RegistryModel {
            retained: seq![(m.next_id, v)] + m.retained,
            next_id: (m.next_id + 1) as u64,
        },
        m.next_id,
    )
}

/// The entries a sweep keeps: for each reported identity, in order, the
/// value it referred to; identities that no longer resolve are passed over.
pub open spec fn retained_of(old: Seq<(u64, ValueModel)>, ids: Seq<u64>) -> Seq<
    (u64, ValueModel),
>
    decreases ids.len(),
{
    if ids.len() == 0 {
        Seq::<(u64, ValueModel)>::empty()
    } else {
        match lookup_model(old, ids[0]) {
            Some(v) => seq![(ids[0], v)] + retained_of(old, ids.skip(1)),
            None => retained_of(old, ids.skip(1)),
        }
    }
}

/// What `sweep` does: replace the retain set wholesale.
pub open spec fn sweep_model(m: RegistryModel, ids: Seq<u64>) -> RegistryModel {
    RegistryModel { retained: retained_of(m.retained, ids), next_id: m.next_id }
}

/// The sentinel payload `describe` renders when a handle's value has no
/// encoding or no longer resolves.
pub open spec fn not_serializable_chars() -> Seq<char> {
    "{\"nativeProxy\": true}"@
}

/// What `describe` renders for a handle identity.
pub open spec fn describe_model(m: RegistryModel, id: u64) -> Seq<char> {
    match lookup_model(m.retained, id) {
        Some(v) => match codec::encode_model(v) {
            Some(t) => t,
            None => not_serializable_chars(),
        },
        None => not_serializable_chars(),
    }
}

/// The registry itself: the retain set, newest exposure first, and the next
/// fresh handle identity.
pub struct ProxyRegistry {
    pub retained: Vec<Retained>,
    pub next_id: u64,
}

impl View for ProxyRegistry {
    type V = RegistryModel;

    open spec fn view(&self) -> RegistryModel {
        RegistryModel {
            retained: self.retained@.map_values(|r: Retained| (r.id, r.value@)),
            next_id: self.next_id,
        }
    }
}

impl ProxyRegistry {
    /// The registry at startup: an empty retain set.
    pub fn new() -> (r: ProxyRegistry)
        ensures
            r@.retained == Seq::<(u64, ValueModel)>::empty(),
            r@.next_id == 0,
            r@.wf(),
    {
        let r = ProxyRegistry { retained: Vec::new(), next_id: 0 };
        proof {
            assert(r@.retained =~= Seq::<(u64, ValueModel)>::empty());
        }
        r
    }

    /// Wraps a host value for the guest: prepends it to the retain set under
    /// a fresh identity and hands back the handle. Always succeeds.
    pub fn expose(&mut self, v: HostValue) -> (h: ProxyHandle)
        requires
            old(self)@.wf(),
            old(self)@.next_id < u64::MAX,
        ensures
            final(self)@ == expose_model(old(self)@, v@).0,
            h.id == expose_model(old(self)@, v@).1,
            final(self)@.wf(),
            lookup_model(final(self)@.retained, h.id) == Some(v@),
    {
        let ghost oldm = self@;
        let ghost vm = v@;
        let id = self.next_id;
        self.retained.insert(0, Retained { id, value: v });
        self.next_id = self.next_id + 1;
        proof {
            assert(self@.retained =~= seq![(id, vm)] + oldm.retained);
            assert(self@ == expose_model(oldm, vm).0);
            assert(lookup_model(self@.retained, id) == Some(vm));
        }
        ProxyHandle { id }
    }

    /// The newest retained value under a handle identity, if any still is.
    pub fn find(&self, id: u64) -> (r: Option<&HostValue>)
        ensures
            r is Some <==> lookup_model(self@.retained, id) is Some,
            r matches Some(v) ==> lookup_model(self@.retained, id) == Some(v@),
    {
        let n = self.retained.len();
        let mut k: usize = 0;
        proof {
            assert(self@.retained.skip(0) =~= self@.retained);
        }
        while k < n
            invariant
                0 <= k <= n,
                n == self.retained.len(),
                lookup_model(self@.retained, id) == lookup_model(self@.retained.skip(k as int), id),
            decreases n - k,
        {
            proof {
                assert(self@.retained.skip(k as int)[0] == self@.retained[k as int]);
            }
            if self.retained[k].id == id {
                return Some(&self.retained[k].value);
            }
            proof {
                assert(self@.retained.skip(k as int).skip(1) =~= self@.retained.skip(k as int + 1));
            }
            k = k + 1;
        }
        proof {
            assert(self@.retained.skip(n as int) =~= Seq::<(u64, ValueModel)>::empty());
        }
        None
    }

    /// Renders the value a handle refers to, as the marshalling service
    /// encodes it; where the value is opaque or the handle no longer
    /// resolves, the fixed "not serializable" payload, never an error.
    pub fn describe(&self, h: &ProxyHandle) -> (t: String)
        ensures
            t@ == describe_model(self@, h.id),
    {
        match self.find(h.id) {
            Some(v) => match codec::encode(v) {
                Some(t) => t,
                None => String::from_str("{\"nativeProxy\": true}"),
            },
            None => String::from_str("{\"nativeProxy\": true}"),
        }
    }

    /// Replaces the retain set with exactly the values the surviving handles
    /// refer to, in the reported order. Values left unreported become
    /// collectible: this is the only path that revokes guest access, and the
    /// guest's own liveness tracking drives it, never the host.
    pub fn sweep(&mut self, survivors: &Vec<ProxyHandle>)
        requires
            old(self)@.wf(),
        ensures
            final(self)@ == sweep_model(old(self)@, survivors@.map_values(|h: ProxyHandle| h.id)),
            final(self)@.wf(),
    {
        let ghost oldm = self@;
        let ghost ids = survivors@.map_values(|h: ProxyHandle| h.id);
        let n = survivors.len();
        let mut kept: Vec<Retained> = Vec::new();
        let mut k: usize = 0;
        proof {
            assert(ids.take(0) =~= Seq::<u64>::empty());
            assert(kept@.map_values(|r: Retained| (r.id, r.value@)) =~= retained_of(
                oldm.retained,
                ids.take(0),
            ));
        }
        while k < n
            invariant
                0 <= k <= n,
                n == survivors.len(),
                ids == survivors@.map_values(|h: ProxyHandle| h.id),
                self@ == oldm,
                oldm.wf(),
                kept@.map_values(|r: Retained| (r.id, r.value@)) == retained_of(
                    oldm.retained,
                    ids.take(k as int),
                ),
            decreases n - k,
        {
            let id = survivors[k].id;
            proof {
                assert(ids[k as int] == id);
            }
            match self.find(id) {
                Some(v) => {
                    let value = v.clone();
                    kept.push(Retained { id, value });
                },
                None => {
                },
            }
            proof {
                lemma_retained_of_take_step(oldm.retained, ids, k as int);
                assert(kept@.map_values(|r: Retained| (r.id, r.value@)) =~= retained_of(
                    oldm.retained,
                    ids.take(k as int + 1),
                ));
            }
            k = k + 1;
        }
        self.retained = kept;
        proof {
            assert(ids.take(n as int) =~= ids);
            assert(self@.retained == retained_of(oldm.retained, ids));
            lemma_retained_of_wf(oldm.retained, ids, oldm.next_id);
        }
    }
}

/// Sweeping one more reported identity appends its entry, where it still
/// resolves.
proof fn lemma_retained_of_take_step(old: Seq<(u64, ValueModel)>, ids: Seq<u64>, k: int)
    requires
        0 <= k < ids.len(),
    ensures
        retained_of(old, ids.take(k + 1)) == match lookup_model(old, ids[k]) {
            Some(v) => retained_of(old, ids.take(k)) + seq![(ids[k], v)],
            None => retained_of(old, ids.take(k)),
        },
{
    lemma_retained_of_push(old, ids.take(k), ids[k]);
    assert(ids.take(k).push(ids[k]) =~= ids.take(k + 1));
}

/// `retained_of` over a list extended by one identity.
proof fn lemma_retained_of_push(old: Seq<(u64, ValueModel)>, ids: Seq<u64>, id: u64)
    ensures
        retained_of(old, ids.push(id)) == match lookup_model(old, id) {
            Some(v) => retained_of(old, ids) + seq![(id, v)],
            None => retained_of(old, ids),
        },
    decreases ids.len(),
{
    let ext = ids.push(id);
    if ids.len() == 0 {
        assert(ext[0] == id);
        assert(ext.skip(1) =~= Seq::<u64>::empty());
        assert(retained_of(old, Seq::<u64>::empty()) =~= Seq::<(u64, ValueModel)>::empty());
        assert(retained_of(old, ids) =~= Seq::<(u64, ValueModel)>::empty());
        match lookup_model(old, id) {
            Some(v) => {
                assert(retained_of(old, ext) == seq![(id, v)] + retained_of(old, ext.skip(1)));
                assert(retained_of(old, ext) =~= retained_of(old, ids) + seq![(id, v)]);
            },
            None => {
                assert(retained_of(old, ext) == retained_of(old, ext.skip(1)));
            },
        }
    } else {
        assert(ext[0] == ids[0]);
        assert(ext.skip(1) =~= ids.skip(1).push(id));
        lemma_retained_of_push(old, ids.skip(1), id);
        match lookup_model(old, id) {
            Some(v) => {
                assert(retained_of(old, ext) =~= retained_of(old, ids) + seq![(id, v)]);
            },
            None => {
            },
        }
    }
}

/// Entries a sweep keeps only carry identities the registry once handed
/// out.
proof fn lemma_retained_of_wf(old: Seq<(u64, ValueModel)>, ids: Seq<u64>, bound: u64)
    requires
        forall|k: int| 0 <= k < old.len() ==> (#[trigger] old[k]).0 < bound,
    ensures
        forall|k: int|
            0 <= k < retained_of(old, ids).len() ==> (#[trigger] retained_of(old, ids)[k]).0
                < bound,
    decreases ids.len(),
{
    if ids.len() == 0 {
    } else {
        lemma_retained_of_wf(old, ids.skip(1), bound);
        let r = retained_of(old, ids);
        let rest = retained_of(old, ids.skip(1));
        match lookup_model(old, ids[0]) {
            Some(v) => {
                lemma_lookup_bound(old, ids[0], bound);
                assert(r == seq![(ids[0], v)] + rest);
                assert forall|k: int| 0 <= k < r.len() implies (#[trigger] r[k]).0 < bound by {
                    if k == 0 {
                        assert(r[0] == (ids[0], v));
                    } else {
                        assert(r[k] == rest[k - 1]);
                    }
                }
            },
            None => {
                assert(r == rest);
            },
        }
    }
}

/// The proxy predicate: whether a guest value carries the bridge's opaque
/// handle marker.
pub fn is_proxy(candidate: &crate::value::GuestValue) -> (r: bool)
    ensures
        r == (candidate@ is Proxy),
{
    match candidate {
        crate::value::GuestValue::Proxy(_) => true,
        _ => false,
    }
}

// ---------------------------------------------------------------------------
// Liveness
// ---------------------------------------------------------------------------

/// Liveness, first half: the value just exposed is retrievable through its
/// handle, and `describe` renders its encoding — or the "not serializable"
/// payload where the value is opaque.
pub proof fn lemma_expose_retrieves(m: RegistryModel, v: ValueModel)
    requires
        m.wf(),
        m.next_id < u64::MAX,
    ensures
        lookup_model(expose_model(m, v).0.retained, expose_model(m, v).1) == Some(v),
        describe_model(expose_model(m, v).0, expose_model(m, v).1) == match codec::encode_model(v) {
            Some(t) => t,
            None => not_serializable_chars(),
        },
{
    let after = expose_model(m, v).0;
    assert(after.retained[0] == (m.next_id, v));
}

/// Liveness, second half: a further exposure never disturbs what an older
/// handle retrieves.
pub proof fn lemma_expose_preserves(m: RegistryModel, v: ValueModel, id: u64)
    requires
        m.wf(),
        m.next_id < u64::MAX,
        lookup_model(m.retained, id) is Some,
    ensures
        lookup_model(expose_model(m, v).0.retained, id) == lookup_model(m.retained, id),
        describe_model(expose_model(m, v).0, id) == describe_model(m, id),
{
    lemma_lookup_bound(m.retained, id, m.next_id);
    let after = expose_model(m, v).0;
    assert(after.retained[0].0 == m.next_id && m.next_id != id);
    assert(after.retained.skip(1) =~= m.retained);
}

/// Liveness, last half: a sweep keeps exactly the reported handles
/// retrievable, each at its old value; every other identity stops
/// resolving. In particular a sweep that reports nothing empties the retain
/// set, and the values it held become collectible.
pub proof fn lemma_sweep_lookup(m: RegistryModel, ids: Seq<u64>, id: u64)
    ensures
        lookup_model(sweep_model(m, ids).retained, id) == if ids.contains(id) {
            lookup_model(m.retained, id)
        } else {
            None
        },
    decreases ids.len(),
{
    let old = m.retained;
    if ids.len() == 0 {
        assert(!ids.contains(id));
    } else {
        lemma_sweep_lookup(RegistryModel { retained: old, next_id: m.next_id }, ids.skip(1), id);
        let rest = retained_of(old, ids.skip(1));
        match lookup_model(old, ids[0]) {
            Some(v) => {
                let r = retained_of(old, ids);
                assert(r == seq![(ids[0], v)] + rest);
                assert(r[0] == (ids[0], v));
                assert(r.skip(1) =~= rest);
                if id == ids[0] {
                    assert(ids.contains(id)) by {
                        assert(ids[0] == id);
                    }
                    assert(lookup_model(r, id) == Some(v));
                } else {
                    assert(lookup_model(r, id) == lookup_model(rest, id));
                    assert(ids.contains(id) <==> ids.skip(1).contains(id)) by {
                        if ids.contains(id) {
                            let j = choose|j: int| 0 <= j < ids.len() && ids[j] == id;
                            assert(ids.skip(1)[j - 1] == id);
                        }
                        if ids.skip(1).contains(id) {
                            let j = choose|j: int|
                                0 <= j < ids.skip(1).len() && ids.skip(1)[j] == id;
                            assert(ids[j + 1] == id);
                        }
                    }
                }
            },
            None => {
                if id == ids[0] {
                    if ids.skip(1).contains(id) {
                        let j = choose|j: int| 0 <= j < ids.skip(1).len() && ids.skip(1)[j] == id;
                        assert(ids[j + 1] == id);
                        assert(ids.contains(id));
                    }
                    assert(lookup_model(retained_of(old, ids), id) == if ids.skip(1).contains(id) {
                        lookup_model(old, id)
                    } else {
                        None
                    });
                    assert(lookup_model(old, id) is None);
                } else {
                    assert(ids.contains(id) <==> ids.skip(1).contains(id)) by {
                        if ids.contains(id) {
                            let j = choose|j: int| 0 <= j < ids.len() && ids[j] == id;
                            assert(ids.skip(1)[j - 1] == id);
                        }
                        if ids.skip(1).contains(id) {
                            let j = choose|j: int|
                                0 <= j < ids.skip(1).len() && ids.skip(1)[j] == id;
                            assert(ids[j + 1] == id);
                        }
                    }
                }
            },
        }
    }
}

/// A handle a sweep keeps on describing exactly as before the sweep.
pub proof fn lemma_sweep_keeps_describe(m: RegistryModel, ids: Seq<u64>, id: u64)
    requires
        ids.contains(id),
    ensures
        describe_model(sweep_model(m, ids), id) == describe_model(m, id),
{
    lemma_sweep_lookup(m, ids, id);
}

/// A sweep that reports no survivors leaves nothing retrievable: every
/// handle thereafter describes as the "not serializable" payload.
pub proof fn lemma_sweep_empty(m: RegistryModel, id: u64)
    ensures
        sweep_model(m, Seq::<u64>::empty()).retained == Seq::<(u64, ValueModel)>::empty(),
        lookup_model(sweep_model(m, Seq::<u64>::empty()).retained, id) is None,
        describe_model(sweep_model(m, Seq::<u64>::empty()), id) == not_serializable_chars(),
{
    lemma_sweep_lookup(m, Seq::<u64>::empty(), id);
}

/// An identity that still resolves lies below the registry's next fresh
/// identity.
pub proof fn lemma_lookup_bound(entries: Seq<(u64, ValueModel)>, id: u64, bound: u64)
    requires
        forall|k: int| 0 <= k < entries.len() ==> (#[trigger] entries[k]).0 < bound,
        lookup_model(entries, id) is Some,
    ensures
        id < bound,
    decreases entries.len(),
{
    if entries.len() == 0 {
    } else if entries[0].0 == id {
        assert(entries[0].0 < bound);
    } else {
        assert(forall|k: int|
            0 <= k < entries.skip(1).len() ==> (#[trigger] entries.skip(1)[k]).0 < bound);
        lemma_lookup_bound(entries.skip(1), id, bound);
    }
}

} // verus!
