//! The execution context: the single live event-loop driver and guest
//! worker pair, and the exclusive borrow/return protocol that serializes
//! every guest-touching operation.
//!
//! The context is built at most once, on first use, and thereafter moves
//! between idle and borrowed: every operation that touches the guest takes
//! the context, runs its task to completion, and replaces it. A second take
//! while borrowed is a discipline violation — the design relies on a single
//! driving thread — and `try_take` reports it instead of looping or
//! blocking. The engine pair itself lives with the embedder; the context
//! records the protocol state, the capabilities fixed at initialization,
//! and the tunable timer intervals.

use vstd::prelude::*;

use crate::config::Capabilities;

verus! {

/// Where the context stands in its lifecycle.
#[derive(Clone, Copy, Debug, PartialEq, Eq, Structural)]
pub enum CtxPhase {
    /// No engine pair has been built yet.
    Uninitialized,
    /// Built, and nobody holds the engine pair.
    Idle,
    /// Built, and exactly one caller holds the engine pair.
    Borrowed,
}

/// The bridge's view of the one execution context.
pub struct ExecutionContext {
    pub phase: CtxPhase,
    /// The capabilities fixed when the context was initialized.
    pub caps: Capabilities,
    /// How many event-loop advances have been driven so far.
    pub ticks: u64,
    /// The host timer interval between event-loop ticks, in milliseconds.
    pub tick_interval_ms: u64,
    /// The guest-side interval between liveness sweeps, in milliseconds.
    pub sweep_interval_ms: u64,
}

impl ExecutionContext {
    /// Whether a take is allowed: only an idle context can be taken.
    pub open spec fn take_allowed(self) -> bool {
        self.phase is Idle
    }

    /// The context once taken.
    pub open spec fn after_take(self) -> ExecutionContext {
        ExecutionContext { phase: CtxPhase::Borrowed, ..self }
    }

    /// The context once replaced.
    pub open spec fn after_replace(self) -> ExecutionContext {
        ExecutionContext { phase: CtxPhase::Idle, ..self }
    }

    /// A fresh, not yet initialized context with the default intervals: a
    /// tick every tenth of a second, a sweep every ten seconds.
    pub fn new() -> (c: ExecutionContext)
        ensures
            c.phase is Uninitialized,
            c.caps == Capabilities::all_granted(),
            c.ticks == 0,
            c.tick_interval_ms == 100u64,
            c.sweep_interval_ms == 10000u64,
    {
        ExecutionContext {
            phase: CtxPhase::Uninitialized,
            caps: Capabilities::granted(),
            ticks: 0,
            tick_interval_ms: 100,
            sweep_interval_ms: 10000,
        }
    }

    /// Initializes the context exactly once, fixing the capabilities for
    /// its lifetime, and leaves it idle.
    pub fn initialize(&mut self, caps: Capabilities)
        requires
            old(self).phase is Uninitialized,
        ensures
            *final(self) == (ExecutionContext { phase: CtxPhase::Idle, caps, ..*old(self) }),
    {
        self.phase = CtxPhase::Idle;
        self.caps = caps;
    }

    /// Initializes on first use and reports whether this call built the
    /// context; an already initialized context is left exactly as it was.
    pub fn ensure_initialized(&mut self, caps: Capabilities) -> (built: bool)
        ensures
            built == (old(self).phase is Uninitialized),
            built ==> *final(self) == (ExecutionContext {
                phase: CtxPhase::Idle,
                caps,
                ..*old(self)
            }),
            !built ==> *final(self) == *old(self),
    {
        match self.phase {
            CtxPhase::Uninitialized => {
                self.initialize(caps);
                true
            },
            _ => false,
        }
    }

    /// Takes exclusive hold of the engine pair. Only an idle context may be
    /// taken; the checked entry point is `try_take`.
    pub fn take(&mut self)
        requires
            old(self).take_allowed(),
        ensures
            *final(self) == old(self).after_take(),
    {
        self.phase = CtxPhase::Borrowed;
    }

    /// Attempts to take the context, and reports whether it succeeded: a
    /// take while borrowed — or before initialization — fails and changes
    /// nothing, so the embedder can treat it as the fatal discipline
    /// violation it is.
    pub fn try_take(&mut self) -> (ok: bool)
        ensures
            ok == old(self).take_allowed(),
            ok ==> *final(self) == old(self).after_take(),
            !ok ==> *final(self) == *old(self),
    {
        match self.phase {
            CtxPhase::Idle => {
                self.phase = CtxPhase::Borrowed;
                true
            },
            _ => false,
        }
    }

    /// Returns the engine pair: the borrow ends and the context is idle
    /// again.
    pub fn replace(&mut self)
        requires
            old(self).phase is Borrowed,
        ensures
            *final(self) == old(self).after_replace(),
    {
        self.phase = CtxPhase::Idle;
    }

    /// One host-driven advance of the guest event loop: borrow, advance
    /// exactly one non-blocking step, return. The embedder performs the
    /// engine poll while the context is borrowed.
    pub fn tick(&mut self)
        requires
            old(self).take_allowed(),
            old(self).ticks < u64::MAX,
        ensures
            *final(self) == (ExecutionContext {
                ticks: (old(self).ticks + 1) as u64,
                ..*old(self)
            }),
            final(self).take_allowed(),
    {
        self.take();
        self.ticks = self.ticks + 1;
        self.replace();
    }
}

/// Exactly one borrow: an idle context can be taken; a second take while
/// borrowed cannot; after a replace, a take succeeds again.
pub proof fn lemma_exactly_one_borrow(c: ExecutionContext)
    requires
        c.take_allowed(),
    ensures
        !c.after_take().take_allowed(),
        c.after_take().after_replace().take_allowed(),
{
}

} // verus!
