//! The shared core handle: one process-wide slot, constructed lazily and
//! at most once.
//!
//! The outside scheduler serializes every check-or-create through one
//! mutual-exclusion guard; what runs inside the guard is this module's
//! step: look at the slot, and only when it is empty construct a core
//! and install it. The slot never changes again after its first write,
//! so any number of callers after the first observe the same handle, and
//! construction happens at most once however many callers race for it.
//! A construction that fails installs nothing: the failure is fatal to
//! that call alone, the slot stays empty rather than poisoned, and a
//! later call may construct again — the trace law below counts the
//! guarded steps whose construction completed.
use vstd::prelude::*;

verus! {

/// The process-wide slot holding the handle of the constructed core, as
/// a plain identifier the outside maps to the real instance and its
/// routing table. Empty until the first submitted call constructs it.
pub struct CoreSlot {
    handle: Option<u64>,
}

impl CoreSlot {
    /// The installed core handle, if construction has happened.
    pub closed spec fn model(&self) -> Option<u64> {
        self.handle
    }

    /// An empty slot: no core constructed yet.
    pub fn new() -> (s: CoreSlot)
        ensures
            s.model() is None,
    {
        CoreSlot { handle: Option::None }
    }

    /// The guarded check: the installed handle, or nothing when the core
    /// is still to be constructed. Never triggers a construction itself.
    pub fn get(&self) -> (r: Option<u64>)
        ensures
            r == self.model(),
    {
        match &self.handle {
            Option::Some(h) => Option::Some(*h),
            Option::None => Option::None,
        }
    }

    /// Install the freshly constructed core into the empty slot: the one
    /// write the slot ever sees. A later caller can only observe it.
    pub fn install(&mut self, fresh: u64)
        requires
            old(self).model() is None,
        ensures
            final(self).model() == Option::Some(fresh),
    {
        self.handle = Option::Some(fresh);
    }
}

/// One guarded check-or-create step: an empty slot constructs and
/// installs `fresh`; a filled slot is returned untouched.
pub open spec fn slot_after_step(s: Option<u64>, fresh: u64) -> Option<u64> {
    match s {
        Option::None => Option::Some(fresh),
        Option::Some(h) => Option::Some(h),
    }
}

/// Whether the step constructs a core: only an empty slot does.
pub open spec fn step_constructs(s: Option<u64>) -> bool {
    s is None
}

/// The slot after a whole trace of guarded steps, each installing its
/// own fresh handle when it found the slot empty.
pub open spec fn slot_after_trace(s: Option<u64>, fresh: Seq<u64>) -> Option<u64>
    decreases fresh.len(),
{
    if fresh.len() == 0 {
        s
    } else {
        slot_after_trace(slot_after_step(s, fresh[0]), fresh.drop_first())
    }
}

/// How many steps of the trace construct a core.
pub open spec fn constructions_in_trace(s: Option<u64>, fresh: Seq<u64>) -> nat
    decreases fresh.len(),
{
    if fresh.len() == 0 {
        0
    } else {
        (if step_constructs(s) {
            1nat
        } else {
            0nat
        }) + constructions_in_trace(slot_after_step(s, fresh[0]), fresh.drop_first())
    }
}

/// A filled slot stays filled and is never constructed over: a trace
/// starting from a filled slot constructs nothing and leaves the handle
/// as it was.
pub proof fn lemma_filled_slot_is_stable(h: u64, fresh: Seq<u64>)
    ensures
        constructions_in_trace(Option::Some(h), fresh) == 0,
        slot_after_trace(Option::Some(h), fresh) == Option::Some(h),
    decreases fresh.len(),
{
    if fresh.len() > 0 {
        lemma_filled_slot_is_stable(h, fresh.drop_first());
    }
}

/// Construction happens at most once, however many callers race for the
/// first use: across any trace of guarded check-or-create steps, at most
/// one step constructs a core — exactly one when the trace is nonempty
/// and starts from the empty slot — and every later step observes the
/// handle the first step installed.
pub proof fn lemma_construction_at_most_once(s: Option<u64>, fresh: Seq<u64>)
    ensures
        constructions_in_trace(s, fresh) <= 1,
        s is None && fresh.len() > 0 ==> constructions_in_trace(s, fresh) == 1
            && slot_after_trace(s, fresh) == Option::Some(fresh[0]),
{
    if fresh.len() > 0 {
        match s {
            Option::None => {
                lemma_filled_slot_is_stable(fresh[0], fresh.drop_first());
            },
            Option::Some(h) => {
                lemma_filled_slot_is_stable(h, fresh);
            },
        }
    }
}

} // verus!
