//! Concurrent dispatch of one submitted batch.
//!
//! A batch is created from the decoded request units together with the
//! pending-result token of the call. The units are processed outside, in
//! any order and concurrently; each unit reports its outcome into the
//! slot of its own input position, so completion order can never reorder
//! the outputs. Once every slot is filled the batch is finished: one
//! element per unit is rendered in input position order — the response
//! text where the unit responded, the JSON `null` where it had none —
//! and the token is resolved, exactly once, with that array text. A
//! unit whose processing faulted fills its slot like a unit with no
//! response, so one fault never blocks the resolution of the whole
//! call, and the output array always keeps the batch's length.
use crate::envelope::RequestUnit;
use crate::envelope::RequestUnitModel;
use crate::envelope::decode_envelope;
use crate::envelope::decode_spec;
use crate::envelope::json_array_text;
use crate::envelope::render_array;
use crate::token::PendingToken;
use crate::token::Resolution;
use vstd::prelude::*;

verus! {

/// The outcome of processing one request unit: a response text, a
/// deliberate absence of a response (a pure subscription start), or an
/// internal fault contained by the boundary.
pub enum UnitOutcome {
    Responded(String),
    NoResponse,
    Faulted,
}

/// The mathematical value of a unit outcome.
pub enum UnitOutcomeModel {
    Responded(Seq<char>),
    NoResponse,
    Faulted,
}

impl View for UnitOutcome {
    type V = UnitOutcomeModel;

    open spec fn view(&self) -> UnitOutcomeModel {
        match self {
            UnitOutcome::Responded(t) => UnitOutcomeModel::Responded(t@),
            UnitOutcome::NoResponse => UnitOutcomeModel::NoResponse,
            UnitOutcome::Faulted => UnitOutcomeModel::Faulted,
        }
    }
}

/// The response a recorded outcome leaves in its slot: a faulted unit
/// leaves no response, exactly like a unit that deliberately had none.
pub open spec fn stored(o: UnitOutcomeModel) -> Option<Seq<char>> {
    match o {
        UnitOutcomeModel::Responded(t) => Option::Some(t),
        UnitOutcomeModel::NoResponse => Option::None,
        UnitOutcomeModel::Faulted => Option::None,
    }
}

/// A batch's slots: position `i` is `None` while unit `i` is still being
/// processed, and holds its stored response once it reported.
pub type Slots = Seq<Option<Option<Seq<char>>>>;

/// Every unit of the batch has reported.
pub open spec fn all_filled(slots: Slots) -> bool {
    forall|i: int| 0 <= i < slots.len() ==> (#[trigger] slots[i]) is Some
}

/// The text of the JSON `null` value, standing at the position of a
/// unit that produced no response.
pub open spec fn null_text() -> Seq<char> {
    seq!['n', 'u', 'l', 'l']
}

/// The response texts of a completed batch, one per filled slot, in
/// input position order; a slot without a response renders as the JSON
/// `null`, so positions in the output correspond to positions in the
/// input.
pub open spec fn collected(slots: Slots) -> Seq<Seq<char>>
    decreases slots.len(),
{
    if slots.len() == 0 {
        Seq::empty()
    } else {
        let rest = collected(slots.drop_last());
        match slots.last() {
            Option::Some(Option::Some(t)) => rest.push(t),
            Option::Some(Option::None) => rest.push(null_text()),
            Option::None => rest,
        }
    }
}

/// The slots of a freshly opened batch of `n` units: all unfilled.
pub open spec fn fresh_slots(n: nat) -> Slots {
    Seq::new(n, |i: int| Option::<Option<Seq<char>>>::None)
}

/// The deep value of one slot.
pub open spec fn slot_model(s: Option<Option<String>>) -> Option<Option<Seq<char>>> {
    match s {
        Option::None => Option::None,
        Option::Some(Option::None) => Option::Some(Option::None),
        Option::Some(Option::Some(t)) => Option::Some(Option::Some(t@)),
    }
}

/// One submitted batch in flight: the decoded units, one response slot
/// per unit, and the pending-result token the batch will resolve.
pub struct Batch {
    units: Vec<RequestUnit>,
    slots: Vec<Option<Option<String>>>,
    token: PendingToken,
}

impl Batch {
    /// The decoded input units, in submission order.
    pub closed spec fn input_models(&self) -> Seq<RequestUnitModel> {
        self.units@.map_values(|u: RequestUnit| u@)
    }

    /// The response slots, one per input unit.
    pub closed spec fn slots_model(&self) -> Slots {
        self.slots@.map_values(|s: Option<Option<String>>| slot_model(s))
    }

    /// The handle of the pending-result token this batch will resolve.
    pub closed spec fn token_id(&self) -> u64 {
        self.token.id()
    }

    /// One slot per input unit.
    pub open spec fn wf(&self) -> bool {
        self.slots_model().len() == self.input_models().len()
    }

    /// Open a batch over the decoded units, holding the call's token.
    /// Every slot starts unfilled.
    pub fn new(units: Vec<RequestUnit>, token: PendingToken) -> (b: Batch)
        ensures
            b.wf(),
            b.input_models() == units@.map_values(|u: RequestUnit| u@),
            b.slots_model() =~= fresh_slots(units@.len()),
            b.token_id() == token.id(),
    {
        let n = units.len();
        let mut slots: Vec<Option<Option<String>>> = Vec::new();
        let mut i: usize = 0;
        while i < n
            invariant
                0 <= i <= n,
                slots@.len() == i,
                forall|j: int|
                    0 <= j < i ==> slot_model(#[trigger] slots@[j]) is None,
            decreases n - i,
        {
            slots.push(Option::None);
            i = i + 1;
        }
        let b = Batch { units, slots, token };
        proof {
            assert(b.slots_model() =~= fresh_slots(b.units@.len()));
        }
        b
    }

    /// The number of units, and of slots, of the batch.
    pub fn len(&self) -> (n: usize)
        ensures
            n == self.input_models().len(),
    {
        self.units.len()
    }

    /// The unit standing at input position `i`, for the processor of that
    /// position.
    pub fn unit_at(&self, i: usize) -> (u: RequestUnit)
        requires
            i < self.input_models().len(),
        ensures
            u@ == self.input_models()[i as int],
    {
        let picked = &self.units[i];
        RequestUnit { method: picked.method.clone(), raw: picked.raw.clone() }
    }

    /// Record the outcome of unit `i` into slot `i`. Only that slot
    /// changes; a faulted unit fills its slot like one with no response,
    /// so completion stays reachable whatever the outcomes were.
    pub fn record(&mut self, i: usize, outcome: UnitOutcome)
        requires
            i < old(self).slots_model().len(),
            old(self).slots_model()[i as int] is None,
        ensures
            final(self).slots_model() =~= old(self).slots_model().update(
                i as int,
                Option::Some(stored(outcome@)),
            ),
            final(self).input_models() == old(self).input_models(),
            final(self).token_id() == old(self).token_id(),
    {
        let filled: Option<Option<String>> = match outcome {
            UnitOutcome::Responded(t) => Option::Some(Option::Some(t)),
            UnitOutcome::NoResponse => Option::Some(Option::None),
            UnitOutcome::Faulted => Option::Some(Option::None),
        };
        self.slots.set(i, filled);
    }

    /// Whether every unit has reported.
    pub fn is_complete(&self) -> (b: bool)
        ensures
            b == all_filled(self.slots_model()),
    {
        let mut i: usize = 0;
        let n = self.slots.len();
        while i < n
            invariant
                0 <= i <= n,
                n == self.slots_model().len(),
                forall|j: int| 0 <= j < i ==> (#[trigger] self.slots_model()[j]) is Some,
            decreases n - i,
        {
            if self.slots[i].is_none() {
                proof {
                    assert(self.slots_model()[i as int] is None);
                }
                return false;
            }
            i = i + 1;
        }
        true
    }

    /// Finish the completed batch: render one element per unit in input
    /// position order — the response text, or the JSON `null` where the
    /// unit had none — and resolve the token with that array text. The
    /// batch is consumed, so the token is resolved exactly once.
    pub fn finish(self) -> (r: Resolution)
        requires
            all_filled(self.slots_model()),
        ensures
            r.handle == self.token_id(),
            r.payload@ == json_array_text(collected(self.slots_model())),
    {
        let Batch { units: _, slots, token } = self;
        let ghost model: Slots = slots@.map_values(|s: Option<Option<String>>| slot_model(s));
        let mut texts: Vec<String> = Vec::new();
        let mut i: usize = 0;
        let n = slots.len();
        while i < n
            invariant
                0 <= i <= n,
                n == model.len(),
                model == slots@.map_values(|s: Option<Option<String>>| slot_model(s)),
                all_filled(model),
                texts@.map_values(|t: String| t@) =~= collected(model.take(i as int)),
            decreases n - i,
        {
            match &slots[i] {
                Option::Some(Option::Some(t)) => {
                    texts.push(t.clone());
                },
                Option::Some(Option::None) => {
                    texts.push(String::from_str("null"));
                    proof {
                        reveal_strlit("null");
                        assert(texts@.last()@ =~= null_text());
                    }
                },
                Option::None => {
                    proof {
                        assert(model[i as int] is Some);
                        assert(false);
                    }
                },
            }
            proof {
                assert(model.take(i + 1 as int).drop_last() =~= model.take(i as int));
                assert(model.take(i + 1 as int).last() == model[i as int]);
            }
            i = i + 1;
        }
        proof {
            assert(model.take(n as int) =~= model);
        }
        let payload = render_array(&texts);
        token.resolve(payload)
    }
}

/// How a submitted call starts: a malformed envelope is rejected at once,
/// resolving the token with the empty array text; a well-formed one opens
/// a batch that holds the token until every unit has reported.
pub enum SubmitStart {
    Rejected(Resolution),
    Accepted(Batch),
}

/// Decode a submitted envelope text and either resolve the call's token
/// immediately with the empty array text (malformed envelope; never a
/// hang, never a fault across the boundary) or open the batch over the
/// decoded units. Either way the token moves on exactly once.
pub fn begin_submit(query: &str, token: PendingToken) -> (r: SubmitStart)
    ensures
        match r {
            SubmitStart::Rejected(res) => {
                &&& decode_spec(query@) is None
                &&& res.handle == token.id()
                &&& res.payload@ == json_array_text(Seq::empty())
            },
            SubmitStart::Accepted(b) => {
                &&& decode_spec(query@) matches Option::Some(us) && b.input_models() == us
                &&& b.wf()
                &&& b.slots_model() =~= fresh_slots(b.input_models().len())
                &&& b.token_id() == token.id()
                &&& !crate::envelope::parses_as_array(query@) ==> b.input_models().len() == 1
            },
        },
{
    match decode_envelope(query) {
        Option::Some(units) => SubmitStart::Accepted(Batch::new(units, token)),
        Option::None => {
            let empty = crate::envelope::render_empty();
            SubmitStart::Rejected(token.resolve(empty))
        },
    }
}

/// The slots after the units have reported the outcomes `outs`, one per
/// position, in position order.
pub open spec fn record_all(slots: Slots, outs: Seq<UnitOutcomeModel>, k: int) -> Slots
    decreases outs.len() - k,
{
    if k < 0 || k >= outs.len() {
        slots
    } else {
        record_all(slots.update(k, Option::Some(stored(outs[k]))), outs, k + 1)
    }
}

/// Recording outcomes at two different positions commutes: the batch's
/// slots do not depend on the order in which concurrently processed
/// units happen to report.
pub proof fn lemma_record_order_irrelevant(
    slots: Slots,
    i: int,
    oi: UnitOutcomeModel,
    j: int,
    oj: UnitOutcomeModel,
)
    requires
        0 <= i < slots.len(),
        0 <= j < slots.len(),
        i != j,
    ensures
        slots.update(i, Option::Some(stored(oi))).update(j, Option::Some(stored(oj)))
            =~= slots.update(j, Option::Some(stored(oj))).update(i, Option::Some(stored(oi))),
{
}

/// Whatever the outcomes of a batch's units were — responses, absences,
/// or contained faults — once each position has reported, every slot is
/// filled and slot `i` holds exactly the stored response of outcome `i`:
/// the batch completes, resolution is reached, and outputs stand in input
/// order.
pub proof fn lemma_all_outcomes_complete_in_position(n: nat, outs: Seq<UnitOutcomeModel>)
    requires
        outs.len() == n,
    ensures
        all_filled(record_all(fresh_slots(n), outs, 0)),
        forall|i: int|
            0 <= i < n ==> #[trigger] record_all(fresh_slots(n), outs, 0)[i] == Option::Some(
                stored(outs[i]),
            ),
{
    lemma_record_all_fills(fresh_slots(n), outs, 0);
}

/// The text one outcome resolves as: its response text, or the JSON
/// `null` where the unit had no response or faulted.
pub open spec fn outcome_text(o: UnitOutcomeModel) -> Seq<char> {
    match stored(o) {
        Option::Some(t) => t,
        Option::None => null_text(),
    }
}

/// The texts of the outcomes, one per position, in position order.
pub open spec fn outcome_texts(outs: Seq<UnitOutcomeModel>) -> Seq<Seq<char>> {
    outs.map_values(|o: UnitOutcomeModel| outcome_text(o))
}

/// What a completed batch resolves with, for any outcomes at all: one
/// element per unit, in input position order — the response text where
/// the unit responded, the JSON `null` where it had no response or
/// faulted. The output array keeps the batch's length, and position `i`
/// of the output is the outcome of input unit `i`.
pub proof fn lemma_payload_aligns_with_outcomes(n: nat, outs: Seq<UnitOutcomeModel>)
    requires
        outs.len() == n,
    ensures
        collected(record_all(fresh_slots(n), outs, 0)) == outcome_texts(outs),
        collected(record_all(fresh_slots(n), outs, 0)).len() == n,
        forall|i: int|
            0 <= i < n ==> collected(record_all(fresh_slots(n), outs, 0))[i] == outcome_text(
                outs[i],
            ),
{
    lemma_record_all_fills(fresh_slots(n), outs, 0);
    lemma_collected_of_stored(record_all(fresh_slots(n), outs, 0), outs);
}

/// Slots holding exactly the stored outcomes collect the outcome texts.
proof fn lemma_collected_of_stored(slots: Slots, outs: Seq<UnitOutcomeModel>)
    requires
        slots.len() == outs.len(),
        forall|i: int|
            0 <= i < slots.len() ==> #[trigger] slots[i] == Option::Some(stored(outs[i])),
    ensures
        collected(slots) == outcome_texts(outs),
    decreases slots.len(),
{
    if slots.len() > 0 {
        assert(forall|i: int|
            0 <= i < slots.drop_last().len() ==> #[trigger] slots.drop_last()[i] == Option::Some(
                stored(outs.drop_last()[i]),
            ));
        lemma_collected_of_stored(slots.drop_last(), outs.drop_last());
        assert(slots.last() == Option::Some(stored(outs.last())));
        assert(collected(slots) =~= outcome_texts(outs));
    } else {
        assert(collected(slots) =~= outcome_texts(outs));
    }
}

/// After `record_all` from position `k` on, positions below `k` keep
/// their slots and positions from `k` on hold their stored outcomes.
proof fn lemma_record_all_fills(slots: Slots, outs: Seq<UnitOutcomeModel>, k: int)
    requires
        0 <= k <= outs.len(),
        outs.len() == slots.len(),
    ensures
        record_all(slots, outs, k).len() == slots.len(),
        forall|i: int|
            0 <= i < k ==> #[trigger] record_all(slots, outs, k)[i] == slots[i],
        forall|i: int|
            k <= i < outs.len() ==> #[trigger] record_all(slots, outs, k)[i] == Option::Some(
                stored(outs[i]),
            ),
    decreases outs.len() - k,
{
    if k < outs.len() {
        lemma_record_all_fills(slots.update(k, Option::Some(stored(outs[k]))), outs, k + 1);
    }
}

} // verus!
