//! The event relay: one ordered queue of core events, one host listener.
//!
//! Events the core produces are serialized to text outside and queued
//! here in production order; an event whose serialization failed is
//! dropped and the relay goes on. One listener at a time receives the
//! queue: registering a listener replaces the previous one, so a second
//! registration never duplicates delivery. Delivery hands each queued
//! text out exactly once, in production order, to the listener current
//! at that moment; while no listener is registered, events wait in the
//! queue.
use vstd::prelude::*;

verus! {

/// The mathematical state of the relay: the current listener, the queue
/// of event texts still to deliver, and the histories of everything ever
/// queued and everything ever handed to the host.
pub struct RelayModel {
    pub listener: Option<u64>,
    pub queue: Seq<Seq<char>>,
    pub produced: Seq<Seq<char>>,
    pub delivered: Seq<Seq<char>>,
}

/// The relay's invariant: the production history is exactly the delivery
/// history followed by what still waits in the queue.
pub open spec fn relay_wf(m: RelayModel) -> bool {
    m.produced == m.delivered + m.queue
}

/// Registering a listener: the new listener replaces any previous one;
/// the queue and both histories are untouched.
pub open spec fn register_step(m: RelayModel, listener: u64) -> RelayModel {
    RelayModel { listener: Option::Some(listener), ..m }
}

/// Producing an event, already serialized outside: a text joins the back
/// of the queue and the production history; a failed serialization
/// (`None`) is dropped and changes nothing.
pub open spec fn produce_step(m: RelayModel, event: Option<Seq<char>>) -> RelayModel {
    match event {
        Option::Some(text) => RelayModel {
            queue: m.queue.push(text),
            produced: m.produced.push(text),
            ..m
        },
        Option::None => m,
    }
}

/// Delivering the next event: with a listener registered and the queue
/// nonempty, the front text leaves the queue, joins the delivery history,
/// and is handed to that listener — one hand-over, to one listener.
/// Otherwise nothing happens.
pub open spec fn deliver_step(m: RelayModel) -> (RelayModel, Option<(u64, Seq<char>)>) {
    match m.listener {
        Option::Some(l) => if m.queue.len() > 0 {
            (
                RelayModel {
                    queue: m.queue.drop_first(),
                    delivered: m.delivered.push(m.queue.first()),
                    ..m
                },
                Option::Some((l, m.queue.first())),
            )
        } else {
            (m, Option::None)
        },
        Option::None => (m, Option::None),
    }
}

/// One hand-over of an event text to the host listener that was current
/// when the event left the queue.
pub struct Delivery {
    pub listener: u64,
    pub text: String,
}

/// The event relay. Its model is the `RelayModel` the step functions
/// speak of; every operation follows its step exactly.
pub struct EventRelay {
    listener: Option<u64>,
    queue: Vec<String>,
    produced: Ghost<Seq<Seq<char>>>,
    delivered: Ghost<Seq<Seq<char>>>,
}

impl EventRelay {
    /// The relay's mathematical state.
    pub closed spec fn model(&self) -> RelayModel {
        RelayModel {
            listener: self.listener,
            queue: self.queue@.map_values(|t: String| t@),
            produced: self.produced@,
            delivered: self.delivered@,
        }
    }

    /// A fresh relay: no listener, nothing queued, empty histories.
    pub fn new() -> (r: EventRelay)
        ensures
            relay_wf(r.model()),
            r.model().listener is None,
            r.model().queue == Seq::<Seq<char>>::empty(),
            r.model().produced == Seq::<Seq<char>>::empty(),
            r.model().delivered == Seq::<Seq<char>>::empty(),
    {
        let r = EventRelay {
            listener: Option::None,
            queue: Vec::new(),
            produced: Ghost(Seq::empty()),
            delivered: Ghost(Seq::empty()),
        };
        proof {
            assert(r.model().produced =~= r.model().delivered + r.model().queue);
        }
        r
    }

    /// Register `listener` as the one receiver of events, replacing any
    /// previously registered listener.
    pub fn register(&mut self, listener: u64)
        ensures
            final(self).model() == register_step(old(self).model(), listener),
            relay_wf(old(self).model()) ==> relay_wf(final(self).model()),
    {
        self.listener = Option::Some(listener);
    }

    /// Queue one produced event for delivery; `None` stands for an event
    /// whose serialization failed, which is dropped while the relay goes
    /// on.
    pub fn produce(&mut self, event: Option<String>)
        ensures
            final(self).model() == produce_step(
                old(self).model(),
                match event {
                    Option::Some(t) => Option::Some(t@),
                    Option::None => Option::None,
                },
            ),
            relay_wf(old(self).model()) ==> relay_wf(final(self).model()),
    {
        match event {
            Option::Some(text) => {
                proof {
                    self.produced@ = self.produced@.push(text@);
                }
                self.queue.push(text);
                proof {
                    assert(final(self).model().queue =~= old(self).model().queue.push(text@));
                    assert(final(self).model() == produce_step(
                        old(self).model(),
                        Option::Some(text@),
                    ));
                    if relay_wf(old(self).model()) {
                        assert(final(self).model().produced =~= final(self).model().delivered
                            + final(self).model().queue);
                    }
                }
            },
            Option::None => {},
        }
    }

    /// Hand the next queued event, if any, to the currently registered
    /// listener, if any; the event leaves the queue for the delivery
    /// history, so it can never be handed out a second time.
    pub fn deliver_next(&mut self) -> (d: Option<Delivery>)
        ensures
            final(self).model() == deliver_step(old(self).model()).0,
            match d {
                Option::Some(delivery) => deliver_step(old(self).model()).1 matches Option::Some(
                    expected,
                ) && expected == (delivery.listener, delivery.text@),
                Option::None => deliver_step(old(self).model()).1 is None,
            },
            relay_wf(old(self).model()) ==> relay_wf(final(self).model()),
    {
        let listener: u64 = match &self.listener {
            Option::Some(l) => *l,
            Option::None => {
                return Option::None;
            },
        };
        if self.queue.len() == 0 {
            return Option::None;
        }
        let text = self.queue.remove(0);
        proof {
            self.delivered@ = self.delivered@.push(text@);
            assert(final(self).model().queue =~= old(self).model().queue.drop_first());
            assert(old(self).model().queue.first() == text@);
            assert(final(self).model() == deliver_step(old(self).model()).0);
            if relay_wf(old(self).model()) {
                let after = final(self).model();
                assert(after.produced =~= after.delivered + after.queue);
            }
        }
        Option::Some(Delivery { listener, text })
    }
}

/// Every event reaches the host exactly once and in production order:
/// under the relay invariant the delivery history is a prefix of the
/// production history, so the i-th event handed to the host is exactly
/// the i-th event produced, and an event already delivered is no longer
/// in the queue to be delivered again.
pub proof fn lemma_delivery_exactly_once_in_order(m: RelayModel)
    requires
        relay_wf(m),
    ensures
        m.delivered.len() <= m.produced.len(),
        forall|i: int| 0 <= i < m.delivered.len() ==> m.delivered[i] == m.produced[i],
{
    assert forall|i: int| 0 <= i < m.delivered.len() implies m.delivered[i] == m.produced[i] by {
        assert(m.produced[i] == (m.delivered + m.queue)[i]);
    }
}

/// A second registration replaces the first listener instead of adding
/// one: a delivery after both registrations goes to the second listener,
/// and it moves exactly one event from the queue to the delivery history
/// — the event is not also delivered to the first listener.
pub proof fn lemma_last_registration_wins(m: RelayModel, first: u64, second: u64)
    ensures
        register_step(register_step(m, first), second).listener == Option::Some(second),
        deliver_step(register_step(register_step(m, first), second)).1 matches Option::Some(d)
            ==> d.0 == second,
        deliver_step(register_step(register_step(m, first), second)).1 is Some
            ==> deliver_step(register_step(register_step(m, first), second)).0.delivered
                == m.delivered.push(m.queue.first()),
{
}

} // verus!
