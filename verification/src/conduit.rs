//! Sequential model of the command conduit: the single-slot,
//! latest-value-wins channel between the command producers and the one
//! consumer.
//!
//! The conduit holds only the most recently published value. Publishing
//! never blocks and overwrites any not-yet-observed value; the consumer
//! observes a value only when it differs from the last one it observed,
//! so an already-seen value never re-triggers a transition, and a burst
//! of publishes coalesces into the newest one. Once all producers are
//! gone, polling reports closure instead of suspending, which is what
//! lets the consumer's loop terminate.
//!
//! The concurrent realization (a watch channel shared by request
//! handlers) lives in the runtime around this crate; this model is the
//! contract that realization must meet, and the laws below are proved
//! against it.

use vstd::prelude::*;
use crate::command::CountdownCommand;

verus! {

/// Result of the consumer polling the conduit once.
#[derive(Clone, Copy, Debug, PartialEq, Eq, Structural)]
pub enum ConduitPoll {
    /// A value distinct from the last observed one; it is now observed.
    Changed(CountdownCommand),
    /// Nothing new: the consumer would suspend here.
    Pending,
    /// All producers are gone and nothing is left to observe.
    Closed,
}

/// The conduit: the latest published value, the consumer's observation
/// point, and whether any producer is still attached.
pub struct Conduit {
    /// The most recently published value.
    pub latest: CountdownCommand,
    /// The last value the consumer observed.
    pub observed: CountdownCommand,
    /// Whether any producer is still attached.
    pub producers_alive: bool,
}

/// The conduit after one publish: the slot is overwritten, nothing else
/// moves.
pub open spec fn spec_publish(c: Conduit, value: CountdownCommand) -> Conduit {
    Conduit { latest: value, observed: c.observed, producers_alive: c.producers_alive }
}

/// The conduit after a whole burst of publishes, oldest first.
pub open spec fn publish_all(c: Conduit, values: Seq<CountdownCommand>) -> Conduit
    decreases values.len(),
{
    if values.len() == 0 {
        c
    } else {
        publish_all(spec_publish(c, values[0]), values.skip(1))
    }
}

/// What one poll of the consumer yields, and the conduit it leaves
/// behind.
pub open spec fn observe(c: Conduit) -> (Conduit, ConduitPoll) {
    if c.latest != c.observed {
        (
            Conduit { latest: c.latest, observed: c.latest, producers_alive: c.producers_alive },
            ConduitPoll::Changed(c.latest),
        )
    } else if c.producers_alive {
        (c, ConduitPoll::Pending)
    } else {
        (c, ConduitPoll::Closed)
    }
}

/// Law: a burst of publishes coalesces into its newest value. However
/// fast producers publish, the conduit afterwards holds exactly the last
/// value of the burst, and the consumer's observation point is
/// untouched: no intermediate value of the burst remains observable.
pub proof fn lemma_burst_coalesces(c: Conduit, values: Seq<CountdownCommand>)
    requires
        values.len() > 0,
    ensures
        publish_all(c, values).latest == values.last(),
        publish_all(c, values).observed == c.observed,
        publish_all(c, values).producers_alive == c.producers_alive,
    decreases values.len(),
{
    if values.len() == 1 {
        assert(values.skip(1).len() == 0);
        assert(values.last() == values[0]);
    } else {
        lemma_burst_coalesces(spec_publish(c, values[0]), values.skip(1));
        assert(values.skip(1).last() == values.last());
    }
}

/// Law: after a burst, the consumer observes only the newest value. If
/// the burst's last value differs from what the consumer saw last, one
/// poll yields exactly that value; a value equal to the one already
/// observed never re-triggers.
pub proof fn lemma_consumer_sees_only_newest(c: Conduit, values: Seq<CountdownCommand>)
    requires
        values.len() > 0,
    ensures
        values.last() != c.observed ==> observe(publish_all(c, values)).1
            == ConduitPoll::Changed(values.last()),
        values.last() == c.observed ==> observe(publish_all(c, values)).1 != ConduitPoll::Changed(
            values.last(),
        ),
{
    lemma_burst_coalesces(c, values);
}

/// Law: once the producers are gone, a poll never suspends the
/// consumer: it yields the one pending change, if any, and closure
/// afterwards, so the consumer's loop cannot hang.
pub proof fn lemma_closure_terminates(c: Conduit)
    requires
        !c.producers_alive,
    ensures
        observe(c).1 != ConduitPoll::Pending,
        c.latest == c.observed ==> observe(c).1 == ConduitPoll::Closed,
{
}

impl Conduit {
    /// A fresh conduit over an initial value, which counts as already
    /// observed: the consumer is only woken by a change.
    pub fn new(initial: CountdownCommand) -> (c: Conduit)
        ensures
            c.latest == initial,
            c.observed == initial,
            c.producers_alive,
    {
        Conduit { latest: initial, observed: initial, producers_alive: true }
    }

    /// Publish a value: never blocks, overwrites whatever was there,
    /// whether or not the consumer had observed it.
    pub fn publish(&mut self, value: CountdownCommand)
        ensures
            *final(self) == spec_publish(*old(self), value),
    {
        self.latest = value;
    }

    /// The last producer is dropped.
    pub fn close(&mut self)
        ensures
            final(self).latest == old(self).latest,
            final(self).observed == old(self).observed,
            !final(self).producers_alive,
    {
        self.producers_alive = false;
    }

    /// The consumer polls for the next change, exactly as [`observe`]
    /// says: a value differing from the last observed one is returned
    /// and marked observed; an unchanged value leaves the consumer
    /// suspended while producers live, and reports closure once they are
    /// gone.
    pub fn next_change(&mut self) -> (r: ConduitPoll)
        ensures
            *final(self) == observe(*old(self)).0,
            r == observe(*old(self)).1,
            !old(self).producers_alive ==> r != ConduitPoll::Pending,
    {
        if self.latest != self.observed {
            self.observed = self.latest;
            ConduitPoll::Changed(self.latest)
        } else if self.producers_alive {
            ConduitPoll::Pending
        } else {
            ConduitPoll::Closed
        }
    }
}

} // verus!
