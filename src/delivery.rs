//! The decisions of sending values to a destination, alone or from a
//! sequence, optionally within a deadline.
//!
//! A driver outside the library does the waiting: it pulls values from the
//! sequence, hands them to the destination, and watches the deadline. Each
//! thing it sees is an `Event`; `Transfer::step` answers with the next
//! `Action`. One value at a time is in flight, and values go out in the order
//! in which the sequence produced them.
use vstd::prelude::*;

verus! {

/// Where a transfer stands.
#[derive(Clone, Copy, Debug, PartialEq, Eq, Structural)]
pub enum Phase {
    /// Waiting for the sequence's next value.
    Pulling,
    /// Waiting for the destination to accept the value in flight.
    Delivering,
    /// Done; no event is expected any more.
    Finished,
}

/// Why a transfer failed.
#[derive(Debug, PartialEq, Eq)]
pub enum SendError<E> {
    /// The deadline passed before the transfer was done.
    TimedOut,
    /// The destination or the sequence failed with this error.
    Inner(E),
}

/// What the driver saw.
#[derive(Debug, PartialEq, Eq)]
pub enum Event<T, E> {
    /// The sequence produced this value.
    Produced(T),
    /// The sequence ended.
    Exhausted,
    /// The destination accepted the value in flight.
    Accepted,
    /// The destination or the sequence failed.
    Failed(E),
    /// The deadline passed.
    Elapsed,
}

/// What the driver is to do next.
#[derive(Debug, PartialEq, Eq)]
pub enum Action<T, E> {
    /// Wait for the sequence's next value.
    Pull,
    /// Hand this value to the destination and wait until it is accepted.
    Deliver(T),
    /// Stop, reporting this outcome; anything still in flight is dropped.
    Finish(Result<(), SendError<E>>),
}

/// The state of one transfer.
#[derive(Clone, Copy, Debug, PartialEq, Eq, Structural)]
pub struct Transfer {
    pub phase: Phase,
    /// Whether values may follow the one in flight.
    pub more: bool,
}

/// Whether `e` can happen in state `s`: values and the end of the sequence
/// come only while pulling, an acceptance only while a value is in flight,
/// and nothing once the transfer is finished.
pub open spec fn expects<T, E>(s: Transfer, e: Event<T, E>) -> bool {
    match e {
        Event::Produced(_) | Event::Exhausted => s.phase == Phase::Pulling,
        Event::Accepted => s.phase == Phase::Delivering,
        Event::Failed(_) | Event::Elapsed => s.phase != Phase::Finished,
    }
}

/// The next state and action after event `e` in state `s`.
pub open spec fn next<T, E>(s: Transfer, e: Event<T, E>) -> (Transfer, Action<T, E>) {
    match e {
        Event::Produced(v) => (Transfer { phase: Phase::Delivering, more: s.more }, Action::Deliver(v)),
        Event::Exhausted => (Transfer { phase: Phase::Finished, more: s.more }, Action::Finish(Ok(()))),
        Event::Accepted => if s.more {
            (Transfer { phase: Phase::Pulling, more: s.more }, Action::Pull)
        } else {
            (Transfer { phase: Phase::Finished, more: s.more }, Action::Finish(Ok(())))
        },
        Event::Failed(err) => (
            Transfer { phase: Phase::Finished, more: s.more },
            Action::Finish(Err(SendError::Inner(err))),
        ),
        Event::Elapsed => (
            Transfer { phase: Phase::Finished, more: s.more },
            Action::Finish(Err(SendError::TimedOut)),
        ),
    }
}

/// Whether each event of `events` can happen in the state that the ones
/// before it lead to from `s`.
pub open spec fn valid_trace<T, E>(s: Transfer, events: Seq<Event<T, E>>) -> bool
    decreases events.len(),
{
    if events.len() == 0 {
        true
    } else {
        expects(s, events[0]) && valid_trace(next(s, events[0]).0, events.drop_first())
    }
}

/// The actions that `events` lead to from `s`, in order.
pub open spec fn actions<T, E>(s: Transfer, events: Seq<Event<T, E>>) -> Seq<Action<T, E>>
    decreases events.len(),
{
    if events.len() == 0 {
        Seq::empty()
    } else {
        let (s2, a) = next(s, events[0]);
        seq![a] + actions(s2, events.drop_first())
    }
}

/// The values that the sequence produced in `events`, in order.
pub open spec fn produced_values<T, E>(events: Seq<Event<T, E>>) -> Seq<T>
    decreases events.len(),
{
    if events.len() == 0 {
        Seq::empty()
    } else {
        let rest = produced_values(events.drop_first());
        match events[0] {
            Event::Produced(v) => seq![v] + rest,
            _ => rest,
        }
    }
}

/// The values handed to the destination in `acts`, in order.
pub open spec fn delivered_values<T, E>(acts: Seq<Action<T, E>>) -> Seq<T>
    decreases acts.len(),
{
    if acts.len() == 0 {
        Seq::empty()
    } else {
        let rest = delivered_values(acts.drop_first());
        match acts[0] {
            Action::Deliver(v) => seq![v] + rest,
            _ => rest,
        }
    }
}

impl Transfer {
    /// A transfer of the values of a sequence; the driver starts by pulling.
    pub fn for_sequence() -> (r: Transfer)
        ensures
            r == (Transfer { phase: Phase::Pulling, more: true }),
    {
        Transfer { phase: Phase::Pulling, more: true }
    }

    /// A transfer of the one value `v`, and the action that starts it.
    pub fn for_value<T, E>(v: T) -> (r: (Transfer, Action<T, E>))
        ensures
            r.0 == (Transfer { phase: Phase::Delivering, more: false }),
            r.1 == Action::<T, E>::Deliver(v),
    {
        (Transfer { phase: Phase::Delivering, more: false }, Action::Deliver(v))
    }

    /// Whether the transfer is done.
    pub fn is_finished(&self) -> (r: bool)
        ensures
            r == (self.phase == Phase::Finished),
    {
        match self.phase {
            Phase::Finished => true,
            _ => false,
        }
    }

    /// Whether `e` can happen now.
    pub fn accepts<T, E>(&self, e: &Event<T, E>) -> (r: bool)
        ensures
            r == expects(*self, *e),
    {
        match e {
            Event::Produced(_) | Event::Exhausted => match self.phase {
                Phase::Pulling => true,
                _ => false,
            },
            Event::Accepted => match self.phase {
                Phase::Delivering => true,
                _ => false,
            },
            Event::Failed(_) | Event::Elapsed => !self.is_finished(),
        }
    }

    /// Takes in what the driver saw and says what it is to do next.
    pub fn step<T, E>(&mut self, e: Event<T, E>) -> (r: Action<T, E>)
        requires
            expects(*old(self), e),
        ensures
            (*final(self), r) == next(*old(self), e),
    {
        match e {
            Event::Produced(v) => {
                self.phase = Phase::Delivering;
                Action::Deliver(v)
            },
            Event::Exhausted => {
                self.phase = Phase::Finished;
                Action::Finish(Ok(()))
            },
            Event::Accepted => {
                if self.more {
                    self.phase = Phase::Pulling;
                    Action::Pull
                } else {
                    self.phase = Phase::Finished;
                    Action::Finish(Ok(()))
                }
            },
            Event::Failed(err) => {
                self.phase = Phase::Finished;
                Action::Finish(Err(SendError::Inner(err)))
            },
            Event::Elapsed => {
                self.phase = Phase::Finished;
                Action::Finish(Err(SendError::TimedOut))
            },
        }
    }
}

/// Along any trace of events, the destination is handed exactly the values
/// that the sequence produced, in the order in which it produced them.
pub proof fn lemma_delivered_in_order<T, E>(s: Transfer, events: Seq<Event<T, E>>)
    requires
        valid_trace(s, events),
    ensures
        delivered_values(actions(s, events)) == produced_values(events),
    decreases events.len(),
{
    if events.len() > 0 {
        let (s2, a) = next(s, events[0]);
        let rest = events.drop_first();
        lemma_delivered_in_order(s2, rest);
        let acts = actions(s, events);
        assert(acts.drop_first() =~= actions(s2, rest));
        assert(acts[0] == a);
    }
}

/// A value is handed out only after the one before it was accepted, and
/// success is reported only when no value is in flight.
pub proof fn lemma_one_in_flight<T, E>(s: Transfer, e: Event<T, E>)
    requires
        expects(s, e),
    ensures
        next(s, e).1 is Deliver ==> s.phase == Phase::Pulling,
        next(s, e).1 == Action::<T, E>::Finish(Ok(())) ==> (e is Exhausted || (e is Accepted
            && !s.more)),
{
}

/// Whatever the destination does, the deadline ends an unfinished transfer at
/// once with `TimedOut`, and nothing happens after that; `TimedOut` comes from
/// the deadline alone.
pub proof fn lemma_deadline_ends_transfer<T, E>(s: Transfer, e: Event<T, E>)
    ensures
        s.phase != Phase::Finished ==> expects(s, Event::<T, E>::Elapsed) && next(
            s,
            Event::<T, E>::Elapsed,
        ).0.phase == Phase::Finished && next(s, Event::<T, E>::Elapsed).1 == Action::<T, E>::Finish(
            Err(SendError::TimedOut),
        ),
        s.phase == Phase::Finished ==> !expects(s, e),
        expects(s, e) && next(s, e).1 == Action::<T, E>::Finish(Err(SendError::TimedOut))
            ==> e is Elapsed,
{
}

} // verus!
