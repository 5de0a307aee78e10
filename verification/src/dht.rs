//! Drivers for the DHT11 and the DHT22.
//!
//! A [`Session`] says what to do next; a driver does it, on the pin and the
//! timer it owns, until the session is over. Every action is answered by the
//! event that reports it, so a read cannot stall: it is over after a bounded
//! number of actions, however the sensor behaves. A driver keeps a record
//! of the actions it carried out, and what a read did is stated over that
//! record.

use crate::error::DhtError;
use crate::hal::{Delay, IoPin};
use crate::interrupt::InterruptControl;
use crate::level::Level;
use crate::reading::Reading;
use crate::session::{
    Action, Event, Phase, Session, SessionState, START_HIGH_US, START_LOW_MS, WAIT_COUNT,
};
use crate::frame::{frame_bytes, Pulse};
use crate::trace::{
    lemma_run_empty, lemma_run_keeps_variant, lemma_run_preserves_wf, lemma_run_push,
};
use crate::variant::{decoded, interpretation, Variant};
use vstd::prelude::*;

verus! {

/// Whether an event answers an action: `Done` reports every action but a
/// sample, `Sampled` reports a sample, and `Fault` reports any of the three
/// uses of the pin. Nothing answers `Finish`.
pub open spec fn answers<HE>(action: Action, event: Event<HE>) -> bool {
    match action {
        Action::Finish => false,
        Action::Sample(_) => event is Sampled || event is Fault,
        Action::SetLow | Action::SetHigh => event is Done || event is Fault,
        _ => event is Done,
    }
}

/// Whether each of the events answered the action that was pending when it
/// was reported, on a session that began in `state`.
pub open spec fn answered_throughout<HE>(state: SessionState<HE>, events: Seq<Event<HE>>) -> bool
    decreases events.len(),
{
    events.len() > 0 ==> {
        &&& answered_throughout(state, events.drop_last())
        &&& answers(state.run(events.drop_last()).pending(), events.last())
    }
}

/// Actions in the longest wait that is answered: 255 samples that find the
/// line unchanged, each with its tick, and the sample that finds it changed.
pub const LONGEST_ANSWERED_WAIT: u32 = 511;

/// Actions in a wait that is not answered: 256 samples, each with its tick.
pub const UNANSWERED_WAIT: u32 = 512;

/// The number of actions no read exceeds: the five of the start signal, 511
/// for each of 81 waits that are answered at the last sample, 512 for a last
/// wait that is not answered, and the one that lets interrupts through
/// again.
pub const MAX_ACTIONS: u32 = 41909;

/// The largest number of actions that can still be carried out from the
/// first sample of wait number `wait` on. A wait is longest when the line
/// changes at the last sample, and the last wait when it does not change at
/// all.
pub open spec fn remaining_from_wait(wait: nat) -> nat {
    ((WAIT_COUNT - 1 - wait) * LONGEST_ANSWERED_WAIT + UNANSWERED_WAIT + 1) as nat
}

/// The largest number of actions that can still be carried out on a session
/// in this state.
pub open spec fn remaining<HE>(state: SessionState<HE>) -> nat {
    match state.phase {
        Phase::Masking => 5 + remaining_from_wait(0),
        Phase::PullingLow => 4 + remaining_from_wait(0),
        Phase::HoldingLow => 3 + remaining_from_wait(0),
        Phase::Releasing => 2 + remaining_from_wait(0),
        Phase::HandingOver => 1 + remaining_from_wait(0),
        Phase::Sampling => (remaining_from_wait(state.waits) - 2 * state.elapsed) as nat,
        Phase::Ticking => (remaining_from_wait(state.waits) - 2 * state.elapsed - 1) as nat,
        Phase::Unmasking => 1,
        Phase::Finished => 0,
    }
}

/// Every action that is answered brings the read closer to its end.
pub proof fn lemma_answer_makes_progress<HE>(state: SessionState<HE>, event: Event<HE>)
    requires
        state.wf(),
        answers(state.pending(), event),
    ensures
        remaining(state.next(event)) < remaining(state),
{
    if state.phase == Phase::Sampling || state.phase == Phase::Ticking {
        let later = WAIT_COUNT - 1 - state.waits;
        assert((later - 1) * LONGEST_ANSWERED_WAIT == later * LONGEST_ANSWERED_WAIT
            - LONGEST_ANSWERED_WAIT) by (nonlinear_arith);
        assert(0 <= later * LONGEST_ANSWERED_WAIT) by (nonlinear_arith)
            requires
                0 <= later,
        ;
    }
}

/// A read is over after at most 41 909 actions: as long as every action is
/// answered, the actions carried out and those that can still follow never
/// add up to more.
pub proof fn lemma_read_is_bounded<HE>(variant: Variant, events: Seq<Event<HE>>)
    requires
        answered_throughout(SessionState::<HE>::initial(variant), events),
    ensures
        events.len() + remaining(SessionState::<HE>::initial(variant).run(events)) <= MAX_ACTIONS,
    decreases events.len(),
{
    let start = SessionState::<HE>::initial(variant);
    if events.len() == 0 {
        lemma_run_empty(start);
        assert(events =~= Seq::empty());
    } else {
        let earlier = events.drop_last();
        assert(earlier.push(events.last()) =~= events);
        lemma_read_is_bounded(variant, earlier);
        lemma_run_preserves_wf(start, earlier);
        lemma_answer_makes_progress(start.run(earlier), events.last());
        lemma_run_push(start, earlier, events.last());

    }
}

/// What can be said of the outcome of a read of a sensor of the given
/// family, whatever the wire does: it is the result of a session that was
/// begun for this read and taken through some sequence of events, each in
/// answer to the action that was pending. So it is a reading only if a
/// complete transmission says so, and an error of the kind and at the stage
/// the session defines.
pub open spec fn is_outcome_of_read<HE>(
    variant: Variant,
    outcome: Result<Reading, DhtError<HE>>,
) -> bool {
    exists|events: Seq<Event<HE>>|
        {
            &&& #[trigger] answered_throughout(SessionState::<HE>::initial(variant), events)
            &&& SessionState::<HE>::initial(variant).run(events).result() == Some(outcome)
        }
}

/// Whatever a read returns is backed by what was received: a reading, a
/// checksum mismatch and invalid data are what forty measured pulse pairs
/// say, and every other outcome is one of the three errors of a read that
/// did not get that far.
pub proof fn lemma_outcome_of_read_is_backed<HE>(
    variant: Variant,
    outcome: Result<Reading, DhtError<HE>>,
)
    requires
        is_outcome_of_read(variant, outcome),
    ensures
        match outcome {
            Err(DhtError::NotPresent) | Err(DhtError::Timeout) | Err(DhtError::PinError(_)) => true,
            _ => exists|pulses: Seq<Pulse>|
                pulses.len() == 40 && outcome == #[trigger] interpretation::<HE>(
                    variant,
                    frame_bytes(pulses),
                ),
        },
{
    let start = SessionState::<HE>::initial(variant);
    let events = choose|events: Seq<Event<HE>>|
        {
            &&& #[trigger] answered_throughout(start, events)
            &&& start.run(events).result() == Some(outcome)
        };
    let end = start.run(events);
    lemma_run_preserves_wf(start, events);
    lemma_run_keeps_variant(start, events);
    reveal(decoded);
    if end.waits == WAIT_COUNT {
        assert(outcome == interpretation::<HE>(variant, frame_bytes(end.pulses)));
    }
}

/// The actions that were pending, one after the other, while a session that
/// began in `state` was taken through `events`: the action before the first
/// event, the action before the second, and so on.
pub open spec fn pending_along<HE>(state: SessionState<HE>, events: Seq<Event<HE>>) -> Seq<
    Action,
> {
    Seq::new(events.len(), |index: int| state.run(events.take(index)).pending())
}

/// Whether a read of a sensor of the given family can have carried out
/// `actions` and come to `outcome`: there is a course of events, each in
/// answer to the action that was pending, along which exactly these actions
/// were pending in this order and at the end of which the session is over
/// with this outcome.
pub open spec fn is_read<HE>(
    variant: Variant,
    actions: Seq<Action>,
    outcome: Result<Reading, DhtError<HE>>,
) -> bool {
    exists|events: Seq<Event<HE>>|
        {
            &&& #[trigger] answered_throughout(SessionState::<HE>::initial(variant), events)
            &&& SessionState::<HE>::initial(variant).run(events).result() == Some(outcome)
            &&& actions == pending_along(SessionState::<HE>::initial(variant), events)
        }
}

/// One more event adds the action it answered.
pub proof fn lemma_pending_along_push<HE>(
    state: SessionState<HE>,
    events: Seq<Event<HE>>,
    event: Event<HE>,
)
    ensures
        pending_along(state, events.push(event)) == pending_along(state, events).push(
            state.run(events).pending(),
        ),
{
    let longer = events.push(event);
    assert forall|index: int| 0 <= index < longer.len() implies #[trigger] pending_along(
        state,
        longer,
    )[index] == pending_along(state, events).push(state.run(events).pending())[index] by {
        if index < events.len() {
            assert(longer.take(index) =~= events.take(index));
        } else {
            assert(longer.take(index) =~= events);
        }
    }
    assert(pending_along(state, longer) =~= pending_along(state, events).push(
        state.run(events).pending(),
    ));
}

/// Whether an action is one of the two that are carried out on the guard.
pub open spec fn is_guard_action(action: Action) -> bool {
    action == Action::DisableInterrupts || action == Action::EnableInterrupts
}

/// How far the guard's bracket has got in the actions of a read that is in
/// the given phase: nothing yet while interrupts are still to be suspended;
/// then `DisableInterrupts` first and no guard action after it; and, once
/// the read is over, `EnableInterrupts` last and no guard action in between.
pub open spec fn bracket_so_far(phase: Phase, actions: Seq<Action>) -> bool {
    match phase {
        Phase::Masking => actions.len() == 0,
        Phase::Finished => {
            &&& actions.len() >= 2
            &&& actions.first() == Action::DisableInterrupts
            &&& actions.last() == Action::EnableInterrupts
            &&& forall|index: int|
                0 < index < actions.len() - 1 ==> !is_guard_action(#[trigger] actions[index])
        },
        _ => {
            &&& actions.len() >= 1
            &&& actions.first() == Action::DisableInterrupts
            &&& forall|index: int|
                0 < index < actions.len() ==> !is_guard_action(#[trigger] actions[index])
        },
    }
}

/// The guard's bracket holds at every point of a read.
pub proof fn lemma_bracket_so_far<HE>(variant: Variant, events: Seq<Event<HE>>)
    requires
        answered_throughout(SessionState::<HE>::initial(variant), events),
    ensures
        bracket_so_far(
            SessionState::<HE>::initial(variant).run(events).phase,
            pending_along(SessionState::<HE>::initial(variant), events),
        ),
    decreases events.len(),
{
    let start = SessionState::<HE>::initial(variant);
    if events.len() == 0 {
        lemma_run_empty(start);
        assert(events =~= Seq::empty());
    } else {
        let earlier = events.drop_last();
        let event = events.last();
        assert(earlier.push(event) =~= events);
        lemma_bracket_so_far(variant, earlier);
        lemma_run_preserves_wf(start, earlier);
        lemma_run_push(start, earlier, event);
        lemma_pending_along_push(start, earlier, event);
        let before = pending_along(start, earlier);
        let after = pending_along(start, events);
        let state = start.run(earlier);
        assert(after == before.push(state.pending()));
        assert forall|index: int| 0 <= index < before.len() implies after[index]
            == before[index] by {}
        assert(after.last() == state.pending());
    }
}

/// Every read is bracketed by the guard, however it ends: the first thing
/// it does is to suspend interrupts, the last thing it does is to let them
/// through again, and it does neither at any other time.
pub proof fn lemma_read_is_guarded<HE>(
    variant: Variant,
    actions: Seq<Action>,
    outcome: Result<Reading, DhtError<HE>>,
)
    requires
        is_read(variant, actions, outcome),
    ensures
        bracket_so_far(Phase::Finished, actions),
        is_outcome_of_read(variant, outcome),
{
    let start = SessionState::<HE>::initial(variant);
    let events = choose|events: Seq<Event<HE>>|
        {
            &&& #[trigger] answered_throughout(start, events)
            &&& start.run(events).result() == Some(outcome)
            &&& actions == pending_along(start, events)
        };
    lemma_bracket_so_far(variant, events);
}

/// Each event of a course of answered events answers the action that was
/// pending when it came, and moves the session one step on.
pub proof fn lemma_step_of_run<HE>(state: SessionState<HE>, events: Seq<Event<HE>>, index: int)
    requires
        answered_throughout(state, events),
        0 <= index < events.len(),
    ensures
        answers(state.run(events.take(index)).pending(), events[index]),
        state.run(events.take(index + 1)) == state.run(events.take(index)).next(events[index]),
    decreases events.len(),
{
    if index == events.len() - 1 {
        assert(events.take(index) =~= events.drop_last());
        assert(events.take(index + 1) =~= events);
        lemma_run_push(state, events.drop_last(), events.last());
        assert(events.drop_last().push(events.last()) =~= events);
    } else {
        let earlier = events.drop_last();
        lemma_step_of_run(state, earlier, index);
        assert(earlier.take(index) =~= events.take(index));
        assert(earlier.take(index + 1) =~= events.take(index + 1));
    }
}

/// Every read begins with the start signal: it suspends interrupts, drives
/// the line low, holds it for 18 ms, releases it, leaves it to the sensor
/// for 40 us and then samples it for the high level. Only a pin that
/// refuses to be driven cuts this short, and then the one thing that
/// follows is to let interrupts through again.
pub proof fn lemma_read_begins_with_the_start_signal<HE>(
    variant: Variant,
    actions: Seq<Action>,
    outcome: Result<Reading, DhtError<HE>>,
)
    requires
        is_read(variant, actions, outcome),
    ensures
        actions.len() >= 3,
        actions[0] == Action::DisableInterrupts,
        actions[1] == Action::SetLow,
        actions[2] == Action::DelayMs(START_LOW_MS) || (actions.len() == 3 && actions[2]
            == Action::EnableInterrupts),
        actions[2] == Action::DelayMs(START_LOW_MS) ==> {
            &&& actions.len() >= 5
            &&& actions[3] == Action::SetHigh
            &&& actions[4] == Action::DelayUs(START_HIGH_US) || (actions.len() == 5 && actions[4]
                == Action::EnableInterrupts)
        },
        actions.len() >= 5 && actions[4] == Action::DelayUs(START_HIGH_US) ==> {
            &&& actions.len() >= 7
            &&& actions[5] == Action::Sample(Level::High)
        },
{
    let start = SessionState::<HE>::initial(variant);
    let events = choose|events: Seq<Event<HE>>|
        {
            &&& #[trigger] answered_throughout(start, events)
            &&& start.run(events).result() == Some(outcome)
            &&& actions == pending_along(start, events)
        };
    lemma_run_empty(start);
    assert(events.take(0) =~= Seq::empty());
    assert(events.take(events.len() as int) =~= events);
    // the read is over, so it has been through every step below
    lemma_step_of_run(start, events, 0);
    lemma_step_of_run(start, events, 1);
    lemma_step_of_run(start, events, 2);
    let third = start.run(events.take(3));
    if third.phase == Phase::Finished {
        if events.len() > 3 {
            lemma_step_of_run(start, events, 3);
        }
    } else {
        lemma_step_of_run(start, events, 3);
        lemma_step_of_run(start, events, 4);
        let fifth = start.run(events.take(5));
        if fifth.phase == Phase::Finished {
            if events.len() > 5 {
                lemma_step_of_run(start, events, 5);
            }
        } else {
            lemma_step_of_run(start, events, 5);
            lemma_step_of_run(start, events, 6);
        }
    }
}

/// A trait for reading data from the sensor.
///
/// This level of indirection is useful so you can write generic code that
/// does not assume whether a DHT11 or DHT22 sensor is being used.
pub trait DhtSensor<HE> {
    /// Reads data from the sensor and returns a `Reading`. Whatever comes
    /// back is the outcome of a read of a sensor of one of the families.
    fn read(&mut self) -> (outcome: Result<Reading, DhtError<HE>>)
        ensures
            exists|variant: Variant| #[trigger] is_outcome_of_read(variant, outcome),
    ;
}

/// A sensor of either family: the pin it is wired to, the timer that paces
/// the reading of it, and the guard that keeps interrupts away meanwhile.
///
/// What the three do when they are used is not known here. What is known,
/// and stated, is what they were used for and in which order: the sensor
/// keeps a record of the actions it carried out, for the proofs only.
#[verifier::reject_recursive_types(HE)]
pub struct Dht<HE, ID: InterruptControl, D: Delay, P: IoPin<Error = HE>> {
    interrupt_disabler: ID,
    delay: D,
    pin: P,
    carried_out: Ghost<Seq<Action>>,
}

impl<HE, ID: InterruptControl, D: Delay, P: IoPin<Error = HE>> Dht<HE, ID, D, P> {
    /// The guard, the timer and the pin the sensor is read with.
    pub closed spec fn parts(&self) -> (ID, D, P) {
        (self.interrupt_disabler, self.delay, self.pin)
    }

    /// The actions carried out on the guard, the timer and the pin so far,
    /// the first one first.
    pub closed spec fn carried_out(&self) -> Seq<Action> {
        self.carried_out@
    }

    /// A sensor on the given pin, read with the given timer and guard.
    /// Nothing is done to any of them until the sensor is read.
    pub fn new(interrupt_disabler: ID, delay: D, pin: P) -> (dht: Self)
        ensures
            dht.parts() == (interrupt_disabler, delay, pin),
            dht.carried_out() == Seq::<Action>::empty(),
    {
        Dht { interrupt_disabler, delay, pin, carried_out: Ghost(Seq::empty()) }
    }

    /// Suspends interrupts.
    fn disable_interrupts(&mut self)
        ensures
            final(self).carried_out() == old(self).carried_out().push(Action::DisableInterrupts),
    {
        self.interrupt_disabler.disable_interrupts();
        self.carried_out = Ghost(self.carried_out@.push(Action::DisableInterrupts));
    }

    /// Lets interrupts through again.
    fn enable_interrupts(&mut self)
        ensures
            final(self).carried_out() == old(self).carried_out().push(Action::EnableInterrupts),
    {
        self.interrupt_disabler.enable_interrupts();
        self.carried_out = Ghost(self.carried_out@.push(Action::EnableInterrupts));
    }

    /// Drives the line low.
    fn set_low(&mut self) -> (done: Result<(), HE>)
        ensures
            final(self).carried_out() == old(self).carried_out().push(Action::SetLow),
    {
        let done = self.pin.set_low();
        self.carried_out = Ghost(self.carried_out@.push(Action::SetLow));
        done
    }

    /// Releases the line high.
    fn set_high(&mut self) -> (done: Result<(), HE>)
        ensures
            final(self).carried_out() == old(self).carried_out().push(Action::SetHigh),
    {
        let done = self.pin.set_high();
        self.carried_out = Ghost(self.carried_out@.push(Action::SetHigh));
        done
    }

    /// Samples the line for the high level.
    fn is_high(&mut self) -> (sampled: Result<bool, HE>)
        ensures
            final(self).carried_out() == old(self).carried_out().push(
                Action::Sample(Level::High),
            ),
    {
        let sampled = self.pin.is_high();
        self.carried_out = Ghost(self.carried_out@.push(Action::Sample(Level::High)));
        sampled
    }

    /// Samples the line for the low level.
    fn is_low(&mut self) -> (sampled: Result<bool, HE>)
        ensures
            final(self).carried_out() == old(self).carried_out().push(Action::Sample(Level::Low)),
    {
        let sampled = self.pin.is_low();
        self.carried_out = Ghost(self.carried_out@.push(Action::Sample(Level::Low)));
        sampled
    }

    /// Blocks for so many milliseconds.
    fn delay_ms(&mut self, ms: u32)
        ensures
            final(self).carried_out() == old(self).carried_out().push(Action::DelayMs(ms)),
    {
        self.delay.delay_ms(ms);
        self.carried_out = Ghost(self.carried_out@.push(Action::DelayMs(ms)));
    }

    /// Blocks for so many microseconds.
    fn delay_us(&mut self, us: u32)
        ensures
            final(self).carried_out() == old(self).carried_out().push(Action::DelayUs(us)),
    {
        self.delay.delay_us(us);
        self.carried_out = Ghost(self.carried_out@.push(Action::DelayUs(us)));
    }

    /// Carries one action out and reports what came of it: the action, and
    /// no other, is carried out once, and the event answers it. `Finish`
    /// asks for nothing: nothing is carried out and it is reported as done.
    pub fn perform(&mut self, action: Action) -> (event: Event<HE>)
        ensures
            action != Action::Finish ==> answers(action, event),
            action != Action::Finish ==> final(self).carried_out() == old(self).carried_out().push(
                action,
            ),
            action == Action::Finish ==> final(self).carried_out() == old(self).carried_out()
                && event is Done,
    {
        match action {
            Action::DisableInterrupts => {
                self.disable_interrupts();
                Event::Done
            },
            Action::EnableInterrupts => {
                self.enable_interrupts();
                Event::Done
            },
            Action::SetLow => match self.set_low() {
                Ok(()) => Event::Done,
                Err(error) => Event::Fault(error),
            },
            Action::SetHigh => match self.set_high() {
                Ok(()) => Event::Done,
                Err(error) => Event::Fault(error),
            },
            Action::DelayMs(ms) => {
                self.delay_ms(ms);
                Event::Done
            },
            Action::DelayUs(us) => {
                self.delay_us(us);
                Event::Done
            },
            Action::Sample(level) => {
                let sampled = match level {
                    Level::High => self.is_high(),
                    Level::Low => self.is_low(),
                };
                match sampled {
                    Ok(at_level) => Event::Sampled(at_level),
                    Err(error) => Event::Fault(error),
                }
            },
            Action::Finish => Event::Done,
        }
    }

    /// Reads the sensor once, as a sensor of the given family.
    ///
    /// What comes back depends on what the pin does, which nothing here can
    /// know. What is certain is what the read did and how its outcome came
    /// about: it carried out, in this order, exactly the actions that were
    /// pending along a session begun for this read, each answered by the
    /// event the hardware gave, and the outcome is the one that session
    /// ended with. In particular the read suspended interrupts first, let
    /// them through again last, and did neither in between.
    pub fn read(&mut self, variant: Variant) -> (outcome: Result<Reading, DhtError<HE>>)
        ensures
            old(self).carried_out().is_prefix_of(final(self).carried_out()),
            is_read(
                variant,
                final(self).carried_out().skip(old(self).carried_out().len() as int),
                outcome,
            ),
            bracket_so_far(
                Phase::Finished,
                final(self).carried_out().skip(old(self).carried_out().len() as int),
            ),
            is_outcome_of_read(variant, outcome),
    {
        let mut session: Session<HE> = Session::new(variant);
        let ghost start = SessionState::<HE>::initial(variant);
        let ghost mut events: Seq<Event<HE>> = Seq::empty();
        let ghost before = self.carried_out();
        proof {
            lemma_run_empty(start);
            assert(pending_along(start, events) =~= Seq::empty());
            assert(before + pending_along(start, events) =~= before);
        }
        while !session.is_finished()
            invariant
                start == SessionState::<HE>::initial(variant),
                session@ == start.run(events),
                session@.wf(),
                answered_throughout(start, events),
                self.carried_out() == before + pending_along(start, events),
            decreases remaining(session@),
        {
            let action = session.action();
            let event = self.perform(action);
            proof {
                lemma_answer_makes_progress(session@, event);
                lemma_run_push(start, events, event);
                lemma_pending_along_push(start, events, event);
                assert(events.push(event).drop_last() =~= events);
                assert((before + pending_along(start, events)).push(action) =~= before
                    + pending_along(start, events).push(action));
                events = events.push(event);
            }
            session = session.step(event);
        }
        let outcome = session.into_outcome();
        proof {
            let actions = pending_along(start, events);
            assert(self.carried_out().skip(before.len() as int) =~= actions);
            assert(before.is_prefix_of(self.carried_out()));
            lemma_bracket_so_far(variant, events);
        }
        outcome.unwrap()
    }
}

/// A DHT11 sensor.
#[verifier::reject_recursive_types(HE)]
pub struct Dht11<HE, ID: InterruptControl, D: Delay, P: IoPin<Error = HE>> {
    dht: Dht<HE, ID, D, P>,
}

impl<HE, ID: InterruptControl, D: Delay, P: IoPin<Error = HE>> Dht11<HE, ID, D, P> {
    /// The guard, the timer and the pin the sensor is read with.
    pub closed spec fn parts(&self) -> (ID, D, P) {
        self.dht.parts()
    }

    /// The actions carried out on the guard, the timer and the pin so far,
    /// the first one first.
    pub closed spec fn carried_out(&self) -> Seq<Action> {
        self.dht.carried_out()
    }

    /// A DHT11 on the given pin, read with the given timer and guard. Nothing
    /// is done to any of them until the sensor is read.
    pub fn new(interrupt_disabler: ID, delay: D, pin: P) -> (sensor: Self)
        ensures
            sensor.parts() == (interrupt_disabler, delay, pin),
            sensor.carried_out() == Seq::<Action>::empty(),
    {
        Dht11 { dht: Dht::new(interrupt_disabler, delay, pin) }
    }
}

impl<HE, ID: InterruptControl, D: Delay, P: IoPin<Error = HE>> DhtSensor<HE> for Dht11<
    HE,
    ID,
    D,
    P,
> {
    /// Reads the sensor once: carries out the actions of one read, in their
    /// order, and returns what that read came to.
    fn read(&mut self) -> (outcome: Result<Reading, DhtError<HE>>)
        ensures
            old(self).carried_out().is_prefix_of(final(self).carried_out()),
            is_read(
                Variant::Dht11,
                final(self).carried_out().skip(old(self).carried_out().len() as int),
                outcome,
            ),
            bracket_so_far(
                Phase::Finished,
                final(self).carried_out().skip(old(self).carried_out().len() as int),
            ),
            is_outcome_of_read(Variant::Dht11, outcome),
    {
        self.dht.read(Variant::Dht11)
    }
}

/// A DHT22 sensor.
#[verifier::reject_recursive_types(HE)]
pub struct Dht22<HE, ID: InterruptControl, D: Delay, P: IoPin<Error = HE>> {
    dht: Dht<HE, ID, D, P>,
}

impl<HE, ID: InterruptControl, D: Delay, P: IoPin<Error = HE>> Dht22<HE, ID, D, P> {
    /// The guard, the timer and the pin the sensor is read with.
    pub closed spec fn parts(&self) -> (ID, D, P) {
        self.dht.parts()
    }

    /// The actions carried out on the guard, the timer and the pin so far,
    /// the first one first.
    pub closed spec fn carried_out(&self) -> Seq<Action> {
        self.dht.carried_out()
    }

    /// A DHT22 on the given pin, read with the given timer and guard. Nothing
    /// is done to any of them until the sensor is read.
    pub fn new(interrupt_disabler: ID, delay: D, pin: P) -> (sensor: Self)
        ensures
            sensor.parts() == (interrupt_disabler, delay, pin),
            sensor.carried_out() == Seq::<Action>::empty(),
    {
        Dht22 { dht: Dht::new(interrupt_disabler, delay, pin) }
    }
}

impl<HE, ID: InterruptControl, D: Delay, P: IoPin<Error = HE>> DhtSensor<HE> for Dht22<
    HE,
    ID,
    D,
    P,
> {
    /// Reads the sensor once: carries out the actions of one read, in their
    /// order, and returns what that read came to.
    fn read(&mut self) -> (outcome: Result<Reading, DhtError<HE>>)
        ensures
            old(self).carried_out().is_prefix_of(final(self).carried_out()),
            is_read(
                Variant::Dht22,
                final(self).carried_out().skip(old(self).carried_out().len() as int),
                outcome,
            ),
            bracket_so_far(
                Phase::Finished,
                final(self).carried_out().skip(old(self).carried_out().len() as int),
            ),
            is_outcome_of_read(Variant::Dht22, outcome),
    {
        self.dht.read(Variant::Dht22)
    }
}

} // verus!
