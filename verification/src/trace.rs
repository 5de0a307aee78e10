//! Whole reads, as the sequences of events a driver reports.
//!
//! The session moves one event at a time. What a read as a whole comes to is
//! stated here, over the events of a wait that is never answered and of a
//! transmission that arrives complete.

use crate::error::DhtError;
use crate::frame::{frame_bytes, Pulse};
use crate::reading::Reading;
use crate::session::{
    record, timeout_error, Action, Event, Phase, Session, SessionState, HANDSHAKE_WAITS,
    MAX_TICKS, WAIT_COUNT,
};
use crate::variant::{decoded, interpretation, Variant};
use vstd::prelude::*;

verus! {

/// The events of the start signal: interrupts suspended, line driven low,
/// held, released, and left to the sensor.
pub open spec fn start_signal<HE>() -> Seq<Event<HE>> {
    seq![Event::Done, Event::Done, Event::Done, Event::Done, Event::Done]
}

/// The events of `samples` samples in a row that found the line unchanged,
/// each followed by the tick that was let pass.
pub open spec fn silence<HE>(samples: nat) -> Seq<Event<HE>>
    decreases samples,
{
    if samples == 0 {
        Seq::empty()
    } else {
        silence::<HE>((samples - 1) as nat).push(Event::Sampled(false)).push(Event::Done)
    }
}

/// The events of a wait that was answered after `ticks` ticks.
pub open spec fn answered_wait<HE>(ticks: u8) -> Seq<Event<HE>> {
    silence::<HE>(ticks as nat).push(Event::Sampled(true))
}

/// The events of consecutive waits that were answered after the given
/// numbers of ticks.
pub open spec fn answered_waits<HE>(ticks: Seq<u8>) -> Seq<Event<HE>>
    decreases ticks.len(),
{
    if ticks.len() == 0 {
        Seq::empty()
    } else {
        answered_waits::<HE>(ticks.drop_last()) + answered_wait::<HE>(ticks.last())
    }
}

/// The pulse buffer once the first `waits` waits of a read were answered
/// after the given numbers of ticks: pair `index` has its low period from
/// wait `2 + 2 * index` and its high period from the wait after that, and is
/// zero where the wait has not happened yet.
pub open spec fn measured_pulses(ticks: Seq<u8>, waits: nat) -> Seq<Pulse> {
    Seq::new(
        40,
        |index: int|
            Pulse {
                lo: if 2 + 2 * index < waits {
                    ticks[2 + 2 * index]
                } else {
                    0
                },
                hi: if 3 + 2 * index < waits {
                    ticks[3 + 2 * index]
                } else {
                    0
                },
            },
    )
}

/// Every step keeps a session well formed.
pub proof fn lemma_next_preserves_wf<HE>(state: SessionState<HE>, event: Event<HE>)
    requires
        state.wf(),
    ensures
        state.next(event).wf(),
{
}

/// Every run keeps a session well formed.
pub proof fn lemma_run_preserves_wf<HE>(state: SessionState<HE>, events: Seq<Event<HE>>)
    requires
        state.wf(),
    ensures
        state.run(events).wf(),
    decreases events.len(),
{
    reveal(SessionState::run);
    if events.len() > 0 {
        lemma_run_preserves_wf(state, events.drop_last());
        lemma_next_preserves_wf(state.run(events.drop_last()), events.last());
    }
}

/// Running one sequence of events and then another is running the two
/// joined.
pub proof fn lemma_run_concat<HE>(
    state: SessionState<HE>,
    first: Seq<Event<HE>>,
    second: Seq<Event<HE>>,
)
    ensures
        state.run(first + second) == state.run(first).run(second),
    decreases second.len(),
{
    reveal(SessionState::run);
    if second.len() == 0 {
        assert(first + second =~= first);
    } else {
        lemma_run_concat(state, first, second.drop_last());
        assert((first + second).drop_last() =~= first + second.drop_last());
    }
}

/// Running one more event is one more step.
pub proof fn lemma_run_push<HE>(state: SessionState<HE>, events: Seq<Event<HE>>, event: Event<HE>)
    ensures
        state.run(events.push(event)) == state.run(events).next(event),
{
    reveal(SessionState::run);
    assert(events.push(event).drop_last() =~= events);
}

/// Running no event changes nothing.
pub proof fn lemma_run_empty<HE>(state: SessionState<HE>)
    ensures
        state.run(Seq::empty()) == state,
{
    reveal(SessionState::run);
}

/// Whatever the driver reports, a read that holds a reading is over, has
/// been through all its waits, and the reading is what the complete pulse
/// buffer says. No earlier state of a read holds a reading. Likewise the
/// sensor is reported absent only from within the handshake and a timeout
/// only from within the forty bits.
pub proof fn lemma_outcome_is_justified<HE>(variant: Variant, events: Seq<Event<HE>>)
    ensures
        ({
            let state = SessionState::<HE>::initial(variant).run(events);
            &&& state.wf()
            &&& state.outcome is Some ==> state.justified()
            &&& state.outcome matches Some(Ok(reading)) ==> {
                &&& state.phase == Phase::Finished
                &&& state.waits == WAIT_COUNT
                &&& Ok::<Reading, DhtError<HE>>(reading) == interpretation::<HE>(
                    variant,
                    frame_bytes(state.pulses),
                )
            }
            &&& state.outcome == Some(Err::<Reading, DhtError<HE>>(DhtError::NotPresent))
                ==> state.waits < HANDSHAKE_WAITS
            &&& state.outcome == Some(Err::<Reading, DhtError<HE>>(DhtError::Timeout))
                ==> HANDSHAKE_WAITS <= state.waits < WAIT_COUNT
        }),
{
    reveal(decoded);
    let start = SessionState::<HE>::initial(variant);
    lemma_run_preserves_wf(start, events);
    lemma_run_keeps_variant(start, events);
}

/// A step never changes the sensor family.
pub proof fn lemma_run_keeps_variant<HE>(state: SessionState<HE>, events: Seq<Event<HE>>)
    ensures
        state.run(events).variant == state.variant,
    decreases events.len(),
{
    reveal(SessionState::run);
    if events.len() > 0 {
        lemma_run_keeps_variant(state, events.drop_last());
    }
}

/// Samples that find the line unchanged only count up the ticks, as long as
/// the wait has ticks left.
pub proof fn lemma_silence_counts<HE>(state: SessionState<HE>, samples: nat)
    requires
        state.phase == Phase::Sampling,
        state.elapsed + samples <= MAX_TICKS,
    ensures
        state.run(silence::<HE>(samples)) == (SessionState {
            elapsed: state.elapsed + samples,
            ..state
        }),
    decreases samples,
{
    if samples == 0 {
        lemma_run_empty(state);
    } else {
        let before = silence::<HE>((samples - 1) as nat);
        lemma_silence_counts(state, (samples - 1) as nat);
        lemma_run_push(state, before, Event::Sampled(false));
        lemma_run_push(state, before.push(Event::Sampled(false)), Event::Done);
    }
}

/// A wait that is not answered within its 256 samples ends the read: what is
/// left is to let interrupts through again, and the outcome is the error of
/// the stage the wait belongs to.
pub proof fn lemma_unanswered_wait_fails<HE>(state: SessionState<HE>)
    requires
        state.phase == Phase::Sampling,
        state.elapsed <= MAX_TICKS,
    ensures
        state.run(silence::<HE>((MAX_TICKS + 1 - state.elapsed) as nat)) == (SessionState {
            phase: Phase::Unmasking,
            elapsed: MAX_TICKS as nat,
            outcome: Some(Err::<Reading, DhtError<HE>>(timeout_error::<HE>(state.waits))),
            ..state
        }),
{
    let left = (MAX_TICKS - state.elapsed) as nat;
    let before = silence::<HE>(left);
    lemma_silence_counts(state, left);
    lemma_run_push(state, before, Event::Sampled(false));
    lemma_run_push(state, before.push(Event::Sampled(false)), Event::Done);
}

/// If the sensor does not acknowledge the start signal, the read fails with
/// `NotPresent`: from any point in either of the two handshake waits, samples
/// that never find the awaited level end the read with that error.
pub proof fn lemma_silent_handshake_is_not_present<HE>(state: SessionState<HE>)
    requires
        state.wf(),
        state.phase == Phase::Sampling,
        state.waits < HANDSHAKE_WAITS,
    ensures
        ({
            let end = state.run(silence::<HE>((MAX_TICKS + 1 - state.elapsed) as nat));
            &&& end.pending() == Action::EnableInterrupts
            &&& end.outcome == Some(Err::<Reading, DhtError<HE>>(DhtError::NotPresent))
            &&& end.next(Event::Done).result() == Some(
                Err::<Reading, DhtError<HE>>(DhtError::NotPresent),
            )
        }),
{
    lemma_unanswered_wait_fails(state);
}

/// If the sensor stops sending before the last of the forty bits, the read
/// fails with `Timeout` and holds no reading: from any point in any wait
/// after the handshake, samples that never find the awaited level end the
/// read with that error.
pub proof fn lemma_stalled_capture_is_timeout<HE>(state: SessionState<HE>)
    requires
        state.wf(),
        state.phase == Phase::Sampling,
        state.waits >= HANDSHAKE_WAITS,
    ensures
        ({
            let end = state.run(silence::<HE>((MAX_TICKS + 1 - state.elapsed) as nat));
            &&& end.pending() == Action::EnableInterrupts
            &&& end.outcome == Some(Err::<Reading, DhtError<HE>>(DhtError::Timeout))
            &&& end.next(Event::Done).result() == Some(
                Err::<Reading, DhtError<HE>>(DhtError::Timeout),
            )
        }),
{
    lemma_unanswered_wait_fails(state);
}

/// Interrupts are suspended by carrying out `DisableInterrupts` and by
/// nothing else, and let through again by carrying out `EnableInterrupts`
/// and by nothing else.
pub proof fn lemma_masking_follows_the_guard<HE>(state: SessionState<HE>, event: Event<HE>)
    ensures
        state.next(event).masked() == (if state.pending() == Action::DisableInterrupts {
            event is Done
        } else if state.pending() == Action::EnableInterrupts {
            !(event is Done)
        } else {
            state.masked()
        }),
{
}

/// However a read ends, it ends by letting interrupts through again: the
/// only step into the finished state is the one that reports
/// `EnableInterrupts` as carried out. A failure that ended the read is its
/// outcome; a complete transmission is interpreted in this step and not
/// before.
pub proof fn lemma_finish_follows_unmasking<HE>(state: SessionState<HE>, event: Event<HE>)
    requires
        state.phase != Phase::Finished,
        state.next(event).phase == Phase::Finished,
    ensures
        state.pending() == Action::EnableInterrupts,
        event is Done,
        state.outcome is Some ==> state.next(event).outcome == state.outcome,
        state.outcome is None ==> state.next(event).outcome == Some(
            decoded::<HE>(state.variant, state.pulses),
        ),
{
}

/// Interpretation and validation run outside the guard: as long as
/// interrupts are suspended, a read holds no reading and no judgement of the
/// bytes, neither a checksum mismatch nor invalid data. All it can hold is
/// the failure that ended the timing-sensitive part early.
pub proof fn lemma_nothing_is_interpreted_under_the_guard<HE>(
    variant: Variant,
    events: Seq<Event<HE>>,
)
    ensures
        ({
            let state = SessionState::<HE>::initial(variant).run(events);
            state.masked() ==> match state.outcome {
                None => true,
                Some(Err(DhtError::NotPresent)) => state.waits < HANDSHAKE_WAITS,
                Some(Err(DhtError::Timeout)) => HANDSHAKE_WAITS <= state.waits < WAIT_COUNT,
                Some(Err(DhtError::PinError(_))) => state.waits < WAIT_COUNT,
                Some(_) => false,
            }
        }),
{
    lemma_run_preserves_wf(SessionState::<HE>::initial(variant), events);
}

/// Once the outcome is settled nothing changes it.
pub proof fn lemma_outcome_is_final<HE>(state: SessionState<HE>, events: Seq<Event<HE>>)
    requires
        state.wf(),
        state.outcome is Some,
    ensures
        state.run(events).outcome == state.outcome,
        state.run(events).pulses == state.pulses,
        state.run(events).waits == state.waits,
    decreases events.len(),
{
    reveal(SessionState::run);
    if events.len() > 0 {
        lemma_outcome_is_final(state, events.drop_last());
        lemma_run_preserves_wf(state, events.drop_last());
    }
}

/// A read does not depend on what the session went through before it was
/// restarted: no pulse, tick count or outcome of an earlier read is left, and
/// the same events give the same read as on a session that was never used.
pub proof fn lemma_restart_forgets<HE>(
    variant: Variant,
    earlier: Seq<Event<HE>>,
    events: Seq<Event<HE>>,
)
    ensures
        SessionState::<HE>::initial(variant).run(earlier).restarted() == SessionState::<
            HE,
        >::initial(variant),
        SessionState::<HE>::initial(variant).run(earlier).restarted().run(events)
            == SessionState::<HE>::initial(variant).run(events),
{
    lemma_run_keeps_variant(SessionState::<HE>::initial(variant), earlier);
}

/// The state of a read in which the first `waits` waits were answered after
/// the given numbers of ticks and the next wait is about to begin.
pub open spec fn after_waits<HE>(variant: Variant, ticks: Seq<u8>, waits: nat) -> SessionState<
    HE,
> {
    SessionState {
        variant,
        phase: Phase::Sampling,
        waits,
        elapsed: 0,
        pulses: measured_pulses(ticks, waits),
        outcome: None,
    }
}

/// A wait that is answered after `ticks` ticks completes with that count.
pub proof fn lemma_answered_wait<HE>(state: SessionState<HE>, ticks: u8)
    requires
        state.phase == Phase::Sampling,
        state.elapsed == 0,
    ensures
        state.run(answered_wait::<HE>(ticks)) == (SessionState {
            elapsed: ticks as nat,
            ..state
        }).complete_wait(),
{
    lemma_silence_counts(state, ticks as nat);
    lemma_run_push(state, silence::<HE>(ticks as nat), Event::Sampled(true));
}

/// The start signal leads to the first wait.
pub proof fn lemma_start_signal<HE>(variant: Variant)
    ensures
        SessionState::<HE>::initial(variant).run(start_signal::<HE>()) == after_waits::<HE>(
            variant,
            Seq::empty(),
            0,
        ),
{
    let start = SessionState::<HE>::initial(variant);
    let none = Seq::<Event<HE>>::empty();
    let one = none.push(Event::Done);
    let two = one.push(Event::Done);
    let three = two.push(Event::Done);
    let four = three.push(Event::Done);
    let five = four.push(Event::Done);
    lemma_run_empty(start);
    lemma_run_push(start, none, Event::Done);
    assert(start.run(one) == start.enter(Phase::PullingLow));
    lemma_run_push(start, one, Event::Done);
    assert(start.run(two) == start.enter(Phase::HoldingLow));
    lemma_run_push(start, two, Event::Done);
    assert(start.run(three) == start.enter(Phase::Releasing));
    lemma_run_push(start, three, Event::Done);
    assert(start.run(four) == start.enter(Phase::HandingOver));
    lemma_run_push(start, four, Event::Done);
    assert(start.run(five) == start.enter(Phase::Sampling));
    assert(start_signal::<HE>() =~= five);
    assert(measured_pulses(Seq::empty(), 0) =~= start.pulses);
}

/// The pulse buffer holds only what was measured so far: ticks of waits
/// that have not happened yet do not show in it.
pub proof fn lemma_measured_so_far(ticks: Seq<u8>, longer: Seq<u8>, waits: nat)
    requires
        waits <= ticks.len() <= longer.len(),
        forall|wait: int| 0 <= wait < waits ==> ticks[wait] == longer[wait],
    ensures
        measured_pulses(ticks, waits) == measured_pulses(longer, waits),
{
    assert(measured_pulses(ticks, waits) =~= measured_pulses(longer, waits));
}

/// Answering wait number `waits` records its ticks in the pulse buffer: the
/// low period of a pair when the line went high, the high period when it
/// went low again, and nothing during the handshake.
pub proof fn lemma_wait_recorded(ticks: Seq<u8>, waits: nat)
    requires
        waits < ticks.len() <= WAIT_COUNT,
    ensures
        measured_pulses(ticks, waits + 1) == (if waits < HANDSHAKE_WAITS {
            measured_pulses(ticks, waits)
        } else {
            record(
                measured_pulses(ticks, waits),
                (waits - HANDSHAKE_WAITS) as nat,
                ticks[waits as int],
            )
        }),
{
    let before = measured_pulses(ticks, waits);
    let after = measured_pulses(ticks, waits + 1);
    if waits < HANDSHAKE_WAITS {
        assert(after =~= before);
    } else {
        let slot = (waits - HANDSHAKE_WAITS) as nat;
        let recorded = record(before, slot, ticks[waits as int]);
        assert forall|index: int| 0 <= index < 40 implies after[index] == recorded[index] by {
            if index == slot / 2 {
            } else {
            }
        }
        assert(after =~= recorded);
    }
}

/// As long as the sensor answers, the read moves from wait to wait and the
/// pulse buffer fills with what was measured.
pub proof fn lemma_answered_waits<HE>(variant: Variant, ticks: Seq<u8>)
    requires
        ticks.len() < WAIT_COUNT,
    ensures
        SessionState::<HE>::initial(variant).run(
            start_signal::<HE>() + answered_waits::<HE>(ticks),
        ) == after_waits::<HE>(variant, ticks, ticks.len()),
    decreases ticks.len(),
{
    let start = SessionState::<HE>::initial(variant);
    if ticks.len() == 0 {
        lemma_start_signal::<HE>(variant);
        assert(start_signal::<HE>() + answered_waits::<HE>(ticks) =~= start_signal::<HE>());
        lemma_measured_so_far(Seq::empty(), ticks, 0);
    } else {
        let earlier = ticks.drop_last();
        let waits = earlier.len();
        lemma_answered_waits::<HE>(variant, earlier);
        let before = start_signal::<HE>() + answered_waits::<HE>(earlier);
        assert(start_signal::<HE>() + answered_waits::<HE>(ticks) =~= before + answered_wait::<HE>(
            ticks.last(),
        ));
        lemma_run_concat(start, before, answered_wait::<HE>(ticks.last()));
        let state = after_waits::<HE>(variant, earlier, waits);
        lemma_answered_wait(state, ticks.last());
        lemma_measured_so_far(earlier, ticks, waits);
        lemma_wait_recorded(ticks, waits);
    }
}

/// A transmission that arrives complete is decoded from exactly the ticks
/// that were measured, and only after the guard is released: once all waits
/// are answered the pulse buffer is complete, interrupts are still suspended
/// and nothing has been made of the pulses yet; the step that lets
/// interrupts through again ends the read with what the measured pulses
/// say.
pub proof fn lemma_complete_read<HE>(variant: Variant, ticks: Seq<u8>)
    requires
        ticks.len() == WAIT_COUNT,
    ensures
        ({
            let end = SessionState::<HE>::initial(variant).run(
                start_signal::<HE>() + answered_waits::<HE>(ticks),
            );
            let verdict = interpretation::<HE>(
                variant,
                frame_bytes(measured_pulses(ticks, WAIT_COUNT as nat)),
            );
            &&& end.pending() == Action::EnableInterrupts
            &&& end.masked()
            &&& end.pulses == measured_pulses(ticks, WAIT_COUNT as nat)
            &&& end.outcome is None
            &&& !end.next(Event::Done).masked()
            &&& end.next(Event::Done).result() == Some(verdict)
        }),
{
    let start = SessionState::<HE>::initial(variant);
    let earlier = ticks.drop_last();
    let waits = earlier.len();
    lemma_answered_waits::<HE>(variant, earlier);
    let before = start_signal::<HE>() + answered_waits::<HE>(earlier);
    assert(start_signal::<HE>() + answered_waits::<HE>(ticks) =~= before + answered_wait::<HE>(
        ticks.last(),
    ));
    lemma_run_concat(start, before, answered_wait::<HE>(ticks.last()));
    let state = after_waits::<HE>(variant, earlier, waits);
    lemma_answered_wait(state, ticks.last());
    lemma_measured_so_far(earlier, ticks, waits);
    lemma_wait_recorded(ticks, waits);
    reveal(decoded);
}

/// Puts a new session through a recorded sequence of events and returns it
/// in the state the events leave it in.
pub fn replay<HE: Copy>(variant: Variant, events: &[Event<HE>]) -> (session: Session<HE>)
    ensures
        session@ == SessionState::<HE>::initial(variant).run(events@),
        session@.wf(),
{
    let mut session: Session<HE> = Session::new(variant);
    let mut index: usize = 0;
    proof {
        lemma_run_empty(session@);
        assert(events@.take(0) =~= Seq::empty());
    }
    while index < events.len()
        invariant
            index <= events.len(),
            session@ == SessionState::<HE>::initial(variant).run(events@.take(index as int)),
            session@.wf(),
        decreases events.len() - index,
    {
        proof {
            lemma_run_push(
                SessionState::<HE>::initial(variant),
                events@.take(index as int),
                events@[index as int],
            );
            assert(events@.take(index as int).push(events@[index as int]) =~= events@.take(
                index + 1,
            ));
        }
        session = session.step(events[index]);
        index += 1;
    }
    proof {
        assert(events@.take(index as int) =~= events@);
    }
    session
}

} // verus!
