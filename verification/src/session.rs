//! One read of the sensor, as a state machine.
//!
//! A read is a fixed conversation on one wire: hold the line low for 18 ms,
//! release it for 40 us, wait for the sensor to acknowledge with a low and a
//! high period, then time the low and the high period of each of forty bits.
//! Every wait polls the pin once per microsecond tick and gives up after 256
//! unanswered samples.
//!
//! The session decides; it does not act. At any moment it has exactly one
//! [`Action`] pending. The driver carries the action out on the real pin,
//! timer or interrupt controller and reports what happened as an [`Event`],
//! which moves the session on. An event that does not answer the pending
//! action changes nothing. When the pending action is [`Action::Finish`] the
//! read is over and its outcome can be taken.
//!
//! Interrupts are suspended for the start signal and the timing of the
//! pulses and for nothing else. What the pulses of a complete transmission
//! mean is worked out only once interrupts are through again.

use crate::error::DhtError;
use crate::frame::Pulse;
use crate::level::Level;
use crate::reading::Reading;
use crate::variant::{decode, decoded, Variant};
use vstd::prelude::*;

verus! {

/// How long the line is held low to wake the sensor, in milliseconds.
pub const START_LOW_MS: u32 = 18;

/// How long the line is released before the sensor is expected to answer,
/// in microseconds.
pub const START_HIGH_US: u32 = 40;

/// Time between two samples of the pin while waiting, in microseconds.
pub const TICK_US: u32 = 1;

/// Largest number of ticks a wait can measure. A wait whose sample after
/// this many ticks is still unanswered has timed out.
pub const MAX_TICKS: u8 = 255;

/// The first two waits are the sensor's acknowledgement of the start signal.
pub const HANDSHAKE_WAITS: u8 = 2;

/// Waits in a complete read: two for the handshake, two for each of forty bits.
pub const WAIT_COUNT: u8 = 82;

/// What the driver is asked to do.
#[derive(Debug, Clone, Copy, PartialEq, Eq, Structural)]
pub enum Action {
    /// Suspend interrupts for the timing-sensitive part of the read.
    DisableInterrupts,
    /// Drive the line low.
    SetLow,
    /// Block for this many milliseconds.
    DelayMs(u32),
    /// Release the line high.
    SetHigh,
    /// Block for this many microseconds.
    DelayUs(u32),
    /// Sample the pin and report whether it is at this level.
    Sample(Level),
    /// Let interrupts through again.
    EnableInterrupts,
    /// Nothing more to do: the read is over.
    Finish,
}

/// What the driver reports back.
#[derive(Debug)]
pub enum Event<HE> {
    /// The action was carried out. Answers every action but `Sample` and
    /// `Finish`.
    Done,
    /// The pin was sampled; the flag says whether it was at the level asked
    /// for. Answers `Sample`.
    Sampled(bool),
    /// The pin reported this error. Answers `SetLow`, `SetHigh` and `Sample`.
    Fault(HE),
}

impl<HE: Clone> Clone for Event<HE> {
    /// A copy of the event. A pin error is copied by the `Clone` of the
    /// pin's error type, which decides what the copy holds.
    fn clone(&self) -> (copy: Self)
        ensures
            !(self is Fault) ==> copy == *self,
            self is Fault ==> copy is Fault,
    {
        match self {
            Event::Done => Event::Done,
            Event::Sampled(at_level) => Event::Sampled(*at_level),
            Event::Fault(error) => Event::Fault(error.clone()),
        }
    }
}

impl<HE: Copy> Copy for Event<HE> {
}

/// Where in the conversation a session stands. Each phase has one pending
/// action.
#[derive(Debug, Clone, Copy, PartialEq, Eq, Structural)]
pub enum Phase {
    /// About to suspend interrupts.
    Masking,
    /// About to drive the line low.
    PullingLow,
    /// Holding the line low.
    HoldingLow,
    /// About to release the line.
    Releasing,
    /// Leaving the released line to the sensor.
    HandingOver,
    /// Waiting for the line to change: about to sample it.
    Sampling,
    /// Waiting for the line to change: letting one tick pass after an
    /// unanswered sample.
    Ticking,
    /// The timing-sensitive part is over, by a failure or with the last
    /// bit; about to let interrupts through again.
    Unmasking,
    /// Over.
    Finished,
}

/// The level that wait number `wait` waits for. Waits alternate, starting
/// with a wait for the line to go high: the time until the line is high is
/// how long it was low.
pub open spec fn awaited_level(wait: nat) -> Level {
    if wait % 2 == 0 {
        Level::High
    } else {
        Level::Low
    }
}

/// The error of a wait that timed out: during the handshake the sensor is
/// not there, later it has stopped mid-transmission.
pub open spec fn timeout_error<HE>(wait: nat) -> DhtError<HE> {
    if wait < HANDSHAKE_WAITS {
        DhtError::NotPresent
    } else {
        DhtError::Timeout
    }
}

/// The pulse buffer after bit wait number `slot` measured `ticks`: even
/// slots are the low period of pulse pair `slot / 2`, odd slots its high
/// period.
pub open spec fn record(pulses: Seq<Pulse>, slot: nat, ticks: u8) -> Seq<Pulse> {
    let index = (slot / 2) as int;
    if slot % 2 == 0 {
        pulses.update(index, Pulse { lo: ticks, hi: pulses[index].hi })
    } else {
        pulses.update(index, Pulse { lo: pulses[index].lo, hi: ticks })
    }
}

/// The state of a read, as a plain value.
pub struct SessionState<HE> {
    /// The sensor family being read.
    pub variant: Variant,
    /// Where the conversation stands.
    pub phase: Phase,
    /// Number of waits that have been answered.
    pub waits: nat,
    /// Unanswered samples in the wait in progress.
    pub elapsed: nat,
    /// The pulse buffer: forty pairs, zero until measured.
    pub pulses: Seq<Pulse>,
    /// How the read ended, once that is settled.
    pub outcome: Option<Result<Reading, DhtError<HE>>>,
}

impl<HE> SessionState<HE> {
    /// The state every read starts from.
    pub open spec fn initial(variant: Variant) -> Self {
        SessionState {
            variant,
            phase: Phase::Masking,
            waits: 0,
            elapsed: 0,
            pulses: Seq::new(40, |index: int| Pulse { lo: 0, hi: 0 }),
            outcome: None,
        }
    }

    /// The outcome is there and is backed by what was received. Once all
    /// waits are answered it is what the complete pulse buffer says, a
    /// reading or the reason why it is none. Before that it is an error and
    /// never a reading: the sensor is reported absent only during the
    /// handshake, a timeout only after it, and a pin error at any time.
    pub open spec fn justified(self) -> bool {
        if self.waits == WAIT_COUNT {
            self.outcome == Some(decoded::<HE>(self.variant, self.pulses))
        } else {
            match self.outcome {
                Some(Err(DhtError::NotPresent)) => self.waits < HANDSHAKE_WAITS,
                Some(Err(DhtError::Timeout)) => HANDSHAKE_WAITS <= self.waits,
                Some(Err(DhtError::PinError(_))) => true,
                _ => false,
            }
        }
    }

    /// The state a new read of the same sensor starts from.
    pub open spec fn restarted(self) -> Self {
        Self::initial(self.variant)
    }

    /// What holds of every state a read can be in.
    pub open spec fn wf(self) -> bool {
        &&& self.pulses.len() == 40
        &&& self.waits <= WAIT_COUNT
        &&& self.elapsed <= MAX_TICKS
        &&& match self.phase {
            Phase::Masking
            | Phase::PullingLow
            | Phase::HoldingLow
            | Phase::Releasing
            | Phase::HandingOver => self.waits == 0 && self.elapsed == 0 && self.outcome is None,
            Phase::Sampling | Phase::Ticking => self.waits < WAIT_COUNT && self.outcome is None,
            Phase::Unmasking => if self.outcome is None {
                self.waits == WAIT_COUNT
            } else {
                self.waits < WAIT_COUNT && self.justified()
            },
            Phase::Finished => self.justified(),
        }
    }

    /// The action the driver has to carry out in this state.
    pub open spec fn pending(self) -> Action {
        match self.phase {
            Phase::Masking => Action::DisableInterrupts,
            Phase::PullingLow => Action::SetLow,
            Phase::HoldingLow => Action::DelayMs(START_LOW_MS),
            Phase::Releasing => Action::SetHigh,
            Phase::HandingOver => Action::DelayUs(START_HIGH_US),
            Phase::Sampling => Action::Sample(awaited_level(self.waits)),
            Phase::Ticking => Action::DelayUs(TICK_US),
            Phase::Unmasking => Action::EnableInterrupts,
            Phase::Finished => Action::Finish,
        }
    }

    /// Whether interrupts are suspended in this state.
    pub open spec fn masked(self) -> bool {
        self.phase != Phase::Masking && self.phase != Phase::Finished
    }

    /// The same state in another phase.
    pub open spec fn enter(self, phase: Phase) -> Self {
        SessionState { phase, ..self }
    }

    /// The read has failed with `error`; what is left is to let interrupts
    /// through again.
    pub open spec fn conclude(self, error: DhtError<HE>) -> Self {
        SessionState { phase: Phase::Unmasking, outcome: Some(Err(error)), ..self }
    }

    /// Interrupts are through again and the read is over. A read that
    /// failed ends with its error. A read that received a complete
    /// transmission learns only now, outside the guard, what the pulses
    /// say.
    pub open spec fn settle(self) -> Self {
        SessionState {
            phase: Phase::Finished,
            outcome: if self.outcome is None {
                Some(decoded(self.variant, self.pulses))
            } else {
                self.outcome
            },
            ..self
        }
    }

    /// One tick has passed after an unanswered sample: sample again, unless
    /// that was the last sample this wait allows.
    pub open spec fn tick(self) -> Self {
        if self.elapsed >= MAX_TICKS {
            self.conclude(timeout_error(self.waits))
        } else {
            SessionState { phase: Phase::Sampling, elapsed: self.elapsed + 1, ..self }
        }
    }

    /// The line reached the awaited level after `elapsed` ticks. A bit wait
    /// records that in the pulse buffer; a handshake wait only moves on.
    /// With the last wait the timing-sensitive part is over: the buffer is
    /// complete and is left as it is until interrupts are through again.
    pub open spec fn complete_wait(self) -> Self {
        let pulses = if self.waits < HANDSHAKE_WAITS {
            self.pulses
        } else {
            record(self.pulses, (self.waits - HANDSHAKE_WAITS) as nat, self.elapsed as u8)
        };
        let waits = self.waits + 1;
        if waits == WAIT_COUNT {
            SessionState { phase: Phase::Unmasking, waits, elapsed: 0, pulses, ..self }
        } else {
            SessionState { phase: Phase::Sampling, waits, elapsed: 0, pulses, ..self }
        }
    }

    /// The state after the driver reported `event`.
    pub open spec fn next(self, event: Event<HE>) -> Self {
        match self.phase {
            Phase::Masking => match event {
                Event::Done => self.enter(Phase::PullingLow),
                _ => self,
            },
            Phase::PullingLow => match event {
                Event::Done => self.enter(Phase::HoldingLow),
                Event::Fault(error) => self.conclude(DhtError::PinError(error)),
                _ => self,
            },
            Phase::HoldingLow => match event {
                Event::Done => self.enter(Phase::Releasing),
                _ => self,
            },
            Phase::Releasing => match event {
                Event::Done => self.enter(Phase::HandingOver),
                Event::Fault(error) => self.conclude(DhtError::PinError(error)),
                _ => self,
            },
            Phase::HandingOver => match event {
                Event::Done => self.enter(Phase::Sampling),
                _ => self,
            },
            Phase::Sampling => match event {
                Event::Sampled(true) => self.complete_wait(),
                Event::Sampled(false) => self.enter(Phase::Ticking),
                Event::Fault(error) => self.conclude(DhtError::PinError(error)),
                Event::Done => self,
            },
            Phase::Ticking => match event {
                Event::Done => self.tick(),
                _ => self,
            },
            Phase::Unmasking => match event {
                Event::Done => self.settle(),
                _ => self,
            },
            Phase::Finished => self,
        }
    }

    /// The state after the driver reported `events`, one after the other.
    #[verifier::opaque]
    pub open spec fn run(self, events: Seq<Event<HE>>) -> Self
        decreases events.len(),
    {
        if events.len() == 0 {
            self
        } else {
            self.run(events.drop_last()).next(events.last())
        }
    }

    /// How the read ended, if it is over.
    pub open spec fn result(self) -> Option<Result<Reading, DhtError<HE>>> {
        if self.phase == Phase::Finished {
            self.outcome
        } else {
            None
        }
    }
}

/// A read in progress.
pub struct Session<HE> {
    variant: Variant,
    phase: Phase,
    waits: u8,
    elapsed: u8,
    pulses: [Pulse; 40],
    outcome: Option<Result<Reading, DhtError<HE>>>,
}

impl<HE> View for Session<HE> {
    type V = SessionState<HE>;

    closed spec fn view(&self) -> SessionState<HE> {
        SessionState {
            variant: self.variant,
            phase: self.phase,
            waits: self.waits as nat,
            elapsed: self.elapsed as nat,
            pulses: self.pulses@,
            outcome: self.outcome,
        }
    }
}

impl<HE> Session<HE> {
    #[verifier::type_invariant]
    spec fn well_formed(self) -> bool {
        self@.wf()
    }

    /// Begins a read of a sensor of the given family. Nothing has been
    /// measured yet and the first thing to do is to suspend interrupts.
    pub fn new(variant: Variant) -> (session: Session<HE>)
        ensures
            session@ == SessionState::<HE>::initial(variant),
            session@.wf(),
    {
        let session = Session {
            variant,
            phase: Phase::Masking,
            waits: 0,
            elapsed: 0,
            pulses: [Pulse { lo: 0, hi: 0 };40],
            outcome: None,
        };
        assert forall|index: int| 0 <= index < 40 implies session@.pulses[index] == (Pulse {
            lo: 0,
            hi: 0,
        }) by {
            vstd::array::axiom_spec_array_fill_for_copy_type::<Pulse, 40>(Pulse { lo: 0, hi: 0 });
        }
        assert(session@.pulses =~= SessionState::<HE>::initial(variant).pulses);
        session
    }

    /// Abandons whatever this session went through and begins a new read of
    /// the same sensor.
    pub fn restart(self) -> (session: Session<HE>)
        ensures
            session@ == self@.restarted(),
            session@.wf(),
    {
        Session::new(self.variant)
    }

    /// The sensor family this session reads.
    pub fn variant(&self) -> (variant: Variant)
        ensures
            variant == self@.variant,
    {
        self.variant
    }

    /// The action the driver has to carry out now.
    pub fn action(&self) -> (action: Action)
        ensures
            action == self@.pending(),
            self@.wf(),
    {
        proof {
            use_type_invariant(self);
        }
        match self.phase {
            Phase::Masking => Action::DisableInterrupts,
            Phase::PullingLow => Action::SetLow,
            Phase::HoldingLow => Action::DelayMs(START_LOW_MS),
            Phase::Releasing => Action::SetHigh,
            Phase::HandingOver => Action::DelayUs(START_HIGH_US),
            Phase::Sampling => if self.waits % 2 == 0 {
                Action::Sample(Level::High)
            } else {
                Action::Sample(Level::Low)
            },
            Phase::Ticking => Action::DelayUs(TICK_US),
            Phase::Unmasking => Action::EnableInterrupts,
            Phase::Finished => Action::Finish,
        }
    }

    /// Whether the read is over.
    pub fn is_finished(&self) -> (finished: bool)
        ensures
            finished == (self@.phase == Phase::Finished),
    {
        self.phase == Phase::Finished
    }

    /// Moves the read on by what the driver reports.
    pub fn step(self, event: Event<HE>) -> (next: Session<HE>)
        ensures
            next@ == self@.next(event),
            next@.wf(),
    {
        proof {
            use_type_invariant(&self);
        }
        let Session { variant, phase, waits, elapsed, pulses, outcome } = self;
        match phase {
            Phase::Masking => match event {
                Event::Done => Session {
                    variant,
                    phase: Phase::PullingLow,
                    waits,
                    elapsed,
                    pulses,
                    outcome,
                },
                _ => Session { variant, phase, waits, elapsed, pulses, outcome },
            },
            Phase::PullingLow => match event {
                Event::Done => Session {
                    variant,
                    phase: Phase::HoldingLow,
                    waits,
                    elapsed,
                    pulses,
                    outcome,
                },
                Event::Fault(error) => Session {
                    variant,
                    phase: Phase::Unmasking,
                    waits,
                    elapsed,
                    pulses,
                    outcome: Some(Err(DhtError::PinError(error))),
                },
                _ => Session { variant, phase, waits, elapsed, pulses, outcome },
            },
            Phase::HoldingLow => match event {
                Event::Done => Session {
                    variant,
                    phase: Phase::Releasing,
                    waits,
                    elapsed,
                    pulses,
                    outcome,
                },
                _ => Session { variant, phase, waits, elapsed, pulses, outcome },
            },
            Phase::Releasing => match event {
                Event::Done => Session {
                    variant,
                    phase: Phase::HandingOver,
                    waits,
                    elapsed,
                    pulses,
                    outcome,
                },
                Event::Fault(error) => Session {
                    variant,
                    phase: Phase::Unmasking,
                    waits,
                    elapsed,
                    pulses,
                    outcome: Some(Err(DhtError::PinError(error))),
                },
                _ => Session { variant, phase, waits, elapsed, pulses, outcome },
            },
            Phase::HandingOver => match event {
                Event::Done => Session {
                    variant,
                    phase: Phase::Sampling,
                    waits,
                    elapsed,
                    pulses,
                    outcome,
                },
                _ => Session { variant, phase, waits, elapsed, pulses, outcome },
            },
            Phase::Sampling => match event {
                Event::Sampled(answered) => if answered {
                    Session::wait_completed(variant, waits, elapsed, pulses)
                } else {
                    Session { variant, phase: Phase::Ticking, waits, elapsed, pulses, outcome }
                },
                Event::Fault(error) => Session {
                    variant,
                    phase: Phase::Unmasking,
                    waits,
                    elapsed,
                    pulses,
                    outcome: Some(Err(DhtError::PinError(error))),
                },
                Event::Done => Session { variant, phase, waits, elapsed, pulses, outcome },
            },
            Phase::Ticking => match event {
                Event::Done => if elapsed == MAX_TICKS {
                    let error = if waits < HANDSHAKE_WAITS {
                        DhtError::NotPresent
                    } else {
                        DhtError::Timeout
                    };
                    Session {
                        variant,
                        phase: Phase::Unmasking,
                        waits,
                        elapsed,
                        pulses,
                        outcome: Some(Err(error)),
                    }
                } else {
                    Session {
                        variant,
                        phase: Phase::Sampling,
                        waits,
                        elapsed: elapsed + 1,
                        pulses,
                        outcome,
                    }
                },
                _ => Session { variant, phase, waits, elapsed, pulses, outcome },
            },
            Phase::Unmasking => match event {
                Event::Done => {
                    // interrupts are through: now is the time to work out
                    // what a complete transmission says
                    let settled = match outcome {
                        Some(failure) => failure,
                        None => decode(variant, &pulses),
                    };
                    Session {
                        variant,
                        phase: Phase::Finished,
                        waits,
                        elapsed,
                        pulses,
                        outcome: Some(settled),
                    }
                },
                _ => Session { variant, phase, waits, elapsed, pulses, outcome },
            },
            Phase::Finished => Session { variant, phase, waits, elapsed, pulses, outcome },
        }
    }

    /// The session after the wait in progress was answered.
    fn wait_completed(variant: Variant, waits: u8, elapsed: u8, pulses: [Pulse; 40]) -> (next:
        Session<HE>)
        requires
            waits < WAIT_COUNT,
        ensures
            next@ == (SessionState::<HE> {
                variant,
                phase: Phase::Sampling,
                waits: waits as nat,
                elapsed: elapsed as nat,
                pulses: pulses@,
                outcome: None,
            }).complete_wait(),
            next@.wf(),
    {
        let mut pulses = pulses;
        if waits >= HANDSHAKE_WAITS {
            let slot: u8 = waits - HANDSHAKE_WAITS;
            let index: usize = (slot / 2) as usize;
            let pulse: Pulse = pulses[index];
            if slot % 2 == 0 {
                // waiting for the line to go high tells us how long it was low
                pulses[index] = Pulse { lo: elapsed, hi: pulse.hi };
            } else {
                pulses[index] = Pulse { lo: pulse.lo, hi: elapsed };
            }
        }
        let waits: u8 = waits + 1;
        if waits == WAIT_COUNT {
            Session { variant, phase: Phase::Unmasking, waits, elapsed: 0, pulses, outcome: None }
        } else {
            Session { variant, phase: Phase::Sampling, waits, elapsed: 0, pulses, outcome: None }
        }
    }

    /// Ends the session and hands out how the read ended, or nothing if the
    /// read was not over.
    pub fn into_outcome(self) -> (outcome: Option<Result<Reading, DhtError<HE>>>)
        ensures
            outcome == self@.result(),
            outcome is Some ==> self@.justified(),
    {
        proof {
            use_type_invariant(&self);
        }
        if self.phase == Phase::Finished {
            self.outcome
        } else {
            None
        }
    }
}

} // verus!
