//! Phase sequencing for a four-wire stepper motor behind a ULN2003 driver.
//!
//! The motor advances one step each time the energised wire moves on to its
//! neighbour. The [`Sequencer`] decides which wire is energised; the
//! [`ULN2003`] puts that on its four pins and paces the steps.
//!
//! What a pin does with a level is not known here, nor how long a pause
//! really lasts. What is known, and stated, is what each pin was asked and
//! in which order, and which pauses the timer was asked for: the motor
//! keeps a record of both, for the proofs only, and the contracts of the
//! driver speak of those records.

use crate::hal::{Delay, OutPin};
use crate::level::Level;
use vstd::prelude::*;

verus! {

/// Positions of the motor. Each position energises at most one wire.
///
/// | wire | 0 | 1 | 2 | 3 | 4 |
/// | ---- | - | - | - | - | - |
/// |  1   |   |   |   |   | x |
/// |  2   |   |   |   | x |   |
/// |  3   |   |   | x |   |   |
/// |  4   |   | x |   |   |   |
#[derive(Copy, Clone, Debug, PartialEq, Eq, Structural)]
pub enum State {
    /// At rest: no wire is energised.
    State0,
    State1,
    State2,
    State3,
    State4,
}

/// Direction the motor turns in. Reversing it reverses the order of the
/// positions.
#[derive(Copy, Clone, Debug, PartialEq, Eq, Structural)]
pub enum Direction {
    Normal,
    Reverse,
}

/// Returned when a step could not be taken.
#[derive(Debug)]
pub struct StepError;

/// A stepper motor, whatever pins and timer it is driven with.
pub trait StepperMotor {
    /// Do a single step.
    fn step(&mut self) -> Result<(), StepError>;

    /// Do multiple steps with a given delay in ms between them.
    fn step_for(&mut self, steps: i32, delay: u32) -> Result<(), StepError>;

    /// Set the stepping direction.
    fn set_direction(&mut self, dir: Direction);

    /// Stopping sets all pins low.
    fn stop(&mut self) -> Result<(), StepError>;
}

/// The wire a position energises, counted from 0 for wire 1, if any.
pub open spec fn energised_wire(s: State) -> Option<int> {
    match s {
        State::State0 => None,
        State::State1 => Some(3),
        State::State2 => Some(2),
        State::State3 => Some(1),
        State::State4 => Some(0),
    }
}

/// The levels of the four pins in a position: high on the energised wire,
/// low on every other.
pub open spec fn pin_states(s: State) -> Seq<Level> {
    Seq::new(
        4,
        |wire: int|
            if energised_wire(s) == Some(wire) {
                Level::High
            } else {
                Level::Low
            },
    )
}

/// The position after `s` in the normal direction: 1, 2, 3, 4 and round to
/// 1 again. From rest the motor starts at 1.
pub open spec fn next_state(s: State) -> State {
    match s {
        State::State1 => State::State2,
        State::State2 => State::State3,
        State::State3 => State::State4,
        State::State4 | State::State0 => State::State1,
    }
}

/// The position after `s` in the reverse direction: 4, 3, 2, 1 and round to
/// 4 again. From rest the motor starts at 4.
pub open spec fn prev_state(s: State) -> State {
    match s {
        State::State0 | State::State1 => State::State4,
        State::State2 => State::State1,
        State::State3 => State::State2,
        State::State4 => State::State3,
    }
}

/// The position one step on from `s` in direction `dir`.
pub open spec fn stepped(s: State, dir: Direction) -> State {
    match dir {
        Direction::Normal => next_state(s),
        Direction::Reverse => prev_state(s),
    }
}

/// The levels to put on the four pins, wire 1 first, in position `s`.
pub fn get_pin_states(s: State) -> (levels: [Level; 4])
    ensures
        levels@ == pin_states(s),
{
    let levels = match s {
        State::State0 => [Level::Low, Level::Low, Level::Low, Level::Low],
        State::State1 => [Level::Low, Level::Low, Level::Low, Level::High],
        State::State2 => [Level::Low, Level::Low, Level::High, Level::Low],
        State::State3 => [Level::Low, Level::High, Level::Low, Level::Low],
        State::State4 => [Level::High, Level::Low, Level::Low, Level::Low],
    };
    assert(levels@ =~= pin_states(s));
    levels
}

/// The position that follows `s` in the normal direction.
pub fn get_next_state(s: State) -> (next: State)
    ensures
        next == next_state(s),
{
    match s {
        State::State1 => State::State2,
        State::State2 => State::State3,
        State::State3 => State::State4,
        State::State4 | State::State0 => State::State1,
    }
}

/// The position that follows `s` in the reverse direction.
pub fn get_prev_state(s: State) -> (prev: State)
    ensures
        prev == prev_state(s),
{
    match s {
        State::State0 | State::State1 => State::State4,
        State::State2 => State::State1,
        State::State3 => State::State2,
        State::State4 => State::State3,
    }
}

/// Stepping never brings the motor to rest, and a step one way is undone by
/// a step the other way, except that rest, once left, is not stepped back
/// into.
pub proof fn lemma_steps_invert(s: State)
    ensures
        next_state(s) != State::State0,
        prev_state(s) != State::State0,
        s != State::State0 ==> prev_state(next_state(s)) == s && next_state(prev_state(s)) == s,
{
}

/// Four steps in one direction energise each wire once and bring a turning
/// motor back to the position it started from.
pub proof fn lemma_four_steps_come_round(s: State, dir: Direction)
    requires
        s != State::State0,
    ensures
        stepped(stepped(stepped(stepped(s, dir), dir), dir), dir) == s,
        stepped(s, dir) != s,
        stepped(stepped(s, dir), dir) != s,
        stepped(stepped(stepped(s, dir), dir), dir) != s,
{
}

/// How many of the four pins are high.
pub open spec fn high_pins(levels: Seq<Level>) -> int {
    let high = |level: Level|
        if level == Level::High {
            1int
        } else {
            0int
        };
    high(levels[0]) + high(levels[1]) + high(levels[2]) + high(levels[3])
}

/// At rest every pin is low; in every other position exactly one pin is high.
pub proof fn lemma_one_wire_at_a_time(s: State)
    ensures
        high_pins(pin_states(s)) == (if s == State::State0 {
            0int
        } else {
            1int
        }),
{
}

/// Where the motor stands and which way it turns.
pub struct Sequencer {
    state: State,
    dir: Direction,
}

impl Sequencer {
    /// The position the motor is in.
    pub closed spec fn spec_state(&self) -> State {
        self.state
    }

    /// The direction the next step goes in.
    pub closed spec fn spec_direction(&self) -> Direction {
        self.dir
    }

    /// A motor at rest that will turn in the normal direction.
    pub fn new() -> (sequencer: Sequencer)
        ensures
            sequencer.state() == State::State0,
            sequencer.direction() == Direction::Normal,
    {
        Sequencer { state: State::State0, dir: Direction::Normal }
    }

    /// The position the motor is in.
    #[verifier::when_used_as_spec(spec_state)]
    pub fn state(&self) -> (state: State)
        ensures
            state == self.spec_state(),
    {
        self.state
    }

    /// The direction the next step goes in.
    #[verifier::when_used_as_spec(spec_direction)]
    pub fn direction(&self) -> (dir: Direction)
        ensures
            dir == self.spec_direction(),
    {
        self.dir
    }

    /// Moves one position on in the current direction and returns the
    /// levels to put on the pins.
    pub fn step(&mut self) -> (levels: [Level; 4])
        ensures
            final(self).state() == stepped(old(self).state(), old(self).direction()),
            final(self).direction() == old(self).direction(),
            levels@ == pin_states(final(self).state()),
    {
        match self.dir {
            Direction::Normal => self.state = get_next_state(self.state),
            Direction::Reverse => self.state = get_prev_state(self.state),
        }
        get_pin_states(self.state)
    }

    /// Sets the direction of the steps to come. The position stays.
    pub fn set_direction(&mut self, dir: Direction)
        ensures
            final(self).direction() == dir,
            final(self).state() == old(self).state(),
    {
        self.dir = dir;
    }

    /// Brings the motor to rest and returns the levels to put on the pins,
    /// all of them low.
    pub fn stop(&mut self) -> (levels: [Level; 4])
        ensures
            final(self).state() == State::State0,
            final(self).direction() == old(self).direction(),
            levels@ == pin_states(State::State0),
    {
        self.state = State::State0;
        get_pin_states(self.state)
    }
}

/// The number of steps a request for `steps` steps comes to: a request that
/// is not positive asks for none.
pub open spec fn steps_to_take(steps: i32) -> nat {
    if steps > 0 {
        steps as nat
    } else {
        0
    }
}

/// Decides how many steps a paced run takes. Pacing needs a timer, so
/// without one the run is refused; with one, it takes as many steps as were
/// asked for.
pub fn plan_run(has_delay: bool, steps: i32) -> (plan: Result<u32, StepError>)
    ensures
        plan is Ok <==> has_delay,
        plan matches Ok(count) ==> count == steps_to_take(steps),
{
    if !has_delay {
        return Err(StepError);
    }
    if steps > 0 {
        Ok(steps as u32)
    } else {
        Ok(0)
    }
}

/// The position `count` steps on from `s` in direction `dir`.
pub open spec fn stepped_times(s: State, dir: Direction, count: nat) -> State
    decreases count,
{
    if count == 0 {
        s
    } else {
        stepped(stepped_times(s, dir, (count - 1) as nat), dir)
    }
}

/// One request made of a pin: the level it was asked to take, and whether
/// it took it.
pub struct Request {
    pub level: Level,
    pub accepted: bool,
}

/// A pin together with the record of what has been asked of it so far. The
/// record is kept for the proofs only and costs nothing at run time.
struct Line<P: OutPin> {
    pin: P,
    asked: Ghost<Seq<Request>>,
}

impl<P: OutPin> Line<P> {
    /// The requests made of the pin, the first one first.
    closed spec fn asked(&self) -> Seq<Request> {
        self.asked@
    }

    /// A pin of which nothing has been asked yet.
    fn new(pin: P) -> (line: Self)
        ensures
            line.asked() == Seq::<Request>::empty(),
    {
        Line { pin, asked: Ghost(Seq::empty()) }
    }
}

/// Drives a pin to a level; whatever the pin has against it is a step that
/// could not be taken. The pin is asked once, for exactly this level, and
/// the result is what the pin answered.
fn set_state<P: OutPin>(line: &mut Line<P>, level: Level) -> (done: Result<(), StepError>)
    ensures
        final(line).asked() == old(line).asked().push(
            (Request { level, accepted: done is Ok }),
        ),
{
    let done = match line.pin.set_state(level) {
        Ok(()) => Ok(()),
        Err(_) => Err(StepError),
    };
    line.asked = Ghost(line.asked@.push(Request { level, accepted: done is Ok }));
    done
}

/// The records of four pins after an attempt to put `states` on them, wire 1
/// first, when the first `accepted` of the pins took their level: each of
/// those was asked once and accepted, the next one, if there is one, was
/// asked once and refused, and the pins after it were not asked at all.
pub open spec fn applied(before: Seq<Seq<Request>>, states: Seq<Level>, accepted: nat) -> Seq<
    Seq<Request>,
> {
    Seq::new(
        4,
        |wire: int|
            if wire < accepted {
                before[wire].push(Request { level: states[wire], accepted: true })
            } else if wire == accepted {
                before[wire].push(Request { level: states[wire], accepted: false })
            } else {
                before[wire]
            },
    )
}

/// Whether putting `states` on four pins with the records `before` can have
/// left the records `after` and the result `done`: the pins were asked in
/// order up to the first that refused, and the attempt succeeded exactly if
/// none did.
pub open spec fn is_applied(
    before: Seq<Seq<Request>>,
    states: Seq<Level>,
    after: Seq<Seq<Request>>,
    done: Result<(), StepError>,
) -> bool {
    exists|accepted: nat|
        {
            &&& accepted <= 4
            &&& after == #[trigger] applied(before, states, accepted)
            &&& done is Ok <==> accepted == 4
        }
}

/// The records of four pins after `count` steps from position `s` in
/// direction `dir` that all four pins took: step by step, each pin is asked
/// once for its level in the position the step leads to.
pub open spec fn stepped_records(
    before: Seq<Seq<Request>>,
    s: State,
    dir: Direction,
    count: nat,
) -> Seq<Seq<Request>>
    decreases count,
{
    if count == 0 {
        before
    } else {
        applied(
            stepped_records(before, s, dir, (count - 1) as nat),
            pin_states(stepped_times(s, dir, count)),
            4,
        )
    }
}

/// A stepper motor with the four pins it is driven by.
pub struct ULN2003<In1: OutPin, In2: OutPin, In3: OutPin, In4: OutPin, D: Delay> {
    in1: Line<In1>,
    in2: Line<In2>,
    in3: Line<In3>,
    in4: Line<In4>,
    sequencer: Sequencer,
    delay: Option<D>,
    paused: Ghost<Seq<u32>>,
}

impl<In1: OutPin, In2: OutPin, In3: OutPin, In4: OutPin, D: Delay> ULN2003<In1, In2, In3, In4, D> {
    /// The position the motor is in.
    pub closed spec fn state(&self) -> State {
        self.sequencer.state()
    }

    /// The direction the next step goes in.
    pub closed spec fn direction(&self) -> Direction {
        self.sequencer.direction()
    }

    /// Whether the motor has a timer to pace its steps with.
    pub closed spec fn has_delay(&self) -> bool {
        self.delay is Some
    }

    /// What has been asked of each of the four pins so far, wire 1 first.
    pub closed spec fn asked(&self) -> Seq<Seq<Request>> {
        seq![self.in1.asked(), self.in2.asked(), self.in3.asked(), self.in4.asked()]
    }

    /// The pauses the timer has been asked for so far, in milliseconds, the
    /// first one first.
    pub closed spec fn pauses(&self) -> Seq<u32> {
        self.paused@
    }

    /// Create a new stepper motor from the 4 pins connected to the driver
    /// board. The delay parameter is needed if you want to use the
    /// `step_for` function. The motor is at rest and will turn in the normal
    /// direction; no pin is touched yet.
    pub fn new(in1: In1, in2: In2, in3: In3, in4: In4, delay: Option<D>) -> (motor: Self)
        ensures
            motor.state() == State::State0,
            motor.direction() == Direction::Normal,
            motor.has_delay() == (delay is Some),
            motor.asked() == Seq::new(4, |wire: int| Seq::<Request>::empty()),
            motor.pauses() == Seq::<u32>::empty(),
    {
        let motor = ULN2003 {
            in1: Line::new(in1),
            in2: Line::new(in2),
            in3: Line::new(in3),
            in4: Line::new(in4),
            sequencer: Sequencer::new(),
            delay,
            paused: Ghost(Seq::empty()),
        };
        assert(motor.asked() =~= Seq::new(4, |wire: int| Seq::<Request>::empty()));
        motor
    }

    /// Puts the levels on the four pins, wire 1 first, and gives up at the
    /// first pin that refuses: the pins after it are not asked. It succeeds
    /// exactly if all four pins took their level.
    fn apply_state(&mut self, states: [Level; 4]) -> (done: Result<(), StepError>)
        ensures
            final(self).state() == old(self).state(),
            final(self).direction() == old(self).direction(),
            final(self).has_delay() == old(self).has_delay(),
            final(self).pauses() == old(self).pauses(),
            is_applied(old(self).asked(), states@, final(self).asked(), done),
    {
        let ghost before = self.asked();
        match set_state(&mut self.in1, states[0]) {
            Err(error) => {
                assert(self.asked() =~= applied(before, states@, 0));
                return Err(error);
            },
            Ok(()) => {},
        }
        match set_state(&mut self.in2, states[1]) {
            Err(error) => {
                assert(self.asked() =~= applied(before, states@, 1));
                return Err(error);
            },
            Ok(()) => {},
        }
        match set_state(&mut self.in3, states[2]) {
            Err(error) => {
                assert(self.asked() =~= applied(before, states@, 2));
                return Err(error);
            },
            Ok(()) => {},
        }
        match set_state(&mut self.in4, states[3]) {
            Err(error) => {
                assert(self.asked() =~= applied(before, states@, 3));
                return Err(error);
            },
            Ok(()) => {},
        }
        assert(self.asked() =~= applied(before, states@, 4));
        Ok(())
    }

    /// Pauses for so many milliseconds, if the motor has a timer: the timer
    /// is asked once, for exactly this pause. Without a timer nothing is
    /// done.
    fn pause(&mut self, ms: u32)
        ensures
            final(self).state() == old(self).state(),
            final(self).direction() == old(self).direction(),
            final(self).has_delay() == old(self).has_delay(),
            final(self).asked() == old(self).asked(),
            final(self).pauses() == (if old(self).has_delay() {
                old(self).pauses().push(ms)
            } else {
                old(self).pauses()
            }),
    {
        let paused = match &mut self.delay {
            Some(delay) => {
                delay.delay_ms(ms);
                true
            },
            None => false,
        };
        if paused {
            self.paused = Ghost(self.paused@.push(ms));
        }
    }
}

impl<In1: OutPin, In2: OutPin, In3: OutPin, In4: OutPin, D: Delay> StepperMotor for ULN2003<
    In1,
    In2,
    In3,
    In4,
    D,
> {
    /// Moves one position on and puts it on the pins. The position has
    /// moved on also where a pin refused.
    fn step(&mut self) -> (done: Result<(), StepError>)
        ensures
            final(self).state() == stepped(old(self).state(), old(self).direction()),
            final(self).direction() == old(self).direction(),
            final(self).has_delay() == old(self).has_delay(),
            final(self).pauses() == old(self).pauses(),
            is_applied(
                old(self).asked(),
                pin_states(final(self).state()),
                final(self).asked(),
                done,
            ),
    {
        let states = self.sequencer.step();
        self.apply_state(states)
    }

    /// Takes `steps` steps, each followed by a pause of `ms` milliseconds.
    /// Without a timer no step is taken. A pin that refuses ends the run
    /// with the steps taken so far, the one that failed included; the step
    /// that failed is not followed by a pause.
    fn step_for(&mut self, steps: i32, ms: u32) -> (done: Result<(), StepError>)
        ensures
            final(self).direction() == old(self).direction(),
            final(self).has_delay() == old(self).has_delay(),
            !old(self).has_delay() ==> done is Err && final(self).state() == old(self).state(),
            done is Ok ==> final(self).state() == stepped_times(
                old(self).state(),
                old(self).direction(),
                steps_to_take(steps),
            ),
            exists|taken: nat|
                taken <= steps_to_take(steps) && final(self).state() == #[trigger] stepped_times(
                    old(self).state(),
                    old(self).direction(),
                    taken,
                ),
            !old(self).has_delay() ==> final(self).asked() == old(self).asked(),
            !old(self).has_delay() ==> final(self).pauses() == old(self).pauses(),
            done is Ok ==> final(self).pauses() == old(self).pauses() + Seq::new(
                steps_to_take(steps),
                |step: int| ms,
            ),
            done is Ok ==> final(self).asked() == stepped_records(
                old(self).asked(),
                old(self).state(),
                old(self).direction(),
                steps_to_take(steps),
            ),
            done is Err && old(self).has_delay() ==> exists|taken: nat|
                {
                    &&& 0 < taken <= steps_to_take(steps)
                    &&& final(self).state() == stepped_times(
                        old(self).state(),
                        old(self).direction(),
                        taken,
                    )
                    &&& is_applied(
                        #[trigger] stepped_records(
                            old(self).asked(),
                            old(self).state(),
                            old(self).direction(),
                            (taken - 1) as nat,
                        ),
                        pin_states(final(self).state()),
                        final(self).asked(),
                        done,
                    )
                    &&& final(self).pauses() == old(self).pauses() + Seq::new(
                        (taken - 1) as nat,
                        |step: int| ms,
                    )
                },
    {
        let count: u32 = match plan_run(self.delay.is_some(), steps) {
            Ok(count) => count,
            Err(error) => {
                assert(self.state() == stepped_times(old(self).state(), old(self).direction(), 0));
                return Err(error);
            },
        };
        let mut taken: u32 = 0;
        assert(self.pauses() =~= old(self).pauses() + Seq::new(0, |step: int| ms));
        while taken < count
            invariant
                taken <= count,
                count == steps_to_take(steps),
                self.direction() == old(self).direction(),
                self.has_delay() == old(self).has_delay(),
                self.has_delay(),
                self.state() == stepped_times(
                    old(self).state(),
                    old(self).direction(),
                    taken as nat,
                ),
                self.asked() == stepped_records(
                    old(self).asked(),
                    old(self).state(),
                    old(self).direction(),
                    taken as nat,
                ),
                self.pauses() == old(self).pauses() + Seq::new(taken as nat, |step: int| ms),
            decreases count - taken,
        {
            let ghost before = self.asked();
            let stepped = self.step();
            taken += 1;
            match stepped {
                Err(error) => {
                    assert(before == stepped_records(
                        old(self).asked(),
                        old(self).state(),
                        old(self).direction(),
                        (taken - 1) as nat,
                    ));
                    return Err(error);
                },
                Ok(()) => {},
            }
            self.pause(ms);
            assert(self.pauses() =~= old(self).pauses() + Seq::new(taken as nat, |step: int| ms));
        }
        Ok(())
    }

    /// Sets the direction of the steps to come. No pin is asked anything.
    fn set_direction(&mut self, dir: Direction)
        ensures
            final(self).direction() == dir,
            final(self).state() == old(self).state(),
            final(self).has_delay() == old(self).has_delay(),
            final(self).asked() == old(self).asked(),
            final(self).pauses() == old(self).pauses(),
    {
        self.sequencer.set_direction(dir);
    }

    /// Brings the motor to rest and sets all pins low. The motor counts as
    /// at rest also where a pin refused.
    fn stop(&mut self) -> (done: Result<(), StepError>)
        ensures
            final(self).state() == State::State0,
            final(self).direction() == old(self).direction(),
            final(self).has_delay() == old(self).has_delay(),
            final(self).pauses() == old(self).pauses(),
            is_applied(
                old(self).asked(),
                pin_states(State::State0),
                final(self).asked(),
                done,
            ),
    {
        let states = self.sequencer.stop();
        self.apply_state(states)
    }
}

} // verus!
