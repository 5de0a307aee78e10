use esp32_projects::error::DhtError;
use esp32_projects::interrupt::{InterruptControl, NoopInterruptControl};
use esp32_projects::level::Level;
use esp32_projects::reading::Reading;
use esp32_projects::session::{Action, Event, Session};
use esp32_projects::trace::replay;
use esp32_projects::variant::Variant;

type Outcome = Option<Result<Reading, DhtError<u8>>>;

fn start_signal() -> Vec<Event<u8>> {
    vec![Event::Done; 5]
}

fn silence(events: &mut Vec<Event<u8>>, samples: usize) {
    for _ in 0..samples {
        events.push(Event::Sampled(false));
        events.push(Event::Done);
    }
}

fn answered_wait(events: &mut Vec<Event<u8>>, ticks: u8) {
    silence(events, usize::from(ticks));
    events.push(Event::Sampled(true));
}

fn bit_waits(events: &mut Vec<Event<u8>>, bytes: &[u8], bits: usize) {
    for index in 0..bits {
        let one = bytes[index / 8] & (0x80 >> (index % 8)) != 0;
        answered_wait(events, 50);
        answered_wait(events, if one { 70 } else { 26 });
    }
}

fn transmission(bytes: [u8; 5]) -> Vec<Event<u8>> {
    let mut events = start_signal();
    answered_wait(&mut events, 80);
    answered_wait(&mut events, 80);
    bit_waits(&mut events, &bytes, 40);
    events.push(Event::Done);
    events
}

fn read(variant: Variant, events: &[Event<u8>]) -> Outcome {
    replay(variant, events).into_outcome()
}

fn drive(session: Session<u8>, events: &[Event<u8>]) -> Session<u8> {
    let mut session = session;
    for event in events {
        session = session.step(*event);
    }
    session
}

#[test]
fn a_read_begins_with_the_start_signal() {
    let mut session: Session<u8> = Session::new(Variant::Dht11);
    let expected = [
        Action::DisableInterrupts,
        Action::SetLow,
        Action::DelayMs(18),
        Action::SetHigh,
        Action::DelayUs(40),
        Action::Sample(Level::High),
    ];
    for action in expected {
        assert_eq!(session.action(), action);
        assert!(!session.is_finished());
        session = session.step(Event::Done);
    }
    // `Done` does not answer a sample
    assert_eq!(session.action(), Action::Sample(Level::High));
}

#[test]
fn waits_alternate_between_high_and_low() {
    let mut session = replay::<u8>(Variant::Dht22, &start_signal());
    for wait in 0..81 {
        let level = if wait % 2 == 0 { Level::High } else { Level::Low };
        assert_eq!(session.action(), Action::Sample(level));
        session = session.step(Event::Sampled(false));
        assert_eq!(session.action(), Action::DelayUs(1));
        session = session.step(Event::Done);
        assert_eq!(session.action(), Action::Sample(level));
        session = session.step(Event::Sampled(true));
    }
    assert_eq!(session.action(), Action::Sample(Level::Low));
    session = session.step(Event::Sampled(true));
    assert_eq!(session.action(), Action::EnableInterrupts);
    session = session.step(Event::Done);
    assert_eq!(session.action(), Action::Finish);
    assert!(session.is_finished());
}

#[test]
fn a_complete_transmission_gives_its_reading() {
    let outcome = read(Variant::Dht11, &transmission([60, 0, 25, 0, 85]));
    let reading = outcome.expect("finished").expect("a reading");
    assert_eq!(reading.humidity_tenths(), 600);
    assert_eq!(reading.temperature_tenths(), 250);

    let outcome = read(Variant::Dht22, &transmission([0x02, 0x8C, 0x01, 0x05, 0x94]));
    let reading = outcome.expect("finished").expect("a reading");
    assert_eq!(reading.humidity_tenths(), 652);
    assert_eq!(reading.temperature_tenths(), 261);

    let outcome = read(Variant::Dht22, &transmission([0x02, 0x8C, 0x85, 0x0A, 0x1D]));
    let reading = outcome.expect("finished").expect("a reading");
    assert_eq!(reading.temperature_tenths(), -1290);
}

#[test]
fn a_corrupt_transmission_gives_no_reading() {
    let outcome = read(Variant::Dht11, &transmission([60, 0, 25, 0, 84]));
    assert!(matches!(outcome, Some(Err(DhtError::ChecksumMismatch(84, 85)))));
    let outcome = read(Variant::Dht22, &transmission([0x05, 0xDC, 0x00, 0xC8, 0xA9]));
    assert!(matches!(outcome, Some(Err(DhtError::InvalidData))));
}

#[test]
fn the_longest_wait_that_still_counts_is_255_ticks() {
    let mut events = start_signal();
    answered_wait(&mut events, 255);
    answered_wait(&mut events, 255);
    bit_waits(&mut events, &[60, 0, 25, 0, 85], 40);
    events.push(Event::Done);
    let outcome = read(Variant::Dht11, &events);
    assert_eq!(outcome.expect("finished").expect("a reading").humidity_tenths(), 600);
}

#[test]
fn a_silent_line_is_a_missing_sensor() {
    // the line never goes high
    let mut events = start_signal();
    silence(&mut events, 256);
    let session = replay(Variant::Dht11, &events);
    assert_eq!(session.action(), Action::EnableInterrupts);
    let outcome = session.step(Event::Done).into_outcome();
    assert!(matches!(outcome, Some(Err(DhtError::NotPresent))));

    // the line is high at once and never pulled low
    let mut events = start_signal();
    answered_wait(&mut events, 0);
    silence(&mut events, 256);
    events.push(Event::Done);
    assert!(matches!(read(Variant::Dht22, &events), Some(Err(DhtError::NotPresent))));
}

#[test]
fn a_wait_gives_up_after_256_samples_and_not_before() {
    let mut events = start_signal();
    silence(&mut events, 255);
    let session = replay(Variant::Dht11, &events);
    assert_eq!(session.action(), Action::Sample(Level::High));
    let session = session.step(Event::Sampled(false));
    assert_eq!(session.action(), Action::DelayUs(1));
    let session = session.step(Event::Done);
    assert_eq!(session.action(), Action::EnableInterrupts);
}

#[test]
fn a_stalled_transmission_times_out() {
    for bits in [0usize, 1, 7, 20, 39] {
        let mut events = start_signal();
        answered_wait(&mut events, 80);
        answered_wait(&mut events, 80);
        bit_waits(&mut events, &[60, 0, 25, 0, 85], bits);
        silence(&mut events, 256);
        events.push(Event::Done);
        assert!(matches!(read(Variant::Dht11, &events), Some(Err(DhtError::Timeout))));
    }
    // stalled in the high period of the last bit
    let mut events = start_signal();
    answered_wait(&mut events, 80);
    answered_wait(&mut events, 80);
    bit_waits(&mut events, &[60, 0, 25, 0, 85], 39);
    answered_wait(&mut events, 50);
    silence(&mut events, 256);
    events.push(Event::Done);
    assert!(matches!(read(Variant::Dht11, &events), Some(Err(DhtError::Timeout))));
}

#[test]
fn a_pin_fault_aborts_the_read() {
    // while driving the line low
    let events = [Event::Done, Event::Fault(3u8)];
    let session = replay(Variant::Dht11, &events);
    assert_eq!(session.action(), Action::EnableInterrupts);
    let outcome = session.step(Event::Done).into_outcome();
    assert!(matches!(outcome, Some(Err(DhtError::PinError(3)))));

    // while releasing it
    let events = [Event::Done, Event::Done, Event::Done, Event::Fault(4u8), Event::Done];
    assert!(matches!(read(Variant::Dht11, &events), Some(Err(DhtError::PinError(4)))));

    // while sampling, in the middle of the transmission
    let mut events = start_signal();
    answered_wait(&mut events, 80);
    answered_wait(&mut events, 80);
    bit_waits(&mut events, &[60, 0, 25, 0, 85], 12);
    silence(&mut events, 9);
    events.push(Event::Fault(5));
    events.push(Event::Done);
    assert!(matches!(read(Variant::Dht22, &events), Some(Err(DhtError::PinError(5)))));
}

#[test]
fn events_that_answer_nothing_are_ignored() {
    let session: Session<u8> = Session::new(Variant::Dht11);
    let session = session.step(Event::Sampled(true));
    assert_eq!(session.action(), Action::DisableInterrupts);
    let session = session.step(Event::Fault(1));
    assert_eq!(session.action(), Action::DisableInterrupts);
    let session = drive(session, &[Event::Done, Event::Done]);
    // a delay cannot fail and is not a sample
    assert_eq!(session.action(), Action::DelayMs(18));
    let session = drive(session, &[Event::Fault(1), Event::Sampled(false)]);
    assert_eq!(session.action(), Action::DelayMs(18));
}

#[test]
fn an_unfinished_read_has_no_outcome() {
    assert!(read(Variant::Dht11, &[]).is_none());
    assert!(read(Variant::Dht11, &start_signal()).is_none());
    let mut events = transmission([60, 0, 25, 0, 85]);
    events.pop();
    // settled, but interrupts are still suspended
    let session = replay(Variant::Dht11, &events);
    assert_eq!(session.action(), Action::EnableInterrupts);
    assert!(!session.is_finished());
    assert!(session.into_outcome().is_none());
}

#[test]
fn a_finished_read_stays_finished() {
    let session = replay(Variant::Dht11, &transmission([60, 0, 25, 0, 85]));
    let session = drive(
        session,
        &[Event::Done, Event::Sampled(true), Event::Sampled(false), Event::Fault(9)],
    );
    assert_eq!(session.action(), Action::Finish);
    let reading = session.into_outcome().expect("finished").expect("a reading");
    assert_eq!(reading.humidity_tenths(), 600);
}

#[test]
fn successive_reads_are_independent() {
    // a read that fails half way leaves nothing behind for the next one
    let mut stalled = start_signal();
    answered_wait(&mut stalled, 80);
    answered_wait(&mut stalled, 80);
    bit_waits(&mut stalled, &[0xff, 0xff, 0xff, 0xff, 0xff], 23);
    silence(&mut stalled, 256);
    stalled.push(Event::Done);

    let session = replay(Variant::Dht22, &stalled);
    assert_eq!(session.variant(), Variant::Dht22);
    let session = session.restart();
    assert_eq!(session.action(), Action::DisableInterrupts);
    let session = drive(session, &transmission([0x02, 0x8C, 0x01, 0x05, 0x94]));
    let again = session.into_outcome().expect("finished").expect("a reading");

    let fresh = read(Variant::Dht22, &transmission([0x02, 0x8C, 0x01, 0x05, 0x94]))
        .expect("finished")
        .expect("a reading");
    assert_eq!(again.humidity_tenths(), fresh.humidity_tenths());
    assert_eq!(again.temperature_tenths(), fresh.temperature_tenths());
    assert_eq!(again.humidity_tenths(), 652);
    assert_eq!(again.temperature_tenths(), 261);

    // and a good read does not help the failing one that follows it
    let session = replay(Variant::Dht22, &transmission([0x02, 0x8C, 0x01, 0x05, 0x94]));
    let session = drive(session.restart(), &stalled);
    assert!(matches!(session.into_outcome(), Some(Err(DhtError::Timeout))));
}

struct CountingGuard {
    disabled: u32,
    enabled: u32,
}

impl InterruptControl for CountingGuard {
    fn enable_interrupts(&mut self) {
        self.enabled += 1;
    }

    fn disable_interrupts(&mut self) {
        self.disabled += 1;
    }
}

fn guarded_read(guard: &mut impl InterruptControl, events: &[Event<u8>]) -> Outcome {
    let mut session: Session<u8> = Session::new(Variant::Dht11);
    let mut events = events.iter();
    loop {
        match session.action() {
            Action::Finish => return session.into_outcome(),
            Action::DisableInterrupts => guard.disable_interrupts(),
            Action::EnableInterrupts => guard.enable_interrupts(),
            _ => {}
        }
        match events.next() {
            Some(event) => session = session.step(*event),
            None => return session.into_outcome(),
        }
    }
}

#[test]
fn interrupts_are_let_through_again_however_the_read_ends() {
    let mut failing = start_signal();
    silence(&mut failing, 256);
    failing.push(Event::Done);
    let faulty = [Event::Done, Event::Fault(3u8), Event::Done];
    let scripts = [transmission([60, 0, 25, 0, 85]), failing, faulty.to_vec()];
    for script in scripts {
        let mut guard = CountingGuard { disabled: 0, enabled: 0 };
        assert!(guarded_read(&mut guard, &script).is_some());
        assert_eq!(guard.disabled, 1);
        assert_eq!(guard.enabled, 1);
    }
}

#[test]
fn the_noop_guard_does_nothing() {
    let mut guard = NoopInterruptControl;
    let outcome = guarded_read(&mut guard, &transmission([60, 0, 25, 0, 85]));
    assert_eq!(outcome.expect("finished").expect("a reading").temperature_tenths(), 250);
}
