use chip8_emulator::timer::{pacing_delay, TimerClock, CYCLE_MICROS};

#[test]
fn a_pulse_comes_every_sixtieth_of_a_second() {
    let mut clock = TimerClock::new(1_000);
    assert_eq!(clock.drain(1_000), 0);
    // 16 666 microseconds are just short of a sixtieth of a second.
    assert_eq!(clock.drain(1_000 + 16_666), 0);
    assert_eq!(clock.drain(1_000 + 16_667), 1);
    assert_eq!(clock.drain(1_000 + 16_667), 0);
    assert_eq!(clock.drain(1_000 + 33_333), 0);
    assert_eq!(clock.drain(1_000 + 33_334), 1);
    assert_eq!(clock.drain(1_000 + 50_000), 1);
}

#[test]
fn pulses_that_came_due_together_are_handed_out_together() {
    let mut clock = TimerClock::new(0);
    assert_eq!(clock.drain(1_000_000), 60);
    assert_eq!(clock.drain(1_000_000), 0);
    assert_eq!(clock.drain(3_600_000_000), 216_000 - 60);
}

#[test]
fn sixty_hertz_does_not_drift() {
    let mut clock = TimerClock::new(7);
    let mut total = 0;
    let mut now = 7;
    while now < 7 + 10_000_000 {
        now += 1_234;
        total += clock.drain(now);
    }
    assert_eq!(total, (now - 7) * 60 / 1_000_000);
    assert_eq!(total, 600);
}

#[test]
fn a_clock_handles_time_that_does_not_advance() {
    let mut clock = TimerClock::new(1_000_000);
    assert_eq!(clock.drain(0), 0);
    assert_eq!(clock.drain(999_999), 0);
    assert_eq!(clock.drain(1_100_000), 6);
    // The time steps back: nothing is due until it has caught up.
    assert_eq!(clock.drain(1_050_000), 0);
    assert_eq!(clock.drain(1_100_000), 0);
    assert_eq!(clock.drain(1_116_667), 1);
}

#[test]
fn a_clock_counts_to_the_end_of_time() {
    let mut clock = TimerClock::new(0);
    assert_eq!(clock.drain(u64::MAX), 1_106_804_644_422_573);
    assert_eq!(clock.drain(u64::MAX), 0);
    let mut late = TimerClock::new(u64::MAX - 16_667);
    assert_eq!(late.drain(u64::MAX), 1);
}

#[test]
fn many_drainings_in_one_period_hand_out_at_most_one_pulse() {
    let mut clock = TimerClock::new(0);
    clock.drain(40_000);
    let mut total = 0;
    for step in 0..1000u64 {
        total += clock.drain(40_000 + step * 16);
    }
    // 40 000 to 55 984 microseconds: the third pulse comes due at 50 000.
    assert_eq!(total, 1);
}

#[test]
fn pacing_fills_a_cycle_up_to_two_milliseconds() {
    assert_eq!(CYCLE_MICROS, 2000);
    assert_eq!(pacing_delay(0), Some(2000));
    assert_eq!(pacing_delay(1), Some(1999));
    assert_eq!(pacing_delay(1999), Some(1));
    assert_eq!(pacing_delay(2000), None);
    assert_eq!(pacing_delay(u64::MAX), None);
}
