use chip8_core::clock::Clock;
use chip8_core::cpu::timer::Timer;

#[test]
fn clock_sleeps_until_the_instruction_is_due() {
    let mut clock = Clock::new(4);
    clock.start(1_000);
    // one instruction is given 250_000 us
    assert_eq!(clock.tick(1_000 + 100_000), 150_000);
    assert_eq!(clock.tick(1_000 + 600_000), 0);
    assert_eq!(clock.tick(1_000 + 700_000), 50_000);
    // the fourth tick completes the run of one second
    assert_eq!(clock.tick(1_000 + 900_000), 100_000);
    // the next run is measured from 1_001_000
    assert_eq!(clock.tick(1_001_000), 250_000);
}

#[test]
fn clock_speed_change_applies_at_once() {
    let mut clock = Clock::new(1);
    clock.set_speed(10);
    clock.start(0);
    assert_eq!(clock.tick(0), 100_000);
}

#[test]
fn timer_paced_by_cycles() {
    let mut timer = Timer::new(120);
    timer.tick();
    assert_eq!(timer.decrease_by(), 0);
    timer.start();
    timer.tick();
    assert_eq!(timer.decrease_by(), 0);
    timer.tick();
    assert_eq!(timer.decrease_by(), 1);
    timer.tick();
    assert_eq!(timer.decrease_by(), 0);
    timer.stop();
    timer.tick();
    assert_eq!(timer.decrease_by(), 0);
}

#[test]
fn slow_processor_counts_down_by_more() {
    let mut timer = Timer::new(20);
    timer.start();
    timer.tick();
    assert_eq!(timer.decrease_by(), 3);
    timer.set_speed(60);
    timer.tick();
    assert_eq!(timer.decrease_by(), 1);
}

#[test]
fn clock_above_a_million_per_second_never_sleeps() {
    let mut clock = Clock::new(2_000_000);
    clock.start(5);
    assert_eq!(clock.tick(5), 0);
    clock.set_speed(1);
    assert_eq!(clock.tick(5), 2_000_000);
    assert_eq!(clock.tick(5 + 2_000_000), 1_000_000);
}
