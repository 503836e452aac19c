use blue_time::timer::{Durations, Phase, State, Tick, Timer};

fn short() -> Durations {
    Durations {
        focus: 3,
        short_break: 2,
        long_break: 4,
        sessions_until_long_break: 2,
    }
}

fn run_to_completion(timer: &mut Timer) -> Phase {
    timer.start();
    loop {
        if let Tick::Finished(phase) = timer.tick() {
            return phase;
        }
    }
}

#[test]
fn starts_idle_on_focus() {
    let t = Timer::new(short());
    assert_eq!(t.phase(), Phase::Focus);
    assert_eq!(t.state(), State::Idle);
    assert_eq!(t.remaining(), 3);
}

#[test]
fn tick_does_nothing_unless_running() {
    let mut t = Timer::new(short());
    assert_eq!(t.tick(), Tick::Counting);
    assert_eq!(t.remaining(), 3);
}

#[test]
fn counts_down_and_finishes_focus() {
    let mut t = Timer::new(short());
    t.start();
    assert_eq!(t.tick(), Tick::Counting);
    assert_eq!(t.tick(), Tick::Counting);
    assert_eq!(t.tick(), Tick::Finished(Phase::Focus));
    assert_eq!(t.phase(), Phase::ShortBreak);
    assert_eq!(t.state(), State::Idle);
    assert_eq!(t.remaining(), 2);
}

#[test]
fn long_break_after_configured_sessions() {
    let mut t = Timer::new(short());
    assert_eq!(run_to_completion(&mut t), Phase::Focus);
    assert_eq!(t.phase(), Phase::ShortBreak);
    assert_eq!(run_to_completion(&mut t), Phase::ShortBreak);
    assert_eq!(run_to_completion(&mut t), Phase::Focus);
    assert_eq!(t.phase(), Phase::LongBreak);
    assert_eq!(run_to_completion(&mut t), Phase::LongBreak);
    assert_eq!(t.phase(), Phase::Focus);
    assert_eq!(t.cycle_count(), 0);
}

#[test]
fn pause_and_resume() {
    let mut t = Timer::new(short());
    t.start();
    t.tick();
    t.pause();
    assert_eq!(t.state(), State::Paused);
    assert_eq!(t.tick(), Tick::Counting);
    assert_eq!(t.remaining(), 2);
    t.toggle();
    assert_eq!(t.state(), State::Running);
}

#[test]
fn reset_restores_full_phase() {
    let mut t = Timer::new(short());
    t.start();
    t.tick();
    t.reset();
    assert_eq!(t.state(), State::Idle);
    assert_eq!(t.remaining(), 3);
    assert_eq!(t.phase(), Phase::Focus);
}

#[test]
fn skip_advances_cycle() {
    let mut t = Timer::new(short());
    t.skip();
    assert_eq!(t.phase(), Phase::ShortBreak);
    assert_eq!(t.cycle_count(), 1);
    t.skip();
    assert_eq!(t.phase(), Phase::Focus);
}

#[test]
fn set_durations_refreshes_idle_phase() {
    let mut t = Timer::new(short());
    let mut d = short();
    d.focus = 10;
    t.set_durations(d);
    assert_eq!(t.remaining(), 10);

    t.start();
    t.tick();
    d.focus = 20;
    t.set_durations(d);
    assert_eq!(t.remaining(), 9);
}

// The cycle: with a cadence of `n`, `2n - 1` phase changes from a fresh
// cycle reach the long break, and `2n` start a fresh cycle again.
#[test]
fn full_cycle_returns_to_fresh_focus() {
    for n in 1..6u32 {
        let d = Durations { sessions_until_long_break: n, ..short() };
        let mut t = Timer::new(d);
        for k in 0..(2 * n - 1) {
            let expected = if k % 2 == 0 { Phase::Focus } else { Phase::ShortBreak };
            assert_eq!(t.phase(), expected);
            assert_eq!(t.cycle_count(), (k + 1) / 2);
            t.skip();
        }
        assert_eq!(t.phase(), Phase::LongBreak);
        assert_eq!(t.cycle_count(), n);
        t.skip();
        assert_eq!(t.phase(), Phase::Focus);
        assert_eq!(t.cycle_count(), 0);
        assert_eq!(t.state(), State::Idle);
        assert_eq!(t.remaining(), 3);
    }
}

// A cadence of zero sends every focus session to a long break.
#[test]
fn zero_cadence_behaves_as_one() {
    let d = Durations { sessions_until_long_break: 0, ..short() };
    let mut t = Timer::new(d);
    t.skip();
    assert_eq!(t.phase(), Phase::LongBreak);
    assert_eq!(t.cycle_count(), 1);
    t.skip();
    assert_eq!(t.phase(), Phase::Focus);
    assert_eq!(t.cycle_count(), 0);
}

// A running countdown of `r` seconds finishes on the `r`-th tick.
#[test]
fn countdown_finishes_on_last_second() {
    let mut t = Timer::new(Durations { focus: 5, ..short() });
    t.start();
    for left in (1..5).rev() {
        assert_eq!(t.tick(), Tick::Counting);
        assert_eq!(t.remaining(), left);
        assert_eq!(t.state(), State::Running);
    }
    assert_eq!(t.tick(), Tick::Finished(Phase::Focus));
    assert_eq!(t.state(), State::Idle);
}

// Pausing and toggling again resumes where the countdown was.
#[test]
fn pause_then_toggle_resumes_unchanged() {
    let mut t = Timer::new(short());
    t.start();
    t.tick();
    t.pause();
    t.toggle();
    assert_eq!(t.state(), State::Running);
    assert_eq!(t.remaining(), 2);
    assert_eq!(t.phase(), Phase::Focus);
}

// An idle timer started after its countdown ran out is refilled; a zero
// focus length finishes on the first tick.
#[test]
fn zero_length_phase_finishes_at_once() {
    let mut t = Timer::new(Durations { focus: 0, ..short() });
    t.start();
    assert_eq!(t.remaining(), 0);
    assert_eq!(t.tick(), Tick::Finished(Phase::Focus));
    assert_eq!(t.phase(), Phase::ShortBreak);
}

#[test]
fn set_durations_keeps_paused_countdown() {
    let mut t = Timer::new(short());
    t.start();
    t.tick();
    t.pause();
    t.set_durations(Durations { focus: 100, ..short() });
    assert_eq!(t.remaining(), 2);
    assert_eq!(t.durations().focus, 100);
    t.reset();
    assert_eq!(t.remaining(), 100);
}

#[test]
fn labels_and_breaks() {
    assert_eq!(Phase::Focus.label(), "Focus");
    assert_eq!(Phase::ShortBreak.label(), "Short Break");
    assert_eq!(Phase::LongBreak.label(), "Long Break");
    assert!(!Phase::Focus.is_break());
    assert!(Phase::ShortBreak.is_break());
    assert!(Phase::LongBreak.is_break());
    assert_eq!(Durations::default(), Durations { focus: 1500, short_break: 300, long_break: 900, sessions_until_long_break: 4 });
}

// Every operation other than changing durations keeps the count of focus
// sessions below the cadence, or at it during a long break.
#[test]
fn cycle_position_kept_by_operations() {
    let d = Durations { sessions_until_long_break: 3, ..short() };
    let mut t = Timer::new(d);
    for step in 0..40u32 {
        match step % 5 {
            0 => t.start(),
            1 => {
                t.tick();
            }
            2 => t.toggle(),
            3 => t.skip(),
            _ => t.pause(),
        }
        if t.phase() == Phase::LongBreak {
            assert_eq!(t.cycle_count(), 3);
        } else {
            assert!(t.cycle_count() < 3);
        }
        if t.phase() == Phase::ShortBreak {
            assert!(t.cycle_count() >= 1);
        }
    }
}

// Start, pause, toggle and reset never change the phase or the cycle.
#[test]
fn controls_keep_phase_and_cycle() {
    let mut t = Timer::new(short());
    t.skip();
    t.skip();
    let (phase, cycle) = (t.phase(), t.cycle_count());
    t.start();
    t.pause();
    t.toggle();
    t.toggle();
    t.reset();
    t.reset();
    assert_eq!((t.phase(), t.cycle_count()), (phase, cycle));
    assert_eq!(t.remaining(), 3);
}

// Finishing or skipping a focus session counts exactly one more session.
#[test]
fn focus_end_counts_one_more() {
    let d = Durations { sessions_until_long_break: 10, ..short() };
    let mut t = Timer::new(d);
    for n in 1..10u32 {
        let before = t.cycle_count();
        assert_eq!(t.phase(), Phase::Focus);
        if n % 2 == 0 {
            t.skip();
        } else {
            t.start();
            while t.tick() == Tick::Counting {}
        }
        assert_eq!(t.cycle_count(), before + 1);
        t.skip();
    }
}

// An idle timer holds the full length of its phase, and the countdown never
// exceeds it unless the durations shrink mid-countdown.
#[test]
fn idle_timer_holds_full_phase() {
    let mut t = Timer::new(short());
    for step in 0..40u32 {
        match step % 6 {
            0 => t.start(),
            1 | 2 => {
                t.tick();
            }
            3 => t.toggle(),
            4 => t.skip(),
            _ => t.reset(),
        }
        let full = t.durations().for_phase(t.phase());
        if t.state() == State::Idle {
            assert_eq!(t.remaining(), full);
        }
        assert!(t.remaining() <= full);
    }
    t.start();
    t.set_durations(Durations { focus: 1, short_break: 1, long_break: 1, ..short() });
    t.reset();
    assert_eq!(t.remaining(), 1);
}
