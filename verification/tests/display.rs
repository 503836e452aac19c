use blue_time::control::PhaseEnd;
use blue_time::display::{
    fill_phase_end_body, phase_end_body, phase_end_title, replace,
    clock_text, cycle_dots, format_duration, phase_class, push_decimal, status_text, toggle_control,
};
use blue_time::timer::{Durations, Phase, State, Timer};

#[test]
fn clock_pads_to_two_digits() {
    assert_eq!(clock_text(0), "00:00");
    assert_eq!(clock_text(125), "02:05");
    assert_eq!(clock_text(1500), "25:00");
    assert_eq!(clock_text(6000), "100:00");
    assert_eq!(clock_text(59), "00:59");
}

#[test]
fn decimal_digits() {
    let mut s = String::from("x");
    push_decimal(&mut s, 0);
    push_decimal(&mut s, 907);
    push_decimal(&mut s, u64::MAX);
    assert_eq!(s, format!("x0907{}", u64::MAX));
}

#[test]
fn focus_totals() {
    assert_eq!(format_duration(0), "0min");
    assert_eq!(format_duration(1500), "25min");
    assert_eq!(format_duration(3600), "1h 00min");
    assert_eq!(format_duration(7500), "2h 05min");
    assert_eq!(format_duration(3599), "59min");
}

#[test]
fn status_line_states() {
    let d = Durations { focus: 1500, short_break: 300, long_break: 900, sessions_until_long_break: 4 };
    let mut t = Timer::new(d);
    assert_eq!(status_text(&t, "Focus", "paused"), "Blue Time");
    t.start();
    assert_eq!(status_text(&t, "Focus", "paused"), "Focus — 25:00");
    t.tick();
    t.pause();
    assert_eq!(status_text(&t, "Focus", "paused"), "Focus — 24:59 (paused)");
    t.skip();
    assert_eq!(status_text(&t, "Short Break", "paused"), "Short Break — 05:00");
}

#[test]
fn controls_and_classes() {
    assert_eq!(toggle_control(State::Running), ("media-playback-pause-symbolic", "Pause"));
    assert_eq!(toggle_control(State::Paused), ("media-playback-start-symbolic", "Resume"));
    assert_eq!(toggle_control(State::Idle), ("media-playback-start-symbolic", "Start"));
    assert_eq!(phase_class(Phase::Focus), "phase-focus");
    assert_eq!(phase_class(Phase::ShortBreak), "phase-break");
    assert_eq!(phase_class(Phase::LongBreak), "phase-long-break");
}

#[test]
fn dots_follow_cycle() {
    let d = Durations { focus: 3, short_break: 2, long_break: 4, sessions_until_long_break: 4 };
    let mut t = Timer::new(d);
    assert_eq!(cycle_dots(&t), vec![false, false, false, false]);
    t.skip();
    t.skip();
    t.skip();
    assert_eq!(cycle_dots(&t), vec![true, true, false, false]);
}

#[test]
fn replace_matches_std() {
    for (text, pat, with) in [
        ("Time for a %s (%d min)", "%s", "short break"),
        ("%d%d%d", "%d", "7"),
        ("aaa", "aa", "b"),
        ("no pattern", "%s", "x"),
        ("", "%s", "x"),
        ("é%sü", "%s", "—"),
        ("ab", "abc", "x"),
    ] {
        assert_eq!(replace(text, pat, with), text.replace(pat, with));
    }
}

#[test]
fn notification_bodies() {
    let focus_end = PhaseEnd {
        finished: Phase::Focus,
        next: Phase::ShortBreak,
        next_minutes: 5,
        play_sound: true,
        auto_started: false,
    };
    assert_eq!(
        phase_end_body(&focus_end, "Time for a %s (%d min)", "Time to focus (%d min)", "Short Break"),
        "Time for a short break (5 min)"
    );
    let break_end = PhaseEnd { finished: Phase::LongBreak, next: Phase::Focus, next_minutes: 25, ..focus_end };
    assert_eq!(
        phase_end_body(&break_end, "Time for a %s (%d min)", "Time to focus (%d min)", "focus"),
        "Time to focus (25 min)"
    );
    // A `%d` inside the filled-in name is filled too, as with chained `replace`.
    assert_eq!(fill_phase_end_body(&focus_end, "%s!", "", "%d"), "5!");
    assert_eq!(phase_end_body(&focus_end, "%s!", "", "ÉTÉ"), "été!");
    assert_eq!(phase_end_title(&focus_end, "Focus session complete", "Break is over"), "Focus session complete");
    assert_eq!(phase_end_title(&break_end, "Focus session complete", "Break is over"), "Break is over");
}
