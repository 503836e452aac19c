use blue_time::config::Config;
use blue_time::control::{handle_command, on_tick, Command, WindowRequest};
use blue_time::stats::Stats;
use blue_time::timer::{Durations, Phase, State, Timer};

fn short() -> Durations {
    Durations { focus: 3, short_break: 2, long_break: 4, sessions_until_long_break: 2 }
}

#[test]
fn commands_drive_the_timer() {
    let mut t = Timer::new(short());
    assert_eq!(handle_command(&mut t, Command::Toggle), WindowRequest::Refresh);
    assert_eq!(t.state(), State::Running);
    assert_eq!(handle_command(&mut t, Command::Toggle), WindowRequest::Refresh);
    assert_eq!(t.state(), State::Paused);
    assert_eq!(handle_command(&mut t, Command::Reset), WindowRequest::Refresh);
    assert_eq!(t.state(), State::Idle);
    assert_eq!(handle_command(&mut t, Command::Skip), WindowRequest::Refresh);
    assert_eq!(t.phase(), Phase::ShortBreak);
    assert_eq!(handle_command(&mut t, Command::ShowWindow), WindowRequest::Present);
    assert_eq!(handle_command(&mut t, Command::Quit), WindowRequest::Quit);
    assert_eq!(t.phase(), Phase::ShortBreak);
    assert_eq!(t.state(), State::Idle);
}

#[test]
fn finished_focus_is_recorded_and_break_waits() {
    let config = Config::default();
    let mut t = Timer::new(short());
    let mut stats = Stats::default();
    t.start();
    assert_eq!(on_tick(&mut t, &mut stats, &config), None);
    assert_eq!(on_tick(&mut t, &mut stats, &config), None);
    let end = on_tick(&mut t, &mut stats, &config).unwrap();
    assert_eq!(end.finished, Phase::Focus);
    assert_eq!(end.next, Phase::ShortBreak);
    assert_eq!(end.next_minutes, 0);
    assert!(end.play_sound);
    assert!(!end.auto_started);
    assert_eq!(t.state(), State::Idle);
    assert_eq!(stats.sessions.len(), 1);
    assert_eq!(stats.sessions[0].duration, 1500);
}

#[test]
fn auto_start_follows_settings() {
    let config = Config { auto_start_breaks: true, play_sound: false, ..Config::default() };
    let mut t = Timer::new(short());
    let mut stats = Stats::default();
    t.start();
    on_tick(&mut t, &mut stats, &config);
    on_tick(&mut t, &mut stats, &config);
    let end = on_tick(&mut t, &mut stats, &config).unwrap();
    assert!(end.auto_started);
    assert!(!end.play_sound);
    assert_eq!(t.state(), State::Running);
    assert_eq!(t.phase(), Phase::ShortBreak);
    // The break ends; focus does not start by itself, and nothing is recorded.
    on_tick(&mut t, &mut stats, &config);
    let end = on_tick(&mut t, &mut stats, &config).unwrap();
    assert_eq!(end.finished, Phase::ShortBreak);
    assert_eq!(end.next, Phase::Focus);
    assert!(!end.auto_started);
    assert_eq!(t.state(), State::Idle);
    assert_eq!(stats.sessions.len(), 1);
}

#[test]
fn next_minutes_of_long_phase() {
    let config = Config::default();
    let mut t = Timer::new(Durations { focus: 1, short_break: 300, ..short() });
    let mut stats = Stats::default();
    t.start();
    let end = on_tick(&mut t, &mut stats, &config).unwrap();
    assert_eq!(end.next_minutes, 5);
}

#[test]
fn idle_tick_changes_nothing() {
    let config = Config::default();
    let mut t = Timer::new(short());
    let mut stats = Stats::default();
    assert_eq!(on_tick(&mut t, &mut stats, &config), None);
    assert_eq!(t.remaining(), 3);
    assert!(stats.sessions.is_empty());
}
