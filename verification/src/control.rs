//! The decisions of the running program: what a command from the indicator
//! menu does to the timer, and what happens when a session ends. The program
//! around the library performs what is decided here (showing the window,
//! notifying, playing the sound, saving the history).
use vstd::prelude::*;

use crate::config::Config;
use crate::stats::Stats;
use crate::timer::{Phase, State, Tick, Timer, TimerView};

verus! {

/// A request from the top bar indicator's menu.
#[derive(Debug, Clone, Copy, PartialEq, Eq, Structural)]
pub enum Command {
    Toggle,
    Skip,
    Reset,
    ShowWindow,
    Quit,
}

/// What is left to the window system once a command has been applied.
#[derive(Debug, Clone, Copy, PartialEq, Eq, Structural)]
pub enum WindowRequest {
    /// Only refresh what is shown.
    Refresh,
    /// Bring the main window to the front.
    Present,
    /// Leave the application.
    Quit,
}

/// The timer after a command.
pub open spec fn commanded(v: TimerView, command: Command) -> TimerView {
    match command {
        Command::Toggle => v.toggled(),
        Command::Skip => v.advanced(),
        Command::Reset => v.reset(),
        Command::ShowWindow | Command::Quit => v,
    }
}

/// The window system's part of a command.
pub open spec fn window_request(command: Command) -> WindowRequest {
    match command {
        Command::ShowWindow => WindowRequest::Present,
        Command::Quit => WindowRequest::Quit,
        _ => WindowRequest::Refresh,
    }
}

/// Apply a command to the timer; returns what the window system must do.
pub fn handle_command(timer: &mut Timer, command: Command) -> (request: WindowRequest)
    ensures
        final(timer)@ == commanded(old(timer)@, command),
        request == window_request(command),
        command == Command::Toggle ==> final(timer)@ == old(timer)@.toggled(),
        command == Command::Skip ==> final(timer)@ == old(timer)@.advanced(),
        command == Command::Reset ==> final(timer)@ == old(timer)@.reset(),
        command == Command::ShowWindow || command == Command::Quit ==> final(timer)@ == old(
            timer,
        )@,
{
    match command {
        Command::Toggle => {
            timer.toggle();
            WindowRequest::Refresh
        },
        Command::Skip => {
            timer.skip();
            WindowRequest::Refresh
        },
        Command::Reset => {
            timer.reset();
            WindowRequest::Refresh
        },
        Command::ShowWindow => WindowRequest::Present,
        Command::Quit => WindowRequest::Quit,
    }
}

/// The menu's commands act on the timer as the timer's own operations do:
/// Toggle pauses a running countdown where it stands and resumes a paused
/// one where it was paused (or starts an idle one); Skip moves to the next
/// phase, idle; Reset restores the full phase, idle; Show Window and Quit
/// leave the timer as it is and go to the window system.
pub proof fn lemma_menu_commands_act_on_timer(v: TimerView)
    ensures
        commanded(v, Command::Toggle) == v.toggled(),
        commanded(v, Command::Skip) == v.advanced(),
        commanded(v, Command::Reset) == v.reset(),
        commanded(v, Command::ShowWindow) == v,
        commanded(v, Command::Quit) == v,
        v.state == State::Paused && v.remaining > 0 ==> commanded(v, Command::Toggle) == (
        TimerView { state: State::Running, ..v }),
        v.state == State::Running ==> commanded(v, Command::Toggle) == (TimerView {
            state: State::Paused,
            ..v
        }),
        v.state == State::Idle ==> commanded(v, Command::Toggle).state == State::Running
            && commanded(v, Command::Toggle).phase == v.phase,
        commanded(v, Command::Reset).state == State::Idle && commanded(v, Command::Reset).remaining
            == v.durations.length_of(v.phase) && commanded(v, Command::Reset).phase == v.phase,
        commanded(v, Command::Skip).state == State::Idle,
        window_request(Command::Toggle) == WindowRequest::Refresh,
        window_request(Command::Skip) == WindowRequest::Refresh,
        window_request(Command::Reset) == WindowRequest::Refresh,
        window_request(Command::ShowWindow) == WindowRequest::Present,
        window_request(Command::Quit) == WindowRequest::Quit,
{
}

/// What to tell the user when a session ends.
#[derive(Debug, Clone, Copy, PartialEq, Eq, Structural)]
pub struct PhaseEnd {
    /// The phase that just ended.
    pub finished: Phase,
    /// The phase now ahead.
    pub next: Phase,
    /// Whole minutes of the phase now ahead.
    pub next_minutes: u32,
    /// Whether to play the end-of-session sound.
    pub play_sound: bool,
    /// Whether the next session was started right away.
    pub auto_started: bool,
}

/// Whether the configuration starts the session that follows `finished` by
/// itself: breaks after focus, focus after breaks.
pub open spec fn auto_starts(config: Config, finished: Phase) -> bool {
    if finished == Phase::Focus {
        config.auto_start_breaks
    } else {
        config.auto_start_focus
    }
}

/// React to the end of a session of phase `finished`, the timer having
/// already moved to the next phase: a finished focus session is added to the
/// history with the configured focus length; the next session is started
/// when the configuration asks for it.
pub fn on_phase_finished(timer: &mut Timer, stats: &mut Stats, config: &Config, finished: Phase) -> (end: PhaseEnd)
    requires
        finished == Phase::Focus ==> config.fits_in_seconds(),
    ensures
        end.finished == finished,
        end.next == old(timer)@.phase,
        end.next_minutes == old(timer)@.remaining / 60,
        end.play_sound == config.play_sound,
        end.auto_started == auto_starts(*config, finished),
        final(timer)@ == (if end.auto_started {
            old(timer)@.started()
        } else {
            old(timer)@
        }),
        finished == Phase::Focus ==> {
            &&& final(stats).sessions@.len() == old(stats).sessions@.len() + 1
            &&& final(stats).sessions@.drop_last() == old(stats).sessions@
            &&& final(stats).sessions@.last().duration == config.durations_spec().focus
        },
        finished != Phase::Focus ==> final(stats).sessions@ == old(stats).sessions@,
{
    if finished == Phase::Focus {
        stats.record_focus(config.durations().focus);
    }
    let next = timer.phase();
    let next_minutes = timer.remaining() / 60;
    let auto_started = match finished {
        Phase::Focus => config.auto_start_breaks,
        _ => config.auto_start_focus,
    };
    if auto_started {
        timer.start();
    }
    PhaseEnd { finished, next, next_minutes, play_sound: config.play_sound, auto_started }
}

/// The once-per-second heartbeat: tick the timer and, when a session ends,
/// react to it.
pub fn on_tick(timer: &mut Timer, stats: &mut Stats, config: &Config) -> (end: Option<PhaseEnd>)
    requires
        old(timer)@.ticked().0 == Tick::Finished(Phase::Focus) ==> config.fits_in_seconds(),
    ensures
        match end {
            None => {
                &&& old(timer)@.ticked().0 == Tick::Counting
                &&& final(timer)@ == old(timer)@.ticked().1
                &&& final(stats).sessions@ == old(stats).sessions@
            },
            Some(e) => {
                let after = old(timer)@.ticked().1;
                &&& old(timer)@.ticked().0 == Tick::Finished(e.finished)
                &&& e.next == after.phase
                &&& e.next_minutes == after.remaining / 60
                &&& e.play_sound == config.play_sound
                &&& e.auto_started == auto_starts(*config, e.finished)
                &&& final(timer)@ == (if e.auto_started {
                    after.started()
                } else {
                    after
                })
                &&& e.finished == Phase::Focus ==> {
                    &&& final(stats).sessions@.len() == old(stats).sessions@.len() + 1
                    &&& final(stats).sessions@.drop_last() == old(stats).sessions@
                    &&& final(stats).sessions@.last().duration == config.durations_spec().focus
                }
                &&& e.finished != Phase::Focus ==> final(stats).sessions@ == old(stats).sessions@
            },
        },
{
    match timer.tick() {
        Tick::Finished(finished) => Some(on_phase_finished(timer, stats, config, finished)),
        Tick::Counting => None,
    }
}

} // verus!
