//! A Pomodoro timer: the session state machine, its settings, the
//! completed-session history and the rules behind what the indicator and
//! the window show.
pub mod timer;
pub mod config;
pub mod stats;
pub mod control;
pub mod display;
pub mod icon;
pub mod autostart;
