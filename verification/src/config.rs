//! Application settings. Reading and writing them as JSON is left to the
//! program around the library.
use vstd::prelude::*;

use crate::timer::{classic_durations, Durations};

verus! {

/// User settings; durations are in minutes.
#[derive(Debug, Clone, Copy, PartialEq, Eq, Structural)]
pub struct Config {
    /// Focus session length in minutes.
    pub focus_minutes: u32,
    /// Short break length in minutes.
    pub short_break_minutes: u32,
    /// Long break length in minutes.
    pub long_break_minutes: u32,
    /// Number of focus sessions before a long break.
    pub sessions_until_long_break: u32,
    /// Automatically start breaks when a focus session ends.
    pub auto_start_breaks: bool,
    /// Automatically start the next focus session when a break ends.
    pub auto_start_focus: bool,
    /// Play a sound when a session ends.
    pub play_sound: bool,
}

/// The settings of a fresh installation: classic Pomodoro lengths, no
/// auto-start, sound on.
pub open spec fn default_config() -> Config {
    Config {
        focus_minutes: 25,
        short_break_minutes: 5,
        long_break_minutes: 15,
        sessions_until_long_break: 4,
        auto_start_breaks: false,
        auto_start_focus: false,
        play_sound: true,
    }
}

impl Default for Config {
    fn default() -> (c: Self)
        ensures
            c == default_config(),
    {
        Self {
            focus_minutes: 25,
            short_break_minutes: 5,
            long_break_minutes: 15,
            sessions_until_long_break: 4,
            auto_start_breaks: false,
            auto_start_focus: false,
            play_sound: true,
        }
    }
}

impl Config {
    /// Every length in minutes converts to seconds within a `u32`.
    pub open spec fn fits_in_seconds(self) -> bool {
        &&& self.focus_minutes * 60 <= u32::MAX
        &&& self.short_break_minutes * 60 <= u32::MAX
        &&& self.long_break_minutes * 60 <= u32::MAX
    }

    /// The session lengths in seconds, with the same cadence.
    pub open spec fn durations_spec(self) -> Durations {
        Durations {
            focus: (self.focus_minutes * 60) as u32,
            short_break: (self.short_break_minutes * 60) as u32,
            long_break: (self.long_break_minutes * 60) as u32,
            sessions_until_long_break: self.sessions_until_long_break,
        }
    }

    /// Whether `durations` can be computed: every length in minutes
    /// converts to seconds within a `u32`.
    pub fn durations_fit(&self) -> (b: bool)
        ensures
            b == self.fits_in_seconds(),
    {
        self.focus_minutes <= u32::MAX / 60 && self.short_break_minutes <= u32::MAX / 60
            && self.long_break_minutes <= u32::MAX / 60
    }

    pub fn durations(&self) -> (d: Durations)
        requires
            self.fits_in_seconds(),
        ensures
            d == self.durations_spec(),
            d.focus == self.focus_minutes * 60,
            d.short_break == self.short_break_minutes * 60,
            d.long_break == self.long_break_minutes * 60,
            d.sessions_until_long_break == self.sessions_until_long_break,
    {
        Durations {
            focus: self.focus_minutes * 60,
            short_break: self.short_break_minutes * 60,
            long_break: self.long_break_minutes * 60,
            sessions_until_long_break: self.sessions_until_long_break,
        }
    }
}

/// Every configured length, in minutes, becomes a session of that many
/// minutes in seconds; the cadence is kept as configured.
pub proof fn lemma_durations_are_minutes_in_seconds(c: Config)
    requires
        c.fits_in_seconds(),
    ensures
        c.durations_spec().focus == c.focus_minutes * 60,
        c.durations_spec().short_break == c.short_break_minutes * 60,
        c.durations_spec().long_break == c.long_break_minutes * 60,
        c.durations_spec().sessions_until_long_break == c.sessions_until_long_break,
{
}

/// The default settings give the classic Pomodoro durations, the same as the
/// timer's own default.
pub proof fn lemma_default_config_durations()
    ensures
        default_config().fits_in_seconds(),
        default_config().durations_spec() == classic_durations(),
{
}

} // verus!
