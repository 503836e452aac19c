//! Pure Pomodoro timer state machine, independent of any UI.
use vstd::prelude::*;

verus! {

/// The three kinds of session in a Pomodoro cycle.
#[derive(Debug, Clone, Copy, PartialEq, Eq, Structural)]
pub enum Phase {
    Focus,
    ShortBreak,
    LongBreak,
}

/// The text shown for a phase.
pub open spec fn phase_label(phase: Phase) -> Seq<char> {
    match phase {
        Phase::Focus => "Focus"@,
        Phase::ShortBreak => "Short Break"@,
        Phase::LongBreak => "Long Break"@,
    }
}

impl Phase {
    pub fn label(self) -> (s: &'static str)
        ensures
            s@ == phase_label(self),
    {
        match self {
            Phase::Focus => "Focus",
            Phase::ShortBreak => "Short Break",
            Phase::LongBreak => "Long Break",
        }
    }

    pub fn is_break(self) -> (b: bool)
        ensures
            b == (self != Phase::Focus),
    {
        !matches!(self, Phase::Focus)
    }
}

/// Whether the countdown is stopped, counting, or suspended.
#[derive(Debug, Clone, Copy, PartialEq, Eq, Structural)]
pub enum State {
    Idle,
    Running,
    Paused,
}

/// Session durations in seconds plus the long-break cadence.
#[derive(Debug, Clone, Copy, PartialEq, Eq, Structural)]
pub struct Durations {
    pub focus: u32,
    pub short_break: u32,
    pub long_break: u32,
    pub sessions_until_long_break: u32,
}

/// The classic Pomodoro durations: 25 minutes of focus, 5 and 15 minute
/// breaks, a long break after every 4 focus sessions.
pub open spec fn classic_durations() -> Durations {
    Durations { focus: 1500, short_break: 300, long_break: 900, sessions_until_long_break: 4 }
}

impl Default for Durations {
    fn default() -> (d: Self)
        ensures
            d == classic_durations(),
    {
        Self { focus: 25 * 60, short_break: 5 * 60, long_break: 15 * 60, sessions_until_long_break: 4 }
    }
}

impl Durations {
    /// Full length in seconds of a session of the given phase.
    pub open spec fn length_of(self, phase: Phase) -> u32 {
        match phase {
            Phase::Focus => self.focus,
            Phase::ShortBreak => self.short_break,
            Phase::LongBreak => self.long_break,
        }
    }

    /// Number of focus sessions that make up one cycle; a cadence of zero
    /// behaves as a cadence of one (every focus session ends in a long break).
    pub open spec fn cadence(self) -> nat {
        if self.sessions_until_long_break == 0 {
            1
        } else {
            self.sessions_until_long_break as nat
        }
    }

    pub fn for_phase(&self, phase: Phase) -> (secs: u32)
        ensures
            secs == self.length_of(phase),
    {
        match phase {
            Phase::Focus => self.focus,
            Phase::ShortBreak => self.short_break,
            Phase::LongBreak => self.long_break,
        }
    }
}

/// What happened as a result of a `tick`.
#[derive(Debug, Clone, Copy, PartialEq, Eq, Structural)]
pub enum Tick {
    /// Time is still counting down.
    Counting,
    /// The phase that just finished; the timer has advanced to the next
    /// phase and is now idle (the caller decides whether to auto-start).
    Finished(Phase),
}

/// The observable state of a [`Timer`].
pub struct TimerView {
    pub durations: Durations,
    pub phase: Phase,
    pub state: State,
    pub remaining: u32,
    pub cycle_count: u32,
}

impl TimerView {
    /// A timer made with the given durations: idle at the start of a focus
    /// session, with no focus session completed.
    pub open spec fn initial(durations: Durations) -> TimerView {
        TimerView {
            durations,
            phase: Phase::Focus,
            state: State::Idle,
            remaining: durations.focus,
            cycle_count: 0,
        }
    }

    /// Counting resumes; an exhausted countdown is refilled first.
    pub open spec fn started(self) -> TimerView {
        TimerView {
            remaining: if self.remaining == 0 {
                self.durations.length_of(self.phase)
            } else {
                self.remaining
            },
            state: State::Running,
            ..self
        }
    }

    pub open spec fn paused(self) -> TimerView {
        if self.state == State::Running {
            TimerView { state: State::Paused, ..self }
        } else {
            self
        }
    }

    pub open spec fn toggled(self) -> TimerView {
        if self.state == State::Running {
            TimerView { state: State::Paused, ..self }
        } else {
            self.started()
        }
    }

    pub open spec fn reset(self) -> TimerView {
        TimerView {
            state: State::Idle,
            remaining: self.durations.length_of(self.phase),
            ..self
        }
    }

    /// The phase that follows the current one, with the cycle count it
    /// brings: focus is followed by a long break once the count reaches the
    /// cadence, by a short break before; every break is followed by focus,
    /// and a long break starts a new cycle.
    pub open spec fn next_position(self) -> (Phase, u32) {
        match self.phase {
            Phase::Focus => {
                let done = self.cycle_count + 1;
                if done >= self.durations.sessions_until_long_break {
                    (Phase::LongBreak, done as u32)
                } else {
                    (Phase::ShortBreak, done as u32)
                }
            },
            Phase::ShortBreak => (Phase::Focus, self.cycle_count),
            Phase::LongBreak => (Phase::Focus, 0u32),
        }
    }

    /// Move to the next phase, idle, with its full duration.
    pub open spec fn advanced(self) -> TimerView {
        let (phase, cycle_count) = self.next_position();
        TimerView {
            durations: self.durations,
            phase,
            state: State::Idle,
            remaining: self.durations.length_of(phase),
            cycle_count,
        }
    }

    /// One second elapses: what `tick` reports, and the state after it.
    pub open spec fn ticked(self) -> (Tick, TimerView) {
        if self.state != State::Running {
            (Tick::Counting, self)
        } else if self.remaining > 1 {
            (Tick::Counting, TimerView { remaining: (self.remaining - 1) as u32, ..self })
        } else {
            (Tick::Finished(self.phase), self.advanced())
        }
    }

    pub open spec fn with_durations(self, durations: Durations) -> TimerView {
        TimerView {
            durations,
            remaining: if self.state == State::Idle {
                durations.length_of(self.phase)
            } else {
                self.remaining
            },
            ..self
        }
    }

    /// Counting one more focus session from here cannot overflow: the count
    /// stays below `u32::MAX` except during a long break, which resets it.
    pub open spec fn well_formed(self) -> bool {
        self.phase == Phase::LongBreak || self.cycle_count < u32::MAX
    }

    /// Where a timer stands in its cycle: during focus and short breaks
    /// fewer focus sessions than the cadence are done, and at least one
    /// during a short break; during a long break exactly the cadence is done.
    pub open spec fn in_cycle(self) -> bool {
        &&& if self.phase == Phase::LongBreak {
            self.cycle_count == self.durations.cadence()
        } else {
            self.cycle_count < self.durations.cadence()
        }
        &&& self.phase == Phase::ShortBreak ==> self.cycle_count >= 1
    }

    /// An idle timer holds the full length of its phase.
    pub open spec fn idle_is_full(self) -> bool {
        self.state == State::Idle ==> self.remaining == self.durations.length_of(self.phase)
    }

    /// The countdown never holds more than the full length of its phase.
    pub open spec fn within_phase(self) -> bool {
        self.remaining <= self.durations.length_of(self.phase)
    }
}

/// The Pomodoro state machine.
#[derive(Debug, Clone, Copy)]
pub struct Timer {
    durations: Durations,
    phase: Phase,
    state: State,
    remaining: u32,
    /// Focus sessions completed in the current long-break cycle.
    cycle_count: u32,
}

impl View for Timer {
    type V = TimerView;

    closed spec fn view(&self) -> TimerView {
        TimerView {
            durations: self.durations,
            phase: self.phase,
            state: self.state,
            remaining: self.remaining,
            cycle_count: self.cycle_count,
        }
    }
}

impl Timer {
    #[verifier::type_invariant]
    spec fn inv(self) -> bool {
        self@.well_formed()
    }

    pub fn new(durations: Durations) -> (t: Self)
        ensures
            t@ == TimerView::initial(durations),
            t@.well_formed(),
    {
        Self {
            durations,
            phase: Phase::Focus,
            state: State::Idle,
            remaining: durations.focus,
            cycle_count: 0,
        }
    }

    pub fn phase(&self) -> (p: Phase)
        ensures
            p == self@.phase,
            self@.well_formed(),
    {
        proof {
            use_type_invariant(self);
        }
        self.phase
    }

    pub fn state(&self) -> (s: State)
        ensures
            s == self@.state,
            self@.well_formed(),
    {
        proof {
            use_type_invariant(self);
        }
        self.state
    }

    pub fn remaining(&self) -> (r: u32)
        ensures
            r == self@.remaining,
            self@.well_formed(),
    {
        proof {
            use_type_invariant(self);
        }
        self.remaining
    }

    pub fn durations(&self) -> (d: Durations)
        ensures
            d == self@.durations,
            self@.well_formed(),
    {
        proof {
            use_type_invariant(self);
        }
        self.durations
    }

    /// Focus sessions completed in the current cycle (0-based, wraps at
    /// `sessions_until_long_break`).
    pub fn cycle_count(&self) -> (c: u32)
        ensures
            c == self@.cycle_count,
            self@.well_formed(),
    {
        proof {
            use_type_invariant(self);
        }
        self.cycle_count
    }

    pub fn start(&mut self)
        ensures
            final(self)@ == old(self)@.started(),
            old(self)@.well_formed(),
            final(self)@.well_formed(),
    {
        proof {
            use_type_invariant(&*self);
        }
        let remaining = if self.remaining == 0 {
            self.durations.for_phase(self.phase)
        } else {
            self.remaining
        };
        *self = Timer { remaining, state: State::Running, ..*self };
    }

    pub fn pause(&mut self)
        ensures
            final(self)@ == old(self)@.paused(),
            old(self)@.well_formed(),
            final(self)@.well_formed(),
    {
        proof {
            use_type_invariant(&*self);
        }
        if self.state == State::Running {
            *self = Timer { state: State::Paused, ..*self };
        }
    }

    /// Start when idle, otherwise flip between running and paused.
    pub fn toggle(&mut self)
        ensures
            final(self)@ == old(self)@.toggled(),
            old(self)@.well_formed(),
            final(self)@.well_formed(),
    {
        proof {
            use_type_invariant(&*self);
        }
        match self.state {
            State::Running => {
                *self = Timer { state: State::Paused, ..*self };
            },
            State::Idle | State::Paused => self.start(),
        }
    }

    /// Reset the current phase to its full duration and stop counting.
    pub fn reset(&mut self)
        ensures
            final(self)@ == old(self)@.reset(),
            old(self)@.well_formed(),
            final(self)@.well_formed(),
    {
        proof {
            use_type_invariant(&*self);
        }
        let remaining = self.durations.for_phase(self.phase);
        *self = Timer { state: State::Idle, remaining, ..*self };
    }

    /// Abandon the current phase and move to the next one (idle).
    pub fn skip(&mut self)
        ensures
            final(self)@ == old(self)@.advanced(),
            old(self)@.well_formed(),
            final(self)@.well_formed(),
            old(self)@.phase == Phase::Focus ==> final(self)@.cycle_count == old(self)@.cycle_count + 1,
            final(self)@.state == State::Idle,
            final(self)@.remaining == final(self)@.durations.length_of(final(self)@.phase),
            final(self)@.durations == old(self)@.durations,
    {
        self.advance();
    }

    /// Advance one second. Call this once per second while running.
    pub fn tick(&mut self) -> (t: Tick)
        ensures
            (t, final(self)@) == old(self)@.ticked(),
            old(self)@.state != State::Running ==> t == Tick::Counting && final(self)@ == old(
                self,
            )@,
            old(self)@.well_formed(),
            final(self)@.well_formed(),
            t == Tick::Finished(Phase::Focus) ==> final(self)@.cycle_count == old(self)@.cycle_count
                + 1,
            t is Finished ==> {
                &&& final(self)@.state == State::Idle
                &&& final(self)@.remaining == final(self)@.durations.length_of(final(self)@.phase)
                &&& t->0 == old(self)@.phase
            },
            t == Tick::Counting && old(self)@.state == State::Running ==> final(self)@.state
                == State::Running && final(self)@.phase == old(self)@.phase && final(self)@.remaining
                == old(self)@.remaining - 1,
    {
        proof {
            use_type_invariant(&*self);
        }
        if self.state != State::Running {
            return Tick::Counting;
        }
        let remaining = self.remaining.saturating_sub(1);
        *self = Timer { remaining, ..*self };
        if self.remaining > 0 {
            return Tick::Counting;
        }
        let finished = self.phase;
        self.advance();
        Tick::Finished(finished)
    }

    /// Apply new durations. When idle the current phase is refreshed to the
    /// new full duration; a running or paused countdown is left untouched.
    pub fn set_durations(&mut self, durations: Durations)
        ensures
            final(self)@ == old(self)@.with_durations(durations),
            old(self)@.well_formed(),
            final(self)@.well_formed(),
    {
        proof {
            use_type_invariant(&*self);
        }
        let remaining = if self.state == State::Idle {
            durations.for_phase(self.phase)
        } else {
            self.remaining
        };
        *self = Timer { durations, remaining, ..*self };
    }

    fn advance(&mut self)
        ensures
            final(self)@ == old(self)@.advanced(),
            old(self)@.well_formed(),
            final(self)@.well_formed(),
            old(self)@.phase == Phase::Focus ==> final(self)@.cycle_count == old(self)@.cycle_count + 1,
    {
        proof {
            use_type_invariant(&*self);
        }
        let (phase, cycle_count) = match self.phase {
            Phase::Focus => {
                let done = self.cycle_count + 1;
                if done >= self.durations.sessions_until_long_break {
                    (Phase::LongBreak, done)
                } else {
                    (Phase::ShortBreak, done)
                }
            },
            Phase::ShortBreak => (Phase::Focus, self.cycle_count),
            Phase::LongBreak => (Phase::Focus, 0),
        };
        let remaining = self.durations.for_phase(phase);
        *self = Timer { durations: self.durations, phase, state: State::Idle, remaining, cycle_count };
    }
}

/// The view after `k` phase changes (skips, or finished countdowns).
pub open spec fn advanced_times(v: TimerView, k: nat) -> TimerView
    decreases k,
{
    if k == 0 {
        v
    } else {
        advanced_times(v, (k - 1) as nat).advanced()
    }
}

/// The view after `k` ticks.
pub open spec fn ticked_times(v: TimerView, k: nat) -> TimerView
    decreases k,
{
    if k == 0 {
        v
    } else {
        ticked_times(v, (k - 1) as nat).ticked().1
    }
}

/// A new timer stands at the start of its cycle, and every operation other
/// than changing the durations keeps the timer's count of focus sessions
/// within its cycle: below the cadence during focus and short breaks (and at
/// least one during a short break), equal to it during a long break.
pub proof fn lemma_operations_keep_cycle_position(v: TimerView, durations: Durations)
    requires
        v.in_cycle(),
    ensures
        TimerView::initial(durations).in_cycle(),
        v.started().in_cycle(),
        v.paused().in_cycle(),
        v.toggled().in_cycle(),
        v.reset().in_cycle(),
        v.advanced().in_cycle(),
        v.ticked().1.in_cycle(),
{
}

/// An idle timer holds the full length of its phase: a new timer does, and
/// every operation, changing the durations included, keeps it so. The
/// countdown never exceeds the full length of its phase: a new timer's does
/// not, every operation keeps it so, and so does changing the durations of
/// an idle timer (only a running or paused countdown keeps its remaining
/// time when the durations change).
pub proof fn lemma_operations_keep_countdown_in_phase(v: TimerView, durations: Durations)
    ensures
        TimerView::initial(durations).idle_is_full(),
        TimerView::initial(durations).within_phase(),
        v.idle_is_full() ==> {
            &&& v.started().idle_is_full()
            &&& v.paused().idle_is_full()
            &&& v.toggled().idle_is_full()
            &&& v.reset().idle_is_full()
            &&& v.advanced().idle_is_full()
            &&& v.ticked().1.idle_is_full()
            &&& v.with_durations(durations).idle_is_full()
        },
        v.within_phase() ==> {
            &&& v.started().within_phase()
            &&& v.paused().within_phase()
            &&& v.toggled().within_phase()
            &&& v.reset().within_phase()
            &&& v.advanced().within_phase()
            &&& v.ticked().1.within_phase()
        },
        v.state == State::Idle ==> v.with_durations(durations).within_phase(),
{
}

/// Every timer is well formed: a new timer is, and every operation,
/// changing the durations included, keeps it so. On a well-formed timer,
/// finishing or skipping a focus session counts exactly one more session,
/// without wrapping.
pub proof fn lemma_operations_keep_well_formed(v: TimerView, durations: Durations)
    requires
        v.well_formed(),
    ensures
        TimerView::initial(durations).well_formed(),
        v.started().well_formed(),
        v.paused().well_formed(),
        v.toggled().well_formed(),
        v.reset().well_formed(),
        v.advanced().well_formed(),
        v.ticked().1.well_formed(),
        v.with_durations(durations).well_formed(),
        v.phase == Phase::Focus ==> v.advanced().cycle_count == v.cycle_count + 1,
{
}

/// Every phase change, by a skip or by a countdown reaching zero, follows the
/// Pomodoro cycle and leaves the timer idle at the full length of the new
/// phase, durations unchanged: whether the next session starts is the
/// caller's decision. Focus is followed by a long break once the count of
/// focus sessions (one more than before) reaches the cadence and by a short
/// break before; a short break is followed by focus in the same cycle, a long
/// break by focus in a fresh cycle.
pub proof fn lemma_phase_change_lands_idle(v: TimerView)
    requires
        v.well_formed(),
    ensures
        v.advanced().state == State::Idle,
        v.advanced().remaining == v.durations.length_of(v.advanced().phase),
        v.advanced().durations == v.durations,
        v.phase == Phase::Focus ==> v.advanced().cycle_count == v.cycle_count + 1 && v.advanced().phase
            == (if v.cycle_count + 1 >= v.durations.sessions_until_long_break {
            Phase::LongBreak
        } else {
            Phase::ShortBreak
        }),
        v.phase == Phase::ShortBreak ==> v.advanced().phase == Phase::Focus
            && v.advanced().cycle_count == v.cycle_count,
        v.phase == Phase::LongBreak ==> v.advanced().phase == Phase::Focus
            && v.advanced().cycle_count == 0,
        v.ticked().0 is Finished ==> {
            &&& v.state == State::Running
            &&& v.remaining <= 1
            &&& v.ticked().0->0 == v.phase
            &&& v.ticked().1.state == State::Idle
            &&& v.ticked().1.remaining == v.durations.length_of(v.ticked().1.phase)
        },
{
}

/// Toggling pauses a running countdown where it stands, and otherwise
/// starts counting: a paused countdown resumes where it was paused, an idle
/// one starts from its remaining time (refilled when exhausted). The phase,
/// the cycle and the durations stay.
pub proof fn lemma_toggle_pauses_or_resumes(v: TimerView)
    ensures
        v.toggled().phase == v.phase,
        v.toggled().cycle_count == v.cycle_count,
        v.toggled().durations == v.durations,
        v.state == State::Running ==> v.toggled().state == State::Paused && v.toggled().remaining
            == v.remaining,
        v.state != State::Running ==> v.toggled().state == State::Running,
        v.state != State::Running && v.remaining > 0 ==> v.toggled().remaining == v.remaining,
        v.state != State::Running && v.remaining == 0 ==> v.toggled().remaining
            == v.durations.length_of(v.phase),
{
}

/// Starting, pausing, toggling and resetting never move the timer to
/// another phase, nor change its durations or its count of focus sessions.
pub proof fn lemma_controls_keep_phase(v: TimerView)
    ensures
        v.started().phase == v.phase && v.started().cycle_count == v.cycle_count
            && v.started().durations == v.durations,
        v.paused().phase == v.phase && v.paused().cycle_count == v.cycle_count
            && v.paused().durations == v.durations,
        v.toggled().phase == v.phase && v.toggled().cycle_count == v.cycle_count
            && v.toggled().durations == v.durations,
        v.reset().phase == v.phase && v.reset().cycle_count == v.cycle_count
            && v.reset().durations == v.durations,
{
}

/// Pausing a running countdown and toggling it again resumes it exactly where
/// it was; resuming a paused countdown and pausing it again leaves it as it
/// was. Resetting twice is resetting once.
pub proof fn lemma_pause_resume_round_trip(v: TimerView)
    ensures
        v.state == State::Running && v.remaining > 0 ==> v.paused().toggled() == v,
        v.state == State::Paused && v.remaining > 0 ==> v.toggled().paused() == v,
        v.reset().reset() == v.reset(),
{
}

proof fn lemma_cycle_prefix(v: TimerView, k: nat)
    requires
        v.phase == Phase::Focus,
        v.cycle_count == 0,
        k < 2 * v.durations.cadence() - 1,
    ensures
        advanced_times(v, k).durations == v.durations,
        advanced_times(v, k).phase == (if k % 2 == 0 {
            Phase::Focus
        } else {
            Phase::ShortBreak
        }),
        advanced_times(v, k).cycle_count == (k + 1) / 2,
    decreases k,
{
    if k > 0 {
        lemma_cycle_prefix(v, (k - 1) as nat);
    }
}

/// The Pomodoro cycle: from the start of a cycle (focus, no session done)
/// with a cadence of `n` focus sessions, the phases alternate focus and short
/// break until the `n`-th focus session is done, which is followed by a long
/// break; the long break is followed by a fresh cycle, idle at the start of a
/// full focus session.
pub proof fn lemma_pomodoro_cycle(v: TimerView)
    requires
        v.phase == Phase::Focus,
        v.cycle_count == 0,
    ensures
        forall|k: nat|
            k < 2 * v.durations.cadence() - 1 ==> {
                &&& #[trigger] advanced_times(v, k).phase == (if k % 2 == 0 {
                    Phase::Focus
                } else {
                    Phase::ShortBreak
                })
                &&& advanced_times(v, k).cycle_count == (k + 1) / 2
            },
        advanced_times(v, (2 * v.durations.cadence() - 1) as nat).phase == Phase::LongBreak,
        advanced_times(v, (2 * v.durations.cadence() - 1) as nat).cycle_count
            == v.durations.cadence(),
        advanced_times(v, 2 * v.durations.cadence()) == TimerView::initial(v.durations),
{
    let n = v.durations.cadence();
    assert forall|k: nat| k < 2 * n - 1 implies {
        &&& #[trigger] advanced_times(v, k).phase == (if k % 2 == 0 {
            Phase::Focus
        } else {
            Phase::ShortBreak
        })
        &&& advanced_times(v, k).cycle_count == (k + 1) / 2
    } by {
        lemma_cycle_prefix(v, k);
    }
    let last = (2 * n - 2) as nat;
    lemma_cycle_prefix(v, last);
    assert(advanced_times(v, (2 * n - 1) as nat) == advanced_times(v, last).advanced());
    assert(advanced_times(v, 2 * n) == advanced_times(v, (2 * n - 1) as nat).advanced());
}

proof fn lemma_countdown_prefix(v: TimerView, k: nat)
    requires
        v.state == State::Running,
        k < v.remaining,
    ensures
        ticked_times(v, k) == (TimerView { remaining: (v.remaining - k) as u32, ..v }),
        k + 1 < v.remaining ==> ticked_times(v, k).ticked().0 == Tick::Counting,
    decreases k,
{
    if k > 0 {
        lemma_countdown_prefix(v, (k - 1) as nat);
    }
}

/// Counting down: a running timer with `r > 0` seconds left counts down one
/// second per tick, reports `Counting` for the first `r - 1` ticks, and on
/// the `r`-th tick reports that its phase finished and lands, idle, where
/// skipping the phase would have landed.
pub proof fn lemma_countdown(v: TimerView)
    requires
        v.state == State::Running,
        v.remaining > 0,
    ensures
        forall|k: nat|
            k < v.remaining ==> #[trigger] ticked_times(v, k) == (TimerView {
                remaining: (v.remaining - k) as u32,
                ..v
            }),
        forall|k: nat| k + 1 < v.remaining ==> (#[trigger] ticked_times(v, k)).ticked().0 == Tick::Counting,
        ticked_times(v, (v.remaining - 1) as nat).ticked() == (Tick::Finished(v.phase), v.advanced()),
{
    assert forall|k: nat| k < v.remaining implies #[trigger] ticked_times(v, k) == (TimerView {
        remaining: (v.remaining - k) as u32,
        ..v
    }) by {
        lemma_countdown_prefix(v, k);
    }
    assert forall|k: nat| k + 1 < v.remaining implies (#[trigger] ticked_times(
        v,
        k,
    )).ticked().0 == Tick::Counting by {
        lemma_countdown_prefix(v, k);
    }
    lemma_countdown_prefix(v, (v.remaining - 1) as nat);
}

} // verus!
