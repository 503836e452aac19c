//! What the window, the indicator and the statistics dialog show: countdown
//! and duration texts, the indicator's status line, the play/pause control
//! and the cycle dots.
use vstd::prelude::*;

use crate::control::PhaseEnd;
use crate::timer::{Phase, State, Timer, TimerView};

verus! {

/// The character of a decimal digit.
pub open spec fn digit_char(d: nat) -> char {
    if d == 0 {
        '0'
    } else if d == 1 {
        '1'
    } else if d == 2 {
        '2'
    } else if d == 3 {
        '3'
    } else if d == 4 {
        '4'
    } else if d == 5 {
        '5'
    } else if d == 6 {
        '6'
    } else if d == 7 {
        '7'
    } else if d == 8 {
        '8'
    } else {
        '9'
    }
}

/// Decimal notation of `n`, without leading zeros.
pub open spec fn decimal(n: nat) -> Seq<char>
    decreases n,
{
    if n < 10 {
        seq![digit_char(n)]
    } else {
        decimal(n / 10).push(digit_char(n % 10))
    }
}

/// Decimal notation of `n` padded with zeros to at least two digits.
pub open spec fn two_digits(n: nat) -> Seq<char> {
    if n < 10 {
        seq!['0'] + decimal(n)
    } else {
        decimal(n)
    }
}

/// `mm:ss` for a number of seconds (minutes are not capped).
pub open spec fn clock(secs: nat) -> Seq<char> {
    two_digits(secs / 60) + ":"@ + two_digits(secs % 60)
}

/// `Xh YYmin` from one hour on, `Ymin` below.
pub open spec fn duration_text(secs: nat) -> Seq<char> {
    let hours = secs / 3600;
    let minutes = (secs % 3600) / 60;
    if hours > 0 {
        decimal(hours) + "h "@ + two_digits(minutes) + "min"@
    } else {
        decimal(minutes) + "min"@
    }
}

/// The indicator's status line: the brand name before anything happened,
/// otherwise the phase and its countdown, marked when paused.
pub open spec fn status_line(v: TimerView, phase_label: Seq<char>, paused_label: Seq<char>) -> Seq<
    char,
> {
    let text = phase_label + " — "@ + clock(v.remaining as nat);
    if v.state == State::Paused {
        text + " ("@ + paused_label + ")"@
    } else if v.state == State::Idle && v.phase == Phase::Focus && v.cycle_count == 0 {
        "Blue Time"@
    } else {
        text
    }
}

fn digit(d: u64) -> (s: &'static str)
    requires
        d < 10,
    ensures
        s@ == seq![digit_char(d as nat)],
{
    proof {
        reveal_strlit("0");
        reveal_strlit("1");
        reveal_strlit("2");
        reveal_strlit("3");
        reveal_strlit("4");
        reveal_strlit("5");
        reveal_strlit("6");
        reveal_strlit("7");
        reveal_strlit("8");
        reveal_strlit("9");
    }
    match d {
        0 => "0",
        1 => "1",
        2 => "2",
        3 => "3",
        4 => "4",
        5 => "5",
        6 => "6",
        7 => "7",
        8 => "8",
        _ => "9",
    }
}

/// Append the decimal notation of `n`.
pub fn push_decimal(out: &mut String, n: u64)
    ensures
        final(out)@ == old(out)@ + decimal(n as nat),
    decreases n,
{
    if n >= 10 {
        push_decimal(out, n / 10);
        out.append(digit(n % 10));
        proof {
            assert(decimal(n as nat) == decimal((n / 10) as nat).push(digit_char((n % 10) as nat)));
        }
    } else {
        out.append(digit(n));
    }
}

/// Append `n` with at least two digits.
fn push_two_digits(out: &mut String, n: u64)
    ensures
        final(out)@ == old(out)@ + two_digits(n as nat),
{
    if n < 10 {
        out.append("0");
        proof {
            reveal_strlit("0");
        }
    }
    push_decimal(out, n);
}

/// `mm:ss` for a number of seconds, as the window's countdown shows it.
pub fn clock_text(secs: u32) -> (s: String)
    ensures
        s@ == clock(secs as nat),
{
    let mut s = String::new();
    push_two_digits(&mut s, (secs / 60) as u64);
    s.append(":");
    push_two_digits(&mut s, (secs % 60) as u64);
    s
}

/// A focus total for the statistics dialog: `2h 05min`, or `25min` below an
/// hour.
pub fn format_duration(secs: u64) -> (s: String)
    ensures
        s@ == duration_text(secs as nat),
{
    let hours = secs / 3600;
    let minutes = (secs % 3600) / 60;
    let mut s = String::new();
    if hours > 0 {
        push_decimal(&mut s, hours);
        s.append("h ");
        push_two_digits(&mut s, minutes);
        s.append("min");
    } else {
        push_decimal(&mut s, minutes);
        s.append("min");
    }
    s
}

/// The indicator's status line; `phase_label` and `paused_label` are the
/// words for the current phase and for "paused" in the user's language.
pub fn status_text(timer: &Timer, phase_label: &str, paused_label: &str) -> (s: String)
    ensures
        s@ == status_line(timer@, phase_label@, paused_label@),
{
    let remaining = timer.remaining();
    let mut text = String::from_str(phase_label);
    text.append(" — ");
    let clock = clock_text(remaining);
    text.append(clock.as_str());
    match timer.state() {
        State::Paused => {
            text.append(" (");
            text.append(paused_label);
            text.append(")");
            text
        },
        State::Idle if timer.phase() == Phase::Focus && timer.cycle_count() == 0 => {
            String::from_str("Blue Time")
        },
        _ => text,
    }
}

/// The play/pause control for a timer state: its icon name and its label.
pub open spec fn toggle_control_spec(state: State) -> (Seq<char>, Seq<char>) {
    match state {
        State::Running => ("media-playback-pause-symbolic"@, "Pause"@),
        State::Paused => ("media-playback-start-symbolic"@, "Resume"@),
        State::Idle => ("media-playback-start-symbolic"@, "Start"@),
    }
}

/// The play/pause control for a timer state: `(icon name, label)`.
pub fn toggle_control(state: State) -> (c: (&'static str, &'static str))
    ensures
        (c.0@, c.1@) == toggle_control_spec(state),
{
    match state {
        State::Running => ("media-playback-pause-symbolic", "Pause"),
        State::Paused => ("media-playback-start-symbolic", "Resume"),
        State::Idle => ("media-playback-start-symbolic", "Start"),
    }
}

/// The style class of the phase pill.
pub open spec fn phase_class_spec(phase: Phase) -> Seq<char> {
    match phase {
        Phase::Focus => "phase-focus"@,
        Phase::ShortBreak => "phase-break"@,
        Phase::LongBreak => "phase-long-break"@,
    }
}

/// The style class of the phase pill.
pub fn phase_class(phase: Phase) -> (c: &'static str)
    ensures
        c@ == phase_class_spec(phase),
{
    match phase {
        Phase::Focus => "phase-focus",
        Phase::ShortBreak => "phase-break",
        Phase::LongBreak => "phase-long-break",
    }
}

/// One dot per focus session of the cycle, filled for those already done.
pub fn cycle_dots(timer: &Timer) -> (dots: Vec<bool>)
    ensures
        dots@.len() == timer@.durations.sessions_until_long_break,
        forall|i: int| 0 <= i < dots@.len() ==> #[trigger] dots@[i] == (i < timer@.cycle_count),
{
    let total = timer.durations().sessions_until_long_break;
    let done = timer.cycle_count();
    let mut dots: Vec<bool> = Vec::new();
    let mut i: u32 = 0;
    while i < total
        invariant
            i <= total,
            total == timer@.durations.sessions_until_long_break,
            done == timer@.cycle_count,
            dots@.len() == i,
            forall|j: int| 0 <= j < i ==> #[trigger] dots@[j] == (j < done),
        decreases total - i,
    {
        dots.push(i < done);
        i = i + 1;
    }
    dots
}

/// `text` with every occurrence of `pat`, from left to right and without
/// overlap, replaced by `with` (an empty pattern leaves the text as it is).
pub open spec fn replace_all(text: Seq<char>, pat: Seq<char>, with: Seq<char>) -> Seq<char>
    decreases text.len(),
{
    if text.len() == 0 {
        seq![]
    } else if 0 < pat.len() <= text.len() && text.subrange(0, pat.len() as int) == pat {
        with + replace_all(text.skip(pat.len() as int), pat, with)
    } else {
        seq![text[0]] + replace_all(text.skip(1), pat, with)
    }
}

/// Whether `pat` occurs in `text` at character position `at`.
fn occurs_at(text: &str, n: usize, at: usize, pat: &str, m: usize) -> (b: bool)
    requires
        n == text@.len(),
        m == pat@.len(),
        at <= n,
    ensures
        b == (at + m <= n && text@.subrange(at as int, at + m) == pat@),
{
    if m > n - at {
        return false;
    }
    let mut k: usize = 0;
    while k < m
        invariant
            at + m <= n,
            n == text@.len(),
            m == pat@.len(),
            k <= m,
            forall|j: int| 0 <= j < k ==> text@[at + j] == pat@[j],
        decreases m - k,
    {
        if text.get_char(at + k) != pat.get_char(k) {
            assert(text@.subrange(at as int, at + m)[k as int] != pat@[k as int]);
            return false;
        }
        k = k + 1;
    }
    assert(text@.subrange(at as int, at + m) =~= pat@);
    true
}

/// `text` with every occurrence of the non-empty `pat` replaced by `with`.
pub fn replace(text: &str, pat: &str, with: &str) -> (s: String)
    requires
        pat@.len() > 0,
    ensures
        s@ == replace_all(text@, pat@, with@),
{
    let n = text.unicode_len();
    let m = pat.unicode_len();
    let mut out = String::new();
    let mut i: usize = 0;
    proof {
        assert(text@.skip(0) =~= text@);
        assert(out@ + replace_all(text@, pat@, with@) =~= replace_all(text@, pat@, with@));
    }
    while i < n
        invariant
            n == text@.len(),
            m == pat@.len(),
            m > 0,
            i <= n,
            out@ + replace_all(text@.skip(i as int), pat@, with@) == replace_all(
                text@,
                pat@,
                with@,
            ),
        decreases n - i,
    {
        let ghost rest = text@.skip(i as int);
        let ghost before = out@;
        if occurs_at(text, n, i, pat, m) {
            proof {
                assert(rest.subrange(0, m as int) =~= text@.subrange(i as int, i + m));
                assert(rest.skip(m as int) =~= text@.skip(i + m));
            }
            out.append(with);
            proof {
                assert(out@ + replace_all(text@.skip(i + m), pat@, with@) =~= before + replace_all(
                    rest,
                    pat@,
                    with@,
                ));
            }
            i = i + m;
        } else {
            let c = text.substring_char(i, i + 1);
            proof {
                if m <= rest.len() {
                    assert(rest.subrange(0, m as int) =~= text@.subrange(i as int, i + m));
                }
                assert(rest.skip(1) =~= text@.skip(i + 1));
                assert(c@ =~= seq![rest[0]]);
            }
            out.append(c);
            proof {
                assert(out@ + replace_all(text@.skip(i + 1), pat@, with@) =~= before + replace_all(
                    rest,
                    pat@,
                    with@,
                ));
            }
            i = i + 1;
        }
    }
    proof {
        assert(text@.skip(n as int) =~= Seq::<char>::empty());
        assert(out@ + Seq::<char>::empty() =~= out@);
    }
    out
}

/// The body of the notification sent when a session ends: after focus, the
/// focus template with `%s` filled with the next phase's name and `%d` with
/// its minutes; after a break, the break template with `%d` filled.
pub open spec fn phase_end_body_spec(
    end: PhaseEnd,
    focus_template: Seq<char>,
    break_template: Seq<char>,
    next_name: Seq<char>,
) -> Seq<char> {
    let minutes = decimal(end.next_minutes as nat);
    if end.finished == Phase::Focus {
        replace_all(replace_all(focus_template, "%s"@, next_name), "%d"@, minutes)
    } else {
        replace_all(break_template, "%d"@, minutes)
    }
}

/// The notification body, with the next phase's name given as it is to be
/// printed.
pub fn fill_phase_end_body(end: &PhaseEnd, focus_template: &str, break_template: &str, next_name: &str) -> (s: String)
    ensures
        s@ == phase_end_body_spec(*end, focus_template@, break_template@, next_name@),
{
    proof {
        reveal_strlit("%s");
        reveal_strlit("%d");
    }
    let mut minutes = String::new();
    push_decimal(&mut minutes, end.next_minutes as u64);
    if end.finished == Phase::Focus {
        let named = replace(focus_template, "%s", next_name);
        replace(named.as_str(), "%d", minutes.as_str())
    } else {
        replace(break_template, "%d", minutes.as_str())
    }
}

/// The lower-case form of a text, as `str::to_lowercase` maps it.
pub uninterp spec fn lowercase(text: Seq<char>) -> Seq<char>;

/// Lower-cases a text through std's `str::to_lowercase` (Unicode lower-case
/// mapping, context-dependent for the final sigma). Claims only that the
/// result depends on the text alone; the mapping itself is not stated.
#[verifier::external_body]
fn to_lowercase(text: &str) -> (s: String)
    ensures
        s@ == lowercase(text@),
{
    text.to_lowercase()
}

/// The body of the notification sent when a session ends, from the
/// templates and the next phase's name in the user's language; the name is
/// printed in lower case.
pub fn phase_end_body(end: &PhaseEnd, focus_template: &str, break_template: &str, next_label: &str) -> (s: String)
    ensures
        s@ == phase_end_body_spec(*end, focus_template@, break_template@, lowercase(next_label@)),
{
    let name = to_lowercase(next_label);
    fill_phase_end_body(end, focus_template, break_template, name.as_str())
}

/// The title of the notification sent when a session ends, from the two
/// titles in the user's language.
pub fn phase_end_title(end: &PhaseEnd, focus_title: &str, break_title: &str) -> (s: String)
    ensures
        s@ == (if end.finished == Phase::Focus {
            focus_title@
        } else {
            break_title@
        }),
{
    if end.finished == Phase::Focus {
        String::from_str(focus_title)
    } else {
        String::from_str(break_title)
    }
}

} // verus!
