//! Completed-session history and the daily figures drawn from it. Storing
//! the history as JSON is left to the program around the library.
use vstd::prelude::*;

verus! {

/// Seconds in one day.
pub const SECONDS_PER_DAY: u64 = 86_400;

/// One completed focus session.
#[derive(Debug, Clone, Copy, PartialEq, Eq, Structural)]
pub struct Session {
    /// Unix timestamp (seconds) of when the session finished.
    pub finished_at: u64,
    /// Length of the completed session in seconds.
    pub duration: u32,
}

/// The history of completed focus sessions.
#[derive(Debug, Clone)]
pub struct Stats {
    /// Completed focus sessions, oldest first.
    pub sessions: Vec<Session>,
}

impl Default for Stats {
    fn default() -> (s: Self)
        ensures
            s.sessions@ == Seq::<Session>::empty(),
    {
        Stats { sessions: Vec::new() }
    }
}

/// One past the largest timestamp: an end that no session reaches.
pub open spec fn end_of_time() -> int {
    u64::MAX as int + 1
}

/// The end of a range that may be open.
pub open spec fn bound(end: Option<u64>) -> int {
    match end {
        Some(e) => e as int,
        None => end_of_time(),
    }
}

/// Number of sessions that finished in `[start, end)`.
pub open spec fn sessions_between(sessions: Seq<Session>, start: int, end: int) -> nat
    decreases sessions.len(),
{
    if sessions.len() == 0 {
        0
    } else {
        sessions_between(sessions.drop_last(), start, end) + if start
            <= sessions.last().finished_at < end {
            1nat
        } else {
            0nat
        }
    }
}

/// Total length of the sessions that finished in `[start, end)`.
pub open spec fn focus_between(sessions: Seq<Session>, start: int, end: int) -> nat
    decreases sessions.len(),
{
    if sessions.len() == 0 {
        0
    } else {
        focus_between(sessions.drop_last(), start, end) + if start
            <= sessions.last().finished_at < end {
            sessions.last().duration as nat
        } else {
            0nat
        }
    }
}

/// `x + delta`, held within the range of `u64`.
pub open spec fn saturating_add_signed(x: u64, delta: int) -> u64 {
    if x + delta < 0 {
        0
    } else if x + delta > u64::MAX {
        u64::MAX
    } else {
        (x + delta) as u64
    }
}

/// The Unix timestamp of the most recent local midnight at time `now`, in a
/// zone `utc_offset` seconds ahead of UTC.
pub open spec fn local_midnight_spec(now: u64, utc_offset: i64) -> u64 {
    let local = saturating_add_signed(now, utc_offset as int);
    let day_start = (local - local % SECONDS_PER_DAY) as u64;
    saturating_add_signed(day_start, -utc_offset)
}

/// Seconds elapsed since the local day began, at clock `now` in a zone
/// `utc_offset` seconds ahead of UTC.
pub open spec fn seconds_into_day(now: u64, utc_offset: i64) -> int {
    (now + utc_offset) % (SECONDS_PER_DAY as int)
}

/// When the local day holding `now` began: `now` less the seconds already
/// elapsed in it, or the epoch when that lies before it.
pub open spec fn start_of_today(now: u64, utc_offset: i64) -> int {
    if now - seconds_into_day(now, utc_offset) < 0 {
        0
    } else {
        now - seconds_into_day(now, utc_offset)
    }
}

/// Start of the day `back` days before the day that starts at `midnight`.
pub open spec fn day_start(midnight: u64, back: int) -> u64 {
    if midnight - back * SECONDS_PER_DAY < 0 {
        0
    } else {
        (midnight - back * SECONDS_PER_DAY) as u64
    }
}

/// `(day start, sessions completed that day)` for the `days` days that end
/// with the day starting at `midnight`, oldest first.
pub open spec fn daily_counts_spec(sessions: Seq<Session>, midnight: u64, days: nat) -> Seq<
    (u64, usize),
> {
    Seq::new(
        days,
        |i: int|
            {
                let start = day_start(midnight, days - 1 - i);
                (start, sessions_between(sessions, start as int, start + SECONDS_PER_DAY) as usize)
            },
    )
}

/// Reads the system clock through `std::time::SystemTime::elapsed`, taken
/// from the Unix epoch: whole seconds since the epoch, or 0 when the clock
/// stands before the epoch. Nothing is claimed of the value: it is the time.
#[verifier::external_body]
fn now() -> u64 {
    match std::time::UNIX_EPOCH.elapsed() {
        Ok(elapsed) => elapsed.as_secs(),
        Err(_) => 0,
    }
}

/// `x` moved by `delta` seconds, held within the range of `u64`.
fn add_signed_saturating(x: u64, delta: i64) -> (r: u64)
    requires
        delta != i64::MIN,
    ensures
        r == saturating_add_signed(x, delta as int),
{
    if delta >= 0 {
        x.saturating_add(delta as u64)
    } else {
        x.saturating_sub((-delta) as u64)
    }
}

/// Unix timestamp of the most recent local midnight at time `now`, in a zone
/// `utc_offset` seconds ahead of UTC.
pub fn local_midnight(now: u64, utc_offset: i64) -> (m: u64)
    requires
        utc_offset != i64::MIN,
    ensures
        m == local_midnight_spec(now, utc_offset),
{
    let local = add_signed_saturating(now, utc_offset);
    let day_start = local - local % SECONDS_PER_DAY;
    add_signed_saturating(day_start, -utc_offset)
}

proof fn lemma_count_bounded(sessions: Seq<Session>, start: int, end: int)
    ensures
        sessions_between(sessions, start, end) <= sessions.len(),
    decreases sessions.len(),
{
    if sessions.len() > 0 {
        lemma_count_bounded(sessions.drop_last(), start, end);
    }
}

proof fn lemma_focus_within_total(sessions: Seq<Session>, start: int)
    requires
        start >= 0,
    ensures
        focus_between(sessions, start, end_of_time()) <= focus_between(
            sessions,
            0,
            end_of_time(),
        ),
    decreases sessions.len(),
{
    if sessions.len() > 0 {
        lemma_focus_within_total(sessions.drop_last(), start);
    }
}

proof fn lemma_focus_prefix(sessions: Seq<Session>, i: nat, start: int)
    requires
        i <= sessions.len(),
    ensures
        focus_between(sessions.take(i as int), start, end_of_time()) <= focus_between(
            sessions,
            start,
            end_of_time(),
        ),
    decreases sessions.len(),
{
    if i < sessions.len() {
        assert(sessions.drop_last().take(i as int) == sessions.take(i as int));
        lemma_focus_prefix(sessions.drop_last(), i, start);
    } else {
        assert(sessions.take(i as int) == sessions);
    }
}

impl Stats {
    /// Number of sessions that finished at or after `start` and, when `end`
    /// is given, before `end`.
    fn count_between(&self, start: u64, end: Option<u64>) -> (n: usize)
        ensures
            n == sessions_between(self.sessions@, start as int, bound(end)),
    {
        let mut n: usize = 0;
        let mut i: usize = 0;
        while i < self.sessions.len()
            invariant
                i <= self.sessions@.len(),
                n == sessions_between(self.sessions@.take(i as int), start as int, bound(end)),
            decreases self.sessions@.len() - i,
        {
            proof {
                assert(self.sessions@.take(i + 1).drop_last() == self.sessions@.take(i as int));
                lemma_count_bounded(self.sessions@.take(i as int), start as int, bound(end));
            }
            let s = self.sessions[i];
            let in_range = match end {
                Some(e) => start <= s.finished_at && s.finished_at < e,
                None => start <= s.finished_at,
            };
            if in_range {
                n = n + 1;
            }
            i = i + 1;
        }
        proof {
            assert(self.sessions@.take(i as int) == self.sessions@);
        }
        n
    }

    /// Append a focus session that finished at `finished_at`.
    pub fn record_focus_at(&mut self, finished_at: u64, duration: u32)
        ensures
            final(self).sessions@ == old(self).sessions@.push(Session { finished_at, duration }),
    {
        self.sessions.push(Session { finished_at, duration });
    }

    /// Record a focus session that just finished, stamped with the current
    /// time.
    pub fn record_focus(&mut self, duration: u32)
        ensures
            final(self).sessions@.len() == old(self).sessions@.len() + 1,
            final(self).sessions@.drop_last() == old(self).sessions@,
            final(self).sessions@.last().duration == duration,
    {
        let finished_at = now();
        self.record_focus_at(finished_at, duration);
    }

    /// Number of sessions that finished at or after `start`.
    pub fn completed_since(&self, start: u64) -> (n: usize)
        ensures
            n == sessions_between(self.sessions@, start as int, end_of_time()),
    {
        self.count_between(start, None)
    }

    /// Number of focus sessions completed since local midnight, in a zone
    /// `utc_offset` seconds ahead of UTC.
    pub fn completed_today(&self, utc_offset: i64) -> (n: usize)
        requires
            utc_offset != i64::MIN,
        ensures
            exists|t: u64|
                n == sessions_between(
                    self.sessions@,
                    #[trigger] local_midnight_spec(t, utc_offset) as int,
                    end_of_time(),
                ),
    {
        self.completed_today_at(now(), utc_offset)
    }

    /// Number of focus sessions completed since the local midnight before
    /// the clock reading `now`, in a zone `utc_offset` seconds ahead of UTC.
    pub fn completed_today_at(&self, now: u64, utc_offset: i64) -> (n: usize)
        requires
            utc_offset != i64::MIN,
        ensures
            n == sessions_between(
                self.sessions@,
                local_midnight_spec(now, utc_offset) as int,
                end_of_time(),
            ),
            0 <= now + utc_offset <= u64::MAX ==> n == sessions_between(
                self.sessions@,
                start_of_today(now, utc_offset),
                end_of_time(),
            ),
    {
        proof {
            if 0 <= now + utc_offset <= u64::MAX {
                lemma_midnight_is_start_of_today(now, utc_offset);
            }
        }
        let midnight = local_midnight(now, utc_offset);
        self.completed_since(midnight)
    }

    /// Total focus seconds of the sessions that finished at or after `start`.
    pub fn focus_seconds_since(&self, start: u64) -> (secs: u64)
        requires
            focus_between(self.sessions@, start as int, end_of_time()) <= u64::MAX,
        ensures
            secs == focus_between(self.sessions@, start as int, end_of_time()),
    {
        let mut secs: u64 = 0;
        let mut i: usize = 0;
        while i < self.sessions.len()
            invariant
                i <= self.sessions@.len(),
                focus_between(self.sessions@, start as int, end_of_time()) <= u64::MAX,
                secs == focus_between(self.sessions@.take(i as int), start as int, end_of_time()),
            decreases self.sessions@.len() - i,
        {
            proof {
                assert(self.sessions@.take(i + 1).drop_last() == self.sessions@.take(i as int));
                lemma_focus_prefix(self.sessions@, (i + 1) as nat, start as int);
            }
            let s = self.sessions[i];
            if start <= s.finished_at {
                secs = secs + s.duration as u64;
            }
            i = i + 1;
        }
        proof {
            assert(self.sessions@.take(i as int) == self.sessions@);
        }
        secs
    }

    /// Whether the total length of all recorded sessions fits in a `u64`, as
    /// `focus_seconds_today` requires.
    pub fn focus_total_fits(&self) -> (b: bool)
        ensures
            b == (focus_between(self.sessions@, 0, end_of_time()) <= u64::MAX),
    {
        let mut total: u64 = 0;
        let mut i: usize = 0;
        while i < self.sessions.len()
            invariant
                i <= self.sessions@.len(),
                total == focus_between(self.sessions@.take(i as int), 0, end_of_time()),
            decreases self.sessions@.len() - i,
        {
            proof {
                assert(self.sessions@.take(i + 1).drop_last() == self.sessions@.take(i as int));
                lemma_focus_prefix(self.sessions@, (i + 1) as nat, 0);
            }
            let d = self.sessions[i].duration as u64;
            if total > u64::MAX - d {
                return false;
            }
            total = total + d;
            i = i + 1;
        }
        proof {
            assert(self.sessions@.take(i as int) == self.sessions@);
        }
        true
    }

    /// Total focus seconds since local midnight, in a zone `utc_offset`
    /// seconds ahead of UTC.
    pub fn focus_seconds_today(&self, utc_offset: i64) -> (secs: u64)
        requires
            utc_offset != i64::MIN,
            focus_between(self.sessions@, 0, end_of_time()) <= u64::MAX,
        ensures
            exists|t: u64|
                secs == focus_between(
                    self.sessions@,
                    #[trigger] local_midnight_spec(t, utc_offset) as int,
                    end_of_time(),
                ),
    {
        self.focus_seconds_today_at(now(), utc_offset)
    }

    /// Total focus seconds since the local midnight before the clock reading
    /// `now`, in a zone `utc_offset` seconds ahead of UTC.
    pub fn focus_seconds_today_at(&self, now: u64, utc_offset: i64) -> (secs: u64)
        requires
            utc_offset != i64::MIN,
            focus_between(self.sessions@, 0, end_of_time()) <= u64::MAX,
        ensures
            secs == focus_between(
                self.sessions@,
                local_midnight_spec(now, utc_offset) as int,
                end_of_time(),
            ),
            0 <= now + utc_offset <= u64::MAX ==> secs == focus_between(
                self.sessions@,
                start_of_today(now, utc_offset),
                end_of_time(),
            ),
    {
        proof {
            if 0 <= now + utc_offset <= u64::MAX {
                lemma_midnight_is_start_of_today(now, utc_offset);
            }
        }
        let midnight = local_midnight(now, utc_offset);
        proof {
            lemma_focus_within_total(self.sessions@, midnight as int);
        }
        self.focus_seconds_since(midnight)
    }

    /// Per-day `(unix_day_start, completed_count)` for the `days` days that
    /// end with the day starting at `midnight`, oldest first. Days with no
    /// sessions are included.
    pub fn daily_counts_from(&self, midnight: u64, days: u32) -> (counts: Vec<(u64, usize)>)
        requires
            midnight + SECONDS_PER_DAY <= u64::MAX,
        ensures
            counts@ == daily_counts_spec(self.sessions@, midnight, days as nat),
    {
        let mut counts: Vec<(u64, usize)> = Vec::new();
        let mut i: u32 = 0;
        while i < days
            invariant
                i <= days,
                midnight + SECONDS_PER_DAY <= u64::MAX,
                counts@ == daily_counts_spec(self.sessions@, midnight, days as nat).take(i as int),
            decreases days - i,
        {
            let back = (days - 1 - i) as u64;
            let start = midnight.saturating_sub(back * SECONDS_PER_DAY);
            let end = start + SECONDS_PER_DAY;
            let count = self.count_between(start, Some(end));
            counts.push((start, count));
            i = i + 1;
            proof {
                assert(counts@ == daily_counts_spec(self.sessions@, midnight, days as nat).take(
                    i as int,
                ));
            }
        }
        proof {
            assert(counts@ == daily_counts_spec(self.sessions@, midnight, days as nat));
        }
        counts
    }

    /// Per-day `(unix_day_start, completed_count)` for the `days` local days
    /// up to the one holding `now`, oldest first, in a zone `utc_offset`
    /// seconds ahead of UTC. `None` when that day's end lies beyond the
    /// `u64` range of timestamps.
    pub fn daily_counts_at(&self, now: u64, days: u32, utc_offset: i64) -> (counts: Option<
        Vec<(u64, usize)>,
    >)
        requires
            utc_offset != i64::MIN,
        ensures
            match counts {
                Some(c) => local_midnight_spec(now, utc_offset) + SECONDS_PER_DAY <= u64::MAX
                    && c@ == daily_counts_spec(
                    self.sessions@,
                    local_midnight_spec(now, utc_offset),
                    days as nat,
                ),
                None => local_midnight_spec(now, utc_offset) + SECONDS_PER_DAY > u64::MAX,
            },
    {
        let midnight = local_midnight(now, utc_offset);
        if midnight <= u64::MAX - SECONDS_PER_DAY {
            Some(self.daily_counts_from(midnight, days))
        } else {
            None
        }
    }

    /// Per-day `(unix_day_start, completed_count)` for the most recent
    /// `days` local days, oldest first, in a zone `utc_offset` seconds ahead
    /// of UTC. `None` when the clock stands within a day of the end of the
    /// `u64` range, where the day's end cannot be represented.
    pub fn daily_counts(&self, days: u32, utc_offset: i64) -> (counts: Option<Vec<(u64, usize)>>)
        requires
            utc_offset != i64::MIN,
        ensures
            exists|t: u64|
                {
                    let midnight = #[trigger] local_midnight_spec(t, utc_offset);
                    match counts {
                        Some(c) => midnight + SECONDS_PER_DAY <= u64::MAX && c@ == daily_counts_spec(
                            self.sessions@,
                            midnight,
                            days as nat,
                        ),
                        None => midnight + SECONDS_PER_DAY > u64::MAX,
                    }
                },
    {
        let t = now();
        self.daily_counts_at(t, days, utc_offset)
    }
}

/// Recording a session that finished at time `t` adds exactly one to the
/// count of every range that contains `t` and its length to the range's focus
/// time, and leaves every other range as it was.
pub proof fn lemma_recorded_session_is_counted(
    sessions: Seq<Session>,
    session: Session,
    start: int,
    end: int,
)
    ensures
        sessions_between(sessions.push(session), start, end) == sessions_between(
            sessions,
            start,
            end,
        ) + if start <= session.finished_at < end {
            1nat
        } else {
            0nat
        },
        focus_between(sessions.push(session), start, end) == focus_between(sessions, start, end)
            + if start <= session.finished_at < end {
            session.duration as nat
        } else {
            0nat
        },
{
    assert(sessions.push(session).drop_last() == sessions);
}

/// The most recent local midnight is no later than the present and less
/// than a day before it, whenever the local time (clock plus offset) lies
/// within the `u64` range; it is a local midnight unless it saturated to the
/// epoch.
pub proof fn lemma_local_midnight_is_latest(now: u64, utc_offset: i64)
    requires
        utc_offset != i64::MIN,
        0 <= now + utc_offset <= u64::MAX,
    ensures
        local_midnight_spec(now, utc_offset) <= now < local_midnight_spec(now, utc_offset)
            + SECONDS_PER_DAY,
        local_midnight_spec(now, utc_offset) == 0 || (local_midnight_spec(now, utc_offset)
            + utc_offset) % (SECONDS_PER_DAY as int) == 0,
{
    let local = now + utc_offset;
    let day_start = local - local % (SECONDS_PER_DAY as int);
    assert(saturating_add_signed(now, utc_offset as int) == local);
    if day_start - utc_offset >= 0 {
        assert(local_midnight_spec(now, utc_offset) == day_start - utc_offset);
    } else {
        assert(local_midnight_spec(now, utc_offset) == 0);
    }
}

/// The most recent local midnight is when the local day holding the clock
/// began: the clock less the seconds already elapsed in the local day (or
/// the epoch), whenever the local time lies within the `u64` range.
pub proof fn lemma_midnight_is_start_of_today(now: u64, utc_offset: i64)
    requires
        utc_offset != i64::MIN,
        0 <= now + utc_offset <= u64::MAX,
    ensures
        local_midnight_spec(now, utc_offset) == start_of_today(now, utc_offset),
        0 <= seconds_into_day(now, utc_offset) < SECONDS_PER_DAY,
        start_of_today(now, utc_offset) <= now < start_of_today(now, utc_offset) + SECONDS_PER_DAY,
{
    let local = now + utc_offset;
    assert(saturating_add_signed(now, utc_offset as int) == local);
}

/// The daily counts cover consecutive days, one day apart, oldest first,
/// ending with the day that starts at `midnight` (when that many days fit
/// after the epoch).
pub proof fn lemma_daily_counts_consecutive(sessions: Seq<Session>, midnight: u64, days: nat)
    requires
        days >= 1,
        midnight >= (days - 1) * SECONDS_PER_DAY,
    ensures
        daily_counts_spec(sessions, midnight, days).len() == days,
        daily_counts_spec(sessions, midnight, days)[days - 1].0 == midnight,
        forall|i: int|
            0 <= i < days - 1 ==> (#[trigger] daily_counts_spec(sessions, midnight, days)[i]).0
                + SECONDS_PER_DAY == daily_counts_spec(sessions, midnight, days)[i + 1].0,
{
    let c = daily_counts_spec(sessions, midnight, days);
    assert forall|i: int| 0 <= i < days - 1 implies (#[trigger] c[i]).0 + SECONDS_PER_DAY == c[i
        + 1].0 by {
        assert((days - 1 - i) * SECONDS_PER_DAY <= (days - 1) * SECONDS_PER_DAY) by (nonlinear_arith)
            requires
                0 <= i,
                i < days - 1,
        ;
        assert((days - 1 - i) * SECONDS_PER_DAY == (days - 1 - (i + 1)) * SECONDS_PER_DAY
            + SECONDS_PER_DAY) by (nonlinear_arith);
    }
}

/// Sum of the counts of a list of `(day start, count)` pairs.
pub open spec fn total_count(counts: Seq<(u64, usize)>) -> nat
    decreases counts.len(),
{
    if counts.len() == 0 {
        0
    } else {
        counts[0].1 as nat + total_count(counts.drop_first())
    }
}

proof fn lemma_between_split(sessions: Seq<Session>, a: int, b: int, c: int)
    requires
        a <= b <= c,
    ensures
        sessions_between(sessions, a, b) + sessions_between(sessions, b, c) == sessions_between(
            sessions,
            a,
            c,
        ),
    decreases sessions.len(),
{
    if sessions.len() > 0 {
        lemma_between_split(sessions.drop_last(), a, b, c);
    }
}

/// The per-day counts split the sessions of the whole window they cover,
/// from the start of the oldest day to the end of the newest, without loss
/// and without counting a session twice (when the window lies after the
/// epoch).
pub proof fn lemma_daily_counts_partition(sessions: Seq<Session>, midnight: u64, days: nat)
    requires
        days >= 1,
        midnight >= (days - 1) * SECONDS_PER_DAY,
        sessions.len() <= usize::MAX,
    ensures
        total_count(daily_counts_spec(sessions, midnight, days)) == sessions_between(
            sessions,
            midnight - (days - 1) * SECONDS_PER_DAY,
            midnight + SECONDS_PER_DAY,
        ),
    decreases days,
{
    let c = daily_counts_spec(sessions, midnight, days);
    let first = midnight - (days - 1) * SECONDS_PER_DAY;
    lemma_count_bounded(sessions, first, first + SECONDS_PER_DAY);
    assert(day_start(midnight, days - 1 - 0) == first);
    assert(c[0].1 as nat == sessions_between(sessions, first, first + SECONDS_PER_DAY));
    assert(total_count(c) == c[0].1 as nat + total_count(c.drop_first()));
    if days == 1 {
        assert(c.drop_first().len() == 0);
    } else {
        let rest = daily_counts_spec(sessions, midnight, (days - 1) as nat);
        assert(c.drop_first() =~= rest);
        assert((days - 1) * SECONDS_PER_DAY == (days - 2) * SECONDS_PER_DAY + SECONDS_PER_DAY)
            by (nonlinear_arith);
        assert((days - 2) * SECONDS_PER_DAY <= (days - 1) * SECONDS_PER_DAY) by (nonlinear_arith)
            requires
                days >= 2,
        ;
        lemma_daily_counts_partition(sessions, midnight, (days - 1) as nat);
        lemma_between_split(
            sessions,
            first,
            first + SECONDS_PER_DAY,
            midnight + SECONDS_PER_DAY,
        );
    }
}

proof fn lemma_no_session_after(sessions: Seq<Session>, start: int, end: int)
    requires
        forall|k: int| 0 <= k < sessions.len() ==> #[trigger] sessions[k].finished_at < end,
    ensures
        sessions_between(sessions, start, end) == sessions_between(sessions, start, end_of_time()),
    decreases sessions.len(),
{
    if sessions.len() > 0 {
        let rest = sessions.drop_last();
        assert forall|k: int| 0 <= k < rest.len() implies #[trigger] rest[k].finished_at < end by {
            assert(rest[k] == sessions[k]);
        }
        lemma_no_session_after(rest, start, end);
        assert(sessions.last() == sessions[sessions.len() - 1]);
    }
}

/// The newest of the daily counts is today's count when no session lies in
/// the future, and the daily counts together never exceed the number of
/// recorded sessions (the days do not overlap).
pub proof fn lemma_daily_counts_match_today(sessions: Seq<Session>, midnight: u64, days: nat)
    requires
        days >= 1,
        midnight >= (days - 1) * SECONDS_PER_DAY,
        sessions.len() <= usize::MAX,
        forall|k: int|
            0 <= k < sessions.len() ==> #[trigger] sessions[k].finished_at < midnight
                + SECONDS_PER_DAY,
    ensures
        daily_counts_spec(sessions, midnight, days)[days - 1].1 == sessions_between(
            sessions,
            midnight as int,
            end_of_time(),
        ),
        total_count(daily_counts_spec(sessions, midnight, days)) <= sessions.len(),
{
    lemma_no_session_after(sessions, midnight as int, midnight + SECONDS_PER_DAY);
    lemma_count_bounded(sessions, midnight as int, midnight + SECONDS_PER_DAY);
    assert(day_start(midnight, days - 1 - (days - 1)) == midnight);
    lemma_daily_counts_partition(sessions, midnight, days);
    lemma_count_bounded(
        sessions,
        midnight - (days - 1) * SECONDS_PER_DAY,
        midnight + SECONDS_PER_DAY,
    );
}

/// With every session finished no later than the clock, the newest daily
/// count at that clock is today's count, and the daily counts together never
/// exceed the number of recorded sessions (whenever the local time lies
/// within the `u64` range and the days lie after the epoch).
pub proof fn lemma_daily_counts_match_today_at(
    sessions: Seq<Session>,
    now: u64,
    utc_offset: i64,
    days: nat,
)
    requires
        utc_offset != i64::MIN,
        0 <= now + utc_offset <= u64::MAX,
        days >= 1,
        local_midnight_spec(now, utc_offset) >= (days - 1) * SECONDS_PER_DAY,
        sessions.len() <= usize::MAX,
        forall|k: int| 0 <= k < sessions.len() ==> #[trigger] sessions[k].finished_at <= now,
    ensures
        daily_counts_spec(sessions, local_midnight_spec(now, utc_offset), days)[days - 1].1
            == sessions_between(sessions, local_midnight_spec(now, utc_offset) as int, end_of_time()),
        total_count(daily_counts_spec(sessions, local_midnight_spec(now, utc_offset), days))
            <= sessions.len(),
{
    let m = local_midnight_spec(now, utc_offset);
    lemma_local_midnight_is_latest(now, utc_offset);
    assert forall|k: int| 0 <= k < sessions.len() implies #[trigger] sessions[k].finished_at < m
        + SECONDS_PER_DAY by {}
    lemma_daily_counts_match_today(sessions, m, days);
}

} // verus!
