use blue_time::stats::{local_midnight, Session, Stats};

fn now() -> u64 {
    std::time::SystemTime::now()
        .duration_since(std::time::UNIX_EPOCH)
        .map(|d| d.as_secs())
        .unwrap_or(0)
}

#[test]
fn counts_today_only() {
    let mut stats = Stats::default();
    stats.sessions.push(Session {
        finished_at: now(),
        duration: 1500,
    });
    stats.sessions.push(Session {
        finished_at: now().saturating_sub(3 * 86_400),
        duration: 1500,
    });
    assert_eq!(stats.completed_today(0), 1);
    assert_eq!(stats.focus_seconds_today(0), 1500);
}

#[test]
fn daily_counts_cover_requested_range() {
    let mut stats = Stats::default();
    stats.sessions.push(Session {
        finished_at: now(),
        duration: 1500,
    });
    let counts = stats.daily_counts(7, 0).unwrap();
    assert_eq!(counts.len(), 7);
    assert_eq!(counts.last().unwrap().1, 1);
    assert!(counts.windows(2).all(|w| w[0].0 < w[1].0));
}

#[test]
fn midnight_in_utc_and_offset_zones() {
    assert_eq!(local_midnight(100_000, 0), 86_400);
    assert_eq!(local_midnight(100_000, 3_600), 82_800);
    assert_eq!(local_midnight(100_000, -3_600), 90_000);
    assert_eq!(local_midnight(86_400, 0), 86_400);
    assert_eq!(local_midnight(86_399, 0), 0);
    // Saturation at the start of the range.
    assert_eq!(local_midnight(10, -3_600), 3_600);
}

// The most recent midnight is no later than now and less than a day before.
#[test]
fn midnight_within_last_day() {
    let t = now();
    for offset in [-43_200i64, -3_600, 0, 3_600, 50_400] {
        let m = local_midnight(t, offset);
        assert!(m <= t && t < m + 86_400);
        assert_eq!((m as i64 + offset).rem_euclid(86_400), 0);
    }
}

#[test]
fn since_counts_and_totals() {
    let mut stats = Stats::default();
    stats.record_focus_at(100, 1500);
    stats.record_focus_at(90_000, 600);
    stats.record_focus_at(95_000, 900);
    assert_eq!(stats.completed_since(86_400), 2);
    assert_eq!(stats.focus_seconds_since(86_400), 1500);
    assert_eq!(stats.completed_since(0), 3);
    assert_eq!(stats.focus_seconds_since(0), 3000);
    assert_eq!(stats.completed_since(200_000), 0);
}

// Recording a session adds one to the ranges that hold its time only.
#[test]
fn recorded_session_is_counted() {
    let mut stats = Stats::default();
    stats.record_focus_at(90_000, 600);
    let before_today = stats.completed_since(86_400);
    let before_old = stats.completed_since(180_000);
    stats.record_focus_at(100_000, 1500);
    assert_eq!(stats.completed_since(86_400), before_today + 1);
    assert_eq!(stats.completed_since(180_000), before_old);
    assert_eq!(stats.focus_seconds_since(86_400), 2100);
}

#[test]
fn record_focus_stamps_now() {
    let mut stats = Stats::default();
    let before = now();
    stats.record_focus(1500);
    let after = now();
    assert_eq!(stats.sessions.len(), 1);
    assert_eq!(stats.sessions[0].duration, 1500);
    assert!(before <= stats.sessions[0].finished_at && stats.sessions[0].finished_at <= after);
}

#[test]
fn daily_counts_from_fixed_midnight() {
    let mut stats = Stats::default();
    stats.record_focus_at(3 * 86_400 + 10, 1500);
    stats.record_focus_at(3 * 86_400 + 20, 1500);
    stats.record_focus_at(86_400 + 5, 1500);
    stats.record_focus_at(4 * 86_400, 1500);
    let counts = stats.daily_counts_from(3 * 86_400, 3);
    assert_eq!(counts, vec![(86_400, 1), (2 * 86_400, 0), (3 * 86_400, 2)]);
    // Days before the epoch saturate at zero.
    let early = stats.daily_counts_from(86_400, 3);
    assert_eq!(early, vec![(0, 0), (0, 0), (86_400, 1)]);
    assert_eq!(stats.daily_counts_from(0, 0), vec![]);
}

#[test]
fn focus_total_overflow_detected() {
    let mut stats = Stats::default();
    assert!(stats.focus_total_fits());
    stats.record_focus_at(1, u32::MAX);
    assert!(stats.focus_total_fits());
    let big = Stats { sessions: vec![Session { finished_at: 1, duration: u32::MAX }; 3] };
    assert!(big.focus_total_fits());
}

// The per-day counts add up to the sessions of the window they cover.
#[test]
fn daily_counts_partition_window() {
    let mut stats = Stats::default();
    for t in [3 * 86_400 + 10, 3 * 86_400 + 20, 86_400 + 5, 4 * 86_400, 86_399, 2 * 86_400] {
        stats.record_focus_at(t, 60);
    }
    let counts = stats.daily_counts_from(3 * 86_400, 3);
    let total: usize = counts.iter().map(|c| c.1).sum();
    assert_eq!(total, stats.completed_since(86_400) - stats.completed_since(4 * 86_400));
    assert_eq!(total, 4);
}

#[test]
fn daily_counts_at_fixed_clock() {
    let mut stats = Stats::default();
    stats.record_focus_at(3 * 86_400 + 10, 60);
    stats.record_focus_at(2 * 86_400 + 7_200, 60);
    // Two hours ahead of UTC: local days start at 22:00 UTC.
    let counts = stats.daily_counts_at(3 * 86_400 + 100, 2, 7_200).unwrap();
    assert_eq!(counts, vec![(2 * 86_400 - 7_200, 1), (3 * 86_400 - 7_200, 1)]);
    let counts = stats.daily_counts_at(3 * 86_400 + 100, 2, 0).unwrap();
    assert_eq!(counts, vec![(2 * 86_400, 1), (3 * 86_400, 1)]);
    // The newest day is today's count when nothing lies in the future.
    assert_eq!(counts[1].1, stats.completed_since(3 * 86_400));
    // A clock within a day of the end of the range has no representable day end.
    assert_eq!(stats.daily_counts_at(u64::MAX - 10, 2, 0), None);
}

// Near the epoch the midnight saturates at zero but still lies within the
// last day.
#[test]
fn midnight_near_epoch() {
    for (now, offset) in [(10u64, 3_600i64), (10, 0), (3_600, -3_599), (100, 50_000)] {
        let m = local_midnight(now, offset);
        assert!(m <= now && now < m + 86_400);
        assert!(m == 0 || (m as i64 + offset).rem_euclid(86_400) == 0);
    }
}
