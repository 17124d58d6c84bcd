use agile_kanban::analytics::{
    burndown_points, cfd_points, day_buckets, default_days, floor_to_day, normalize_instants, normalize_range,
    parse_rfc3339_utc, snapshot_cfd_counts, status_idx, AnalyticsRangeQuery, NormalizedRange, RangeError, DAY_NANOS,
};
use agile_kanban::cycle_time::{bucket_edges, cycle_time_samples, sort_ascending};
use agile_kanban::devex::{bucketize, top_hotspots, FileHotspot};
use agile_kanban::model::{TaskStatus, TaskStatusEvent};
use chrono::TimeZone;

const HOUR: i128 = 3_600_000_000_000;

fn at(y: i32, m: u32, d: u32) -> i128 {
    chrono::Utc.with_ymd_and_hms(y, m, d, 0, 0, 0).unwrap().timestamp_nanos_opt().unwrap() as i128
}

fn time(t: i128) -> (i64, u32) {
    (t.div_euclid(1_000_000_000) as i64, t.rem_euclid(1_000_000_000) as u32)
}

fn id() -> u128 {
    uuid::Uuid::new_v4().as_u128()
}

fn ev(task_id: u128, status: TaskStatus, created_at: i128) -> TaskStatusEvent {
    TaskStatusEvent { id: id(), task_id, project_id: 7, status, created_at }
}

#[test]
fn snapshots_track_latest_status_per_task() {
    let t1 = id();
    let t2 = id();
    let base = at(2026, 1, 1);
    let buckets = vec![base, base + DAY_NANOS];
    let events = vec![
        ev(t1, TaskStatus::Todo, base),
        ev(t2, TaskStatus::Todo, base + HOUR),
        ev(t1, TaskStatus::InProgress, base + 2 * HOUR),
    ];

    let snaps = snapshot_cfd_counts(&buckets, &events);
    assert_eq!(snaps.len(), 2);
    assert_eq!(snaps[0], [1, 0, 0, 0, 0]);
    assert_eq!(snaps[1], [1, 1, 0, 0, 0]);
}

#[test]
fn status_slots_in_order() {
    assert_eq!(status_idx(&TaskStatus::Todo), 0);
    assert_eq!(status_idx(&TaskStatus::InProgress), 1);
    assert_eq!(status_idx(&TaskStatus::InReview), 2);
    assert_eq!(status_idx(&TaskStatus::Done), 3);
    assert_eq!(status_idx(&TaskStatus::Cancelled), 4);
    assert_eq!(default_days(), 30);
}

#[test]
fn floor_to_day_before_and_after_epoch() {
    assert_eq!(floor_to_day(at(2026, 1, 1) + 5 * HOUR), at(2026, 1, 1));
    assert_eq!(floor_to_day(-1), -DAY_NANOS);
    assert_eq!(floor_to_day(0), 0);
}

#[test]
fn day_buckets_include_both_ends() {
    let r = NormalizedRange { from: at(2026, 1, 1), to: at(2026, 1, 4) };
    let b = day_buckets(&r);
    assert_eq!(b, vec![at(2026, 1, 1), at(2026, 1, 2), at(2026, 1, 3), at(2026, 1, 4)]);
    assert!(day_buckets(&NormalizedRange { from: 10, to: 0 }).is_empty());
}

#[test]
fn normalize_instants_cases() {
    let to = at(2026, 1, 10) + 3 * HOUR;
    let r = normalize_instants(time(to), None, 2).unwrap().unwrap();
    assert_eq!(r.from, at(2026, 1, 8));
    assert_eq!(r.to, at(2026, 1, 11));
    let r = normalize_instants(time(to), None, 0).unwrap().unwrap();
    assert_eq!(r.from, at(2026, 1, 9));
    assert!(matches!(normalize_instants(time(to), Some(time(to + 1)), 30), Some(Err(RangeError::FromAfterTo))));
}

#[test]
fn normalize_range_parses_and_refuses() {
    let q = AnalyticsRangeQuery {
        project_id: 1,
        from: Some("2026-01-02T10:00:00Z".to_string()),
        to: Some("2026-01-05T10:00:00+02:00".to_string()),
        days: 30,
        bucket: None,
    };
    let r = normalize_range(&q, 0).unwrap().unwrap();
    assert_eq!(r.from, at(2026, 1, 2));
    assert_eq!(r.to, at(2026, 1, 6));
    let bad = AnalyticsRangeQuery { from: Some("yesterday".to_string()), ..q.clone() };
    match normalize_range(&bad, 0) {
        Some(Err(e)) => assert_eq!(e.message(), "Invalid RFC3339 timestamp: yesterday"),
        other => panic!("unexpected {:?}", other),
    }
    let swapped = AnalyticsRangeQuery { from: q.to.clone(), to: q.from.clone(), ..q.clone() };
    match normalize_range(&swapped, 0) {
        Some(Err(e)) => assert_eq!(e.message(), "`from` must be <= `to`"),
        other => panic!("unexpected {:?}", other),
    }
    assert!(parse_rfc3339_utc("2026-01-01T00:00:00Z").unwrap() == time(at(2026, 1, 1)));
}

#[test]
fn burndown_and_cfd_points() {
    let t1 = id();
    let t2 = id();
    let base = at(2026, 1, 1);
    let buckets = vec![base, base + DAY_NANOS];
    let events = vec![
        ev(t1, TaskStatus::Todo, base),
        ev(t2, TaskStatus::Cancelled, base + HOUR),
        ev(t1, TaskStatus::Done, base + 2 * HOUR),
    ];
    let b = burndown_points(&buckets, &events, false);
    assert_eq!((b[0].ts, b[0].remaining, b[0].total), (base, 1, 1));
    assert_eq!((b[1].remaining, b[1].total), (0, 2));
    let b = burndown_points(&buckets, &events, true);
    assert_eq!(b[1].remaining, 1);
    let c = cfd_points(&buckets, &events);
    assert_eq!((c[1].todo, c[1].done, c[1].cancelled), (0, 1, 1));
}

#[test]
fn cycle_time_samples_and_histogram() {
    let (a, b, c) = (id(), id(), id());
    let base = at(2026, 1, 1);
    let events = vec![
        ev(a, TaskStatus::InProgress, base),
        ev(b, TaskStatus::InReview, base + HOUR),
        ev(a, TaskStatus::InReview, base + 2 * HOUR),
        ev(a, TaskStatus::Done, base + 3 * HOUR),
        ev(b, TaskStatus::Done, base + 31 * HOUR),
        ev(c, TaskStatus::Done, base + 4 * HOUR),
        ev(a, TaskStatus::Done, base + 50 * HOUR),
    ];
    let range = NormalizedRange { from: base, to: base + 10 * DAY_NANOS };
    let s = cycle_time_samples(&events, &range);
    assert_eq!(s.sample_size, 2);
    assert_eq!(s.seconds, vec![3 * 3600, 30 * 3600]);
    assert_eq!(s.histogram.len(), 11);
    assert_eq!((s.histogram[1].from_hours, s.histogram[1].to_hours, s.histogram[1].count), (2, 6, 1));
    assert_eq!((s.histogram[4].from_hours, s.histogram[4].to_hours, s.histogram[4].count), (24, 48, 1));
    assert_eq!(s.histogram.iter().map(|h| h.count).sum::<i64>(), 2);
    let narrow = NormalizedRange { from: base, to: base + 10 * HOUR };
    assert_eq!(cycle_time_samples(&events, &narrow).seconds, vec![3 * 3600]);
    assert_eq!(bucket_edges(), vec![0, 2, 6, 12, 24, 48, 72, 96, 168, 336, 672, 10_000]);
}

#[test]
fn sort_ascending_keeps_duplicates() {
    assert_eq!(sort_ascending(&vec![5, -1, 5, 3]), vec![-1, 3, 5, 5]);
}

#[test]
fn bucketize_counts_per_day() {
    let base = at(2026, 1, 1);
    let buckets = vec![base, base + DAY_NANOS, base + 2 * DAY_NANOS];
    let times = vec![base + HOUR, base + DAY_NANOS + HOUR, base + DAY_NANOS, base - DAY_NANOS - 1, base + 7 * DAY_NANOS, base - HOUR];
    let p = bucketize(base, &buckets, &times);
    let v: Vec<i64> = p.iter().map(|x| x.value).collect();
    assert_eq!(v, vec![2, 2, 0]);
    assert_eq!(p[2].ts, base + 2 * DAY_NANOS);
}

#[test]
fn hotspots_rank_and_cap() {
    let mut files = Vec::new();
    for i in 0..25 {
        files.push(FileHotspot { path: format!("f{i}"), commit_count: (i % 5) as i64, last_modified_at: i as i128 });
    }
    let top = top_hotspots(files);
    assert_eq!(top.len(), 20);
    assert_eq!(top[0].path, "f24");
    assert_eq!(top[1].path, "f19");
    assert!(top.windows(2).all(|w| w[0].commit_count >= w[1].commit_count));
    let tie = vec![
        FileHotspot { path: "a".into(), commit_count: 1, last_modified_at: 5 },
        FileHotspot { path: "b".into(), commit_count: 1, last_modified_at: 5 },
    ];
    let r = top_hotspots(tie);
    assert_eq!((r[0].path.as_str(), r[1].path.as_str()), ("a", "b"));
}

#[test]
fn leap_second_end_stays_in_its_day() {
    let leap = parse_rfc3339_utc("2016-12-31T23:59:60Z").unwrap();
    assert_eq!(leap, (time(at(2017, 1, 1)).0 - 1, 1_000_000_000));
    let q = AnalyticsRangeQuery {
        project_id: 1,
        from: Some("2016-12-31T00:00:00Z".to_string()),
        to: Some("2016-12-31T23:59:60Z".to_string()),
        days: 30,
        bucket: None,
    };
    let r = normalize_range(&q, 0).unwrap().unwrap();
    assert_eq!(r.from, at(2016, 12, 31));
    assert_eq!(r.to, at(2017, 1, 1));
    let after = AnalyticsRangeQuery { from: Some("2017-01-01T00:00:00Z".to_string()), ..q.clone() };
    match normalize_range(&after, 0) {
        Some(Err(e)) => assert_eq!(e.message(), "`from` must be <= `to`"),
        other => panic!("unexpected {:?}", other),
    }
    let inside = AnalyticsRangeQuery { from: Some("2016-12-31T23:59:60.5Z".to_string()), ..q.clone() };
    assert!(matches!(normalize_range(&inside, 0), Some(Err(RangeError::FromAfterTo))));
    let defaulted = AnalyticsRangeQuery { from: None, days: 1, ..q.clone() };
    let r = normalize_range(&defaulted, 0).unwrap().unwrap();
    assert_eq!(r.from, at(2016, 12, 31));
    assert_eq!(r.to, at(2017, 1, 1));
}
