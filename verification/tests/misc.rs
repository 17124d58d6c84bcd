use agile_kanban::analytics::{normalize_query_range, AnalyticsRangeQuery, DAY_NANOS};
use agile_kanban::board::{agent_working_dir, CreateTask};
use agile_kanban::model::{CreateSprint, SprintStatus, TaskStatus};
use agile_kanban::release_notes::short_sha_ok;
use agile_kanban::text::{parse_i64, trim_str, strip_trailing_seq_str, str_strip_prefix};
use agile_kanban::webhooks::delivery_payload;

#[test]
fn shared_task_creation_keeps_status() {
    let c = CreateTask::from_shared_task(3, "T".to_string(), None, TaskStatus::InReview, 99);
    assert_eq!((c.status, c.shared_task_id), (Some(TaskStatus::InReview), Some(99)));
}

#[test]
fn working_dir_skips_empty() {
    assert_eq!(agent_working_dir(&Some(String::new())), None);
    assert_eq!(agent_working_dir(&Some("sub".into())), Some("sub".to_string()));
    assert_eq!(agent_working_dir(&None), None);
}

#[test]
fn new_sprint_status() {
    let c = CreateSprint { project_id: 1, name: "S".into(), goal: None, start_date: None, end_date: None, status: None };
    assert_eq!(c.initial_status(), SprintStatus::Planned);
    let c = CreateSprint { status: Some(SprintStatus::Active), ..c };
    assert_eq!(c.initial_status(), SprintStatus::Active);
}

#[test]
fn query_range_now_is_whole_days() {
    let q = AnalyticsRangeQuery { project_id: 1, from: None, to: None, days: 7, bucket: None };
    let r = normalize_query_range(&q).unwrap().unwrap();
    assert_eq!(r.from.rem_euclid(DAY_NANOS), 0);
    assert_eq!(r.to - r.from, 8 * DAY_NANOS);
}

#[test]
fn short_sha_boundaries() {
    assert!(short_sha_ok("abc"));
    assert!(short_sha_ok("0123456789"));
    assert!(short_sha_ok("ééé1234"));
    assert!(!short_sha_ok("abcdeféé"));
}

#[test]
fn integers_parse_like_std() {
    for s in ["0", "+12", "-9223372036854775808", "9223372036854775807", "9223372036854775808", "", "-", "1a", " 1", "007"] {
        assert_eq!(parse_i64(s), s.parse::<i64>().ok(), "{s}");
    }
}

#[test]
fn text_helpers() {
    assert_eq!(trim_str("\u{3000} x \n"), "x");
    assert_eq!(strip_trailing_seq_str("a.git.git", ".git"), "a");
    assert_eq!(str_strip_prefix("/merges/x", "/merges/"), Some("x".to_string()));
    assert_eq!(str_strip_prefix("/merge", "/merges/"), None);
}

#[test]
fn payload_text_replaces_invalid_bytes() {
    let p = delivery_payload(&[0xff, b'a']);
    assert_eq!(p.payload_json, "\u{FFFD}a");
    assert_eq!(p.payload_bytes, 2);
}

#[test]
fn trimming_twice_is_trimming_once() {
    for s in ["  a b  ", "\t\nx", "", "   ", "\u{2003}y\u{2003}", "z"] {
        let once = trim_str(s);
        assert_eq!(trim_str(&once), once);
        assert_eq!(once, s.trim());
    }
}

#[test]
fn leap_second_instant_stays_in_its_second() {
    assert_eq!(agile_kanban::clock::instant_in_order(10, 5), 10_000_000_005);
    assert_eq!(agile_kanban::clock::instant_in_order(10, 1_500_000_000), 10_999_999_999);
    assert_eq!(agile_kanban::clock::instant_in_order(-1, 0), -1_000_000_000);
}
