use agile_kanban::merge::{DirectMerge, Merge, MergeStatus, PrMerge, PullRequestInfo};
use agile_kanban::model::{Sprint, SprintStatus, Task, TaskStatus, TaskType};
use agile_kanban::release_notes::{
    build_release_notes_response, build_task_item, counts, format_date, render_release_notes_at,
    render_release_notes_markdown, short_sha, ReleaseNotesTaskItem,
};
use chrono::TimeZone;

fn at(y: i32, m: u32, d: u32) -> i128 {
    chrono::Utc.with_ymd_and_hms(y, m, d, 0, 0, 0).unwrap().timestamp_nanos_opt().unwrap() as i128
}

fn id() -> u128 {
    uuid::Uuid::new_v4().as_u128()
}

fn sprint() -> Sprint {
    Sprint {
        id: id(),
        project_id: id(),
        name: "Sprint 42".to_string(),
        start_at: at(2026, 1, 1),
        end_at: at(2026, 1, 15),
        goal: None,
        start_date: None,
        end_date: None,
        status: SprintStatus::Closed,
        created_at: at(2026, 1, 1),
        updated_at: at(2026, 1, 1),
    }
}

fn task(title: &str) -> Task {
    Task {
        id: id(),
        project_id: id(),
        title: title.to_string(),
        description: Some("Some details".to_string()),
        status: TaskStatus::Done,
        sprint_id: None,
        task_type: TaskType::Task,
        epic_id: None,
        parent_task_id: None,
        story_points: None,
        parent_workspace_id: None,
        shared_task_id: None,
        created_at: at(2026, 1, 2),
        updated_at: at(2026, 1, 3),
    }
}

fn pr(number: i64, url: &str) -> PullRequestInfo {
    PullRequestInfo {
        number,
        url: url.to_string(),
        status: MergeStatus::Merged,
        merged_at: None,
        merge_commit_sha: Some("0123456789abcdef".to_string()),
    }
}

fn pr_merge(day: u32, info: PullRequestInfo) -> Merge {
    Merge::Pr(PrMerge {
        id: id(),
        workspace_id: id(),
        repo_id: id(),
        created_at: at(2026, 1, day),
        target_branch_name: "main".to_string(),
        pr_info: info,
    })
}

fn direct_merge(day: u32, commit: &str) -> Merge {
    Merge::Direct(DirectMerge {
        id: id(),
        workspace_id: id(),
        repo_id: id(),
        merge_commit: commit.to_string(),
        target_branch_name: "main".to_string(),
        created_at: at(2026, 1, day),
    })
}

#[test]
fn build_task_item_dedups_prs_and_commits() {
    let task = task("A");
    let merges = vec![
        pr_merge(3, pr(1, "https://example.com/pull/1")),
        pr_merge(4, pr(1, "https://example.com/pull/1")),
        direct_merge(5, "aaaaaaaaaaaa"),
        direct_merge(6, "aaaaaaaaaaaa"),
    ];

    let item = build_task_item(task, merges);
    assert_eq!(item.pull_requests.len(), 1, "{:?}", item.pull_requests);
    assert_eq!(item.commits.len(), 2, "{:?}", item.commits);
}

#[test]
fn markdown_contains_sections_and_counts() {
    let sprint = sprint();
    let items = vec![
        ReleaseNotesTaskItem {
            task: task("Add thing"),
            pull_requests: vec![pr(1, "https://example.com/pull/1")],
            commits: vec!["aaaaaaaaaaaa".to_string()],
        },
        ReleaseNotesTaskItem {
            task: task("Fix bug"),
            pull_requests: vec![pr(1, "https://example.com/pull/1"), pr(2, "https://example.com/pull/2")],
            commits: vec!["aaaaaaaaaaaa".to_string(), "bbbbbbb".to_string()],
        },
    ];

    let md = render_release_notes_markdown(&sprint, &items);
    assert!(md.contains("# Release Notes — Sprint 42"));
    assert!(md.contains("## Summary"));
    assert!(md.contains("- Completed tasks: 2"));
    assert!(md.contains("- Pull requests: 2"));
    assert!(md.contains("- Commits: 2"));
    assert!(md.contains("## Completed"));
    assert!(md.contains("## Details"));
    assert!(md.contains("### Add thing"));
    assert!(md.contains("### Fix bug"));
}

#[test]
fn short_sha_truncates() {
    assert_eq!(short_sha("0123456789abcdef"), "0123456");
    assert_eq!(short_sha("abcdefg"), "abcdefg");
}

#[test]
fn short_sha_trims_and_cuts_on_bytes() {
    assert_eq!(short_sha("  abc  "), "abc");
    assert_eq!(short_sha("ééé123456"), "ééé1");
}

#[test]
fn build_task_item_orders_and_trims() {
    let merges = vec![
        direct_merge(1, "  ccc  "),
        direct_merge(2, "   "),
        pr_merge(3, PullRequestInfo { merge_commit_sha: None, ..pr(9, "https://x/pull/9") }),
        pr_merge(4, pr(3, "https://x/pull/3")),
        direct_merge(5, "bbb"),
        pr_merge(6, PullRequestInfo { number: 99, ..pr(9, "https://x/pull/9") }),
    ];
    let item = build_task_item(task("T"), merges);
    assert_eq!(item.commits, vec!["0123456789abcdef", "bbb", "ccc"]);
    let urls: Vec<&str> = item.pull_requests.iter().map(|p| p.url.as_str()).collect();
    assert_eq!(urls, vec!["https://x/pull/3", "https://x/pull/9"]);
    assert_eq!(item.pull_requests[1].number, 9);
    assert_eq!(item.task.title, "T");
}

#[test]
fn counts_distinct_across_items() {
    let items = vec![
        ReleaseNotesTaskItem { task: task("a"), pull_requests: vec![pr(1, "u1"), pr(2, "u2")], commits: vec!["c1".into()] },
        ReleaseNotesTaskItem { task: task("b"), pull_requests: vec![pr(1, "u1")], commits: vec!["c1".into(), "c2".into()] },
    ];
    assert_eq!(counts(&items), (2, 2));
    assert_eq!(counts(&vec![]), (0, 0));
}

#[test]
fn markdown_exact_document() {
    let sprint = sprint();
    let mut t = task("Ship it");
    t.description = Some("  Why it matters  ".to_string());
    let items = vec![ReleaseNotesTaskItem {
        task: t,
        pull_requests: vec![pr(7, "https://example.com/pull/7")],
        commits: vec!["0123456789abcdef".to_string()],
    }];
    let md = render_release_notes_at(&sprint, &items, "2026-02-01T00:00:00+00:00");
    let expected = "# Release Notes — Sprint 42\n\n_2026-01-01 → 2026-01-15_\n\n## Summary\n- Completed tasks: 1\n- Pull requests: 1\n- Commits: 1\n\n## Highlights\n- \n\n## Completed\n- Ship it\n\n## Details\n### Ship it\nWhy it matters\n\n**Pull requests**\n- https://example.com/pull/7 (#7)\n\n**Commits**\n- `0123456`\n\n## Metadata\n- Generated: 2026-02-01T00:00:00+00:00\n";
    assert_eq!(md, expected);
}

#[test]
fn markdown_without_tasks() {
    let md = render_release_notes_at(&sprint(), &vec![], "now");
    assert!(md.contains("## Completed\n- _No completed tasks in this sprint._\n\n## Details\n_No task details._\n\n"));
}

#[test]
fn response_counts_and_keeps_tasks() {
    let items = vec![ReleaseNotesTaskItem { task: task("a"), pull_requests: vec![pr(1, "u1")], commits: vec![] }];
    let r = build_release_notes_response(sprint(), items);
    assert_eq!(r.stats.tasks_done, 1);
    assert_eq!(r.stats.pull_requests, 1);
    assert_eq!(r.stats.commits, 0);
    assert_eq!(r.tasks.len(), 1);
    assert!(r.markdown.starts_with("# Release Notes — Sprint 42"));
}

#[test]
fn format_date_of_instants() {
    assert_eq!(format_date(at(2026, 1, 15)), "2026-01-15");
    assert_eq!(format_date(at(1969, 12, 31) + 1), "1969-12-31");
    assert_eq!(format_date(-1), "1969-12-31");
}

#[test]
fn markdown_stamp_is_rfc3339_of_now() {
    let before = chrono::Utc::now();
    let md = render_release_notes_markdown(&sprint(), &Vec::new());
    let after = chrono::Utc::now();
    let line = md.lines().find(|l| l.starts_with("- Generated: ")).expect("stamp line");
    let stamp = &line["- Generated: ".len()..];
    let t = chrono::DateTime::parse_from_rfc3339(stamp).expect("RFC 3339 stamp").with_timezone(&chrono::Utc);
    assert!(stamp.ends_with("+00:00"));
    assert!(before <= t && t <= after);
    assert!(md.ends_with(&format!("- Generated: {stamp}\n")));
}
