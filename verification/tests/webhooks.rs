use agile_kanban::merge::MergeStatus;
use agile_kanban::webhooks::{
    apply_repo_state, bytes_to_hex, constant_time_eq, delivery_mark, delivery_payload, delivery_reply,
    github_check_run_update, github_event_kind, github_pr_status, github_push_update, github_request_gate,
    gitlab_event_kind, gitlab_merge_request_url, gitlab_mr_status, gitlab_push_update, gitlab_request_gate,
    ignored_result, merged_task_ids, pick_secret, pull_request_result, recorded_result, signature_gate, GitHubCheckRun,
    GitHubCheckRunEvent, GitHubEventKind, GitHubPullRequest, GitHubPushEvent, GitHubRepo, GitLabEventKind,
    GitLabMergeRequestAttributes, GitLabProject, GitLabPushEvent, MAX_STORED_PAYLOAD_BYTES,
};

#[test]
fn gitlab_url_prefers_web_url() {
    let attrs = GitLabMergeRequestAttributes {
        url: "https://gitlab.example/api/v4/projects/1/merge_requests/2".to_string(),
        web_url: Some("https://gitlab.example/group/proj/-/merge_requests/2".to_string()),
        state: "opened".to_string(),
        merged_at: None,
        merge_commit_sha: None,
    };

    assert_eq!(gitlab_merge_request_url(&attrs), "https://gitlab.example/group/proj/-/merge_requests/2");
}

#[test]
fn gitlab_url_falls_back_to_api_url() {
    let attrs = GitLabMergeRequestAttributes {
        url: "https://gitlab.example/api/v4/projects/1/merge_requests/2".to_string(),
        web_url: None,
        state: "closed".to_string(),
        merged_at: None,
        merge_commit_sha: None,
    };
    assert_eq!(gitlab_merge_request_url(&attrs), "https://gitlab.example/api/v4/projects/1/merge_requests/2");
    assert_eq!(gitlab_mr_status(&attrs), MergeStatus::Closed);
}

fn gh(state: &str, merged: bool) -> GitHubPullRequest {
    GitHubPullRequest { html_url: "u".to_string(), state: state.to_string(), merged, merge_commit_sha: None }
}

fn gl(state: &str, merged_at: Option<&str>) -> GitLabMergeRequestAttributes {
    GitLabMergeRequestAttributes {
        url: "u".to_string(),
        web_url: None,
        state: state.to_string(),
        merged_at: merged_at.map(String::from),
        merge_commit_sha: None,
    }
}

#[test]
fn pull_request_statuses() {
    assert_eq!(github_pr_status(&gh("closed", true)), MergeStatus::Merged);
    assert_eq!(github_pr_status(&gh("open", false)), MergeStatus::Open);
    assert_eq!(github_pr_status(&gh("closed", false)), MergeStatus::Closed);
    assert_eq!(github_pr_status(&gh("draft", false)), MergeStatus::Unknown);
    assert_eq!(gitlab_mr_status(&gl("opened", Some("2026-01-01"))), MergeStatus::Merged);
    assert_eq!(gitlab_mr_status(&gl("opened", None)), MergeStatus::Open);
    assert_eq!(gitlab_mr_status(&gl("merged", None)), MergeStatus::Merged);
    assert_eq!(gitlab_mr_status(&gl("locked", None)), MergeStatus::Unknown);
}

#[test]
fn constant_time_eq_is_equality() {
    assert!(constant_time_eq(b"secret", b"secret"));
    assert!(!constant_time_eq(b"secret", b"secreT"));
    assert!(!constant_time_eq(b"secret", b"secret!"));
    assert!(constant_time_eq(b"", b""));
}

#[test]
fn secret_prefers_non_blank_primary() {
    assert_eq!(pick_secret(Some("a".into()), Some("b".into())), Some("a".to_string()));
    assert_eq!(pick_secret(Some("  ".into()), Some("b".into())), Some("b".to_string()));
    assert_eq!(pick_secret(None, Some(" ".into())), None);
    assert_eq!(pick_secret(None, None), None);
}

#[test]
fn github_gate_checks_in_order() {
    let e = github_request_gate(None, None, None, None).unwrap_err();
    assert_eq!((e.status, e.message), (400, "missing X-GitHub-Event"));
    let e = github_request_gate(Some("push".into()), None, None, None).unwrap_err();
    assert_eq!((e.status, e.message), (400, "missing X-GitHub-Delivery"));
    let e = github_request_gate(Some("push".into()), Some("d".into()), None, Some("s".into())).unwrap_err();
    assert_eq!((e.status, e.message), (401, "missing X-Hub-Signature-256"));
    let e = github_request_gate(Some("push".into()), Some("d".into()), Some("sig".into()), None).unwrap_err();
    assert_eq!(e.status, 501);
    let ok = github_request_gate(Some("push".into()), Some("d".into()), Some("sig".into()), Some("s".into())).unwrap();
    assert_eq!((ok.event.as_str(), ok.delivery_id.as_str(), ok.signature.as_str()), ("push", "d", "sig"));
}

#[test]
fn gitlab_gate_checks_token() {
    let s = |x: &str| Some(x.to_string());
    let e = gitlab_request_gate(None, s("u"), None, s("t"), s("t")).unwrap_err();
    assert_eq!(e.status, 400);
    let e = gitlab_request_gate(s("Push Hook"), None, None, s("t"), s("t")).unwrap_err();
    assert_eq!(e.message, "missing X-Gitlab-Event-UUID (or X-Request-Id)");
    let e = gitlab_request_gate(s("Push Hook"), s("u"), None, None, s("t")).unwrap_err();
    assert_eq!((e.status, e.message), (401, "missing X-Gitlab-Token"));
    let e = gitlab_request_gate(s("Push Hook"), s("u"), None, s("t"), None).unwrap_err();
    assert_eq!(e.status, 501);
    let e = gitlab_request_gate(s("Push Hook"), s("u"), None, s("t"), s("x")).unwrap_err();
    assert_eq!((e.status, e.message), (401, "invalid token"));
    let ok = gitlab_request_gate(s("Push Hook"), None, s("req"), s("t"), s("t")).unwrap();
    assert_eq!(ok.delivery_id, "req");
    let ok = gitlab_request_gate(s("Push Hook"), s("uuid"), s("req"), s("t"), s("t")).unwrap();
    assert_eq!(ok.delivery_id, "uuid");
}

#[test]
fn event_kinds() {
    assert_eq!(github_event_kind("pull_request"), GitHubEventKind::PullRequest);
    assert_eq!(github_event_kind("check_run"), GitHubEventKind::CheckRun);
    assert_eq!(github_event_kind("push"), GitHubEventKind::Push);
    assert_eq!(github_event_kind("issues"), GitHubEventKind::Other);
    assert_eq!(gitlab_event_kind("merge_request"), GitLabEventKind::MergeRequest);
    assert_eq!(gitlab_event_kind("push"), GitLabEventKind::Push);
    assert_eq!(gitlab_event_kind("note"), GitLabEventKind::Other);
}

#[test]
fn results_and_replies() {
    let r = pull_request_result(0, 3);
    assert_eq!((r.status, r.updated_merges, r.updated_tasks), ("ignored", 0, 0));
    let r = pull_request_result(2, 1);
    assert_eq!((r.status, r.updated_merges, r.updated_tasks), ("processed", 2, 1));
    assert_eq!(ignored_result().status, "ignored");
    assert_eq!(recorded_result().status, "processed");
    let e = delivery_reply("github", "push".into(), "d".into(), None, None).unwrap_err();
    assert_eq!((e.status, e.message), (500, "failed to store delivery"));
    let a = delivery_reply("github", "push".into(), "d".into(), Some(false), None).unwrap();
    assert_eq!((a.status, a.deduped), ("duplicate", true));
    let e = delivery_reply("gitlab", "push".into(), "d".into(), Some(true), None).unwrap_err();
    assert_eq!(e.message, "webhook processing failed");
    let a = delivery_reply("gitlab", "push".into(), "d".into(), Some(true), Some(pull_request_result(2, 1))).unwrap();
    assert_eq!((a.provider, a.status, a.deduped, a.updated_merges, a.updated_tasks), ("gitlab", "processed", false, 2, 1));
    assert_eq!(delivery_mark(None), "failed");
    assert_eq!(delivery_mark(Some(ignored_result())), "ignored");
}

#[test]
fn merged_tasks_once_each() {
    let ws = vec![Some(3u128), None, Some(1), Some(3)];
    assert_eq!(merged_task_ids(MergeStatus::Merged, &ws), vec![3, 1]);
    assert!(merged_task_ids(MergeStatus::Closed, &ws).is_empty());
}

#[test]
fn payload_hash_and_truncation() {
    let p = delivery_payload(b"abc");
    assert_eq!(p.payload_sha256, "ba7816bf8f01cfea414140de5dae2223b00361a396177a9cb410ff61f20015ad");
    assert_eq!((p.payload_bytes, p.payload_truncated, p.payload_json.as_str()), (3, false, "abc"));
    let big = vec![b'x'; MAX_STORED_PAYLOAD_BYTES + 10];
    let p = delivery_payload(&big);
    assert!(p.payload_truncated);
    assert_eq!(p.payload_bytes, (MAX_STORED_PAYLOAD_BYTES + 10) as i64);
    assert_eq!(p.payload_json.len(), MAX_STORED_PAYLOAD_BYTES);
    assert_eq!(bytes_to_hex(&[0x00, 0x0f, 0xa0, 0xff]), "000fa0ff");
}

#[test]
fn upsert_repo_state_merges_push_and_check_run() {
    let push = github_push_update(GitHubPushEvent {
        git_ref: "refs/heads/main".to_string(),
        after: "1111111".to_string(),
        repository: GitHubRepo { full_name: "o/r".to_string() },
    });
    let check = github_check_run_update(GitHubCheckRunEvent {
        check_run: GitHubCheckRun {
            head_sha: "2222222".to_string(),
            status: Some("completed".to_string()),
            conclusion: Some("success".to_string()),
        },
        repository: GitHubRepo { full_name: "o/r".to_string() },
    });
    assert_eq!((push.provider, push.repo_key.as_str()), ("github", "o/r"));
    let row = apply_repo_state(None, &push);
    let row = apply_repo_state(Some(row), &check);
    assert_eq!(row.last_push_ref.as_deref(), Some("refs/heads/main"));
    assert_eq!(row.last_push_sha.as_deref(), Some("1111111"));
    assert_eq!(row.last_check_run_sha.as_deref(), Some("2222222"));
    assert_eq!(row.last_check_run_status.as_deref(), Some("completed"));
    assert_eq!(row.last_check_run_conclusion.as_deref(), Some("success"));
}

#[test]
fn gitlab_push_prefers_checkout_sha() {
    let u = gitlab_push_update(GitLabPushEvent {
        git_ref: "refs/heads/dev".to_string(),
        checkout_sha: None,
        after: Some("abc".to_string()),
        project: GitLabProject { path_with_namespace: "g/p".to_string() },
    });
    assert_eq!((u.provider, u.last_push_sha.as_deref()), ("gitlab", Some("abc")));
    let u = gitlab_push_update(GitLabPushEvent {
        git_ref: "refs/heads/dev".to_string(),
        checkout_sha: Some("def".to_string()),
        after: Some("abc".to_string()),
        project: GitLabProject { path_with_namespace: "g/p".to_string() },
    });
    assert_eq!(u.last_push_sha.as_deref(), Some("def"));
}

#[test]
fn upsert_delivery_stores_hash_and_truncation_metadata() {
    let mut payload = vec![b'a'; MAX_STORED_PAYLOAD_BYTES + 10];
    payload[0] = b'{';
    payload[1] = b'}';

    let row = delivery_payload(&payload);
    assert_eq!(row.payload_sha256.len(), 64);
    assert_eq!(row.payload_bytes, (MAX_STORED_PAYLOAD_BYTES + 10) as i64);
    assert!(row.payload_truncated);
}

#[test]
fn signature_gate_refuses_bad_signature() {
    assert!(signature_gate(true).is_ok());
    let e = signature_gate(false).unwrap_err();
    assert_eq!(e.status, 401);
    assert_eq!(e.message, "invalid signature");
}
