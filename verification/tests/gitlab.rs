use agile_kanban::gitlab::{
    branch_merge_requests_query, classify_reply, encode_project_path, failed_reply_error, merge_request_infos,
    merge_request_path, merge_requests_path, review_position, unify_comments, CreateGitLabReviewCommentInput,
    GitLabAuthor, GitLabDiffRefs, GitLabDiscussion, GitLabMergeRequestListItem, GitLabMergeRequestRef, GitLabNote,
    GitLabPosition, GitLabRepoInfo, GitLabService, GitLabServiceError, ReplyClass, UnifiedPrComment,
};

#[test]
fn parse_mr_url_with_nested_groups() {
    let mr = GitLabMergeRequestRef::parse("https://gitlab.example.com/group/sub/project/-/merge_requests/42").unwrap();
    assert_eq!(mr.base_url, "https://gitlab.example.com");
    assert_eq!(mr.project_path, "group/sub/project");
    assert_eq!(mr.iid, 42);
}

#[test]
fn parse_repo_info_from_https_remote() {
    let repo = GitLabRepoInfo::from_remote_url("https://gitlab.example.com/group/sub/project.git").unwrap();
    assert_eq!(repo.base_url, "https://gitlab.example.com");
    assert_eq!(repo.project_path, "group/sub/project");
}

#[test]
fn parse_repo_info_from_ssh_remote() {
    let repo = GitLabRepoInfo::from_remote_url("git@gitlab.example.com:group/sub/project.git").unwrap();
    assert_eq!(repo.base_url, "https://gitlab.example.com");
    assert_eq!(repo.project_path, "group/sub/project");
}

#[test]
fn parse_repo_info_other_forms() {
    let repo = GitLabRepoInfo::from_remote_url("ssh://git@gitlab.example.com:2222/group/project.git/").unwrap();
    assert_eq!(repo.base_url, "ssh://gitlab.example.com:2222");
    assert_eq!(repo.project_path, "group/project");
    match GitLabRepoInfo::from_remote_url("   ") {
        Err(GitLabServiceError::InvalidBaseUrl(m)) => assert_eq!(m, "remote URL is empty"),
        other => panic!("unexpected {:?}", other),
    }
    match GitLabRepoInfo::from_remote_url("no-colon-here") {
        Err(GitLabServiceError::InvalidBaseUrl(m)) => assert_eq!(m, "no-colon-here"),
        other => panic!("unexpected {:?}", other),
    }
}

#[test]
fn parse_mr_url_errors() {
    let bad = |u: &str| match GitLabMergeRequestRef::parse(u) {
        Err(GitLabServiceError::InvalidMergeRequestUrl(m)) => m,
        other => panic!("unexpected {:?}", other),
    };
    assert_eq!(bad("not a url"), "relative URL without a base");
    assert_eq!(bad("https://h/group/project/merge_requests/1"), "https://h/group/project/merge_requests/1");
    assert_eq!(bad("https://h/-/merge_requests/1"), "https://h/-/merge_requests/1");
    assert_eq!(bad("https://h/g/p/-/merge_requests/abc"), "https://h/g/p/-/merge_requests/abc");
    assert_eq!(bad("https://h/g/p/-/merge_requests"), "https://h/g/p/-/merge_requests");
    let mr = GitLabMergeRequestRef::parse("http://h:8080/g/p/-/merge_requests/-7").unwrap();
    assert_eq!((mr.base_url.as_str(), mr.iid), ("http://h:8080", -7));
}

#[test]
fn service_new_and_paths() {
    assert!(matches!(GitLabService::new("https://g.example", "  "), Err(GitLabServiceError::TokenMissing)));
    assert!(matches!(GitLabService::new("nope", "t"), Err(GitLabServiceError::InvalidBaseUrl(_))));
    let s = GitLabService::new("https://g.example//", "tok").unwrap();
    assert_eq!(s.base_url, "https://g.example");
    assert_eq!(s.api_url("/projects"), "https://g.example/api/v4/projects");
    assert_eq!(encode_project_path("group/sub-1/p_q"), "group%2Fsub%2D1%2Fp%5Fq");
    assert_eq!(encode_project_path("é"), "%C3%A9");
    assert_eq!(merge_requests_path("g/p"), "/projects/g%2Fp/merge_requests");
    let mr = GitLabMergeRequestRef { base_url: "b".into(), project_path: "g/p".into(), iid: 5, web_url: "w".into() };
    assert_eq!(merge_request_path(&mr, "/notes"), "/projects/g%2Fp/merge_requests/5/notes");
}

#[test]
fn error_messages() {
    assert_eq!(GitLabServiceError::TokenMissing.message(), "GitLab token not configured");
    assert_eq!(GitLabServiceError::InvalidBaseUrl("x".into()).message(), "invalid GitLab base URL: x");
    assert_eq!(GitLabServiceError::NotFound.message(), "not found");
    assert_eq!(failed_reply_error("500 Internal Server Error", "oops").message(), "GitLab API request failed: status 500 Internal Server Error: oops");
}

#[test]
fn reply_classes() {
    assert_eq!(classify_reply(200, false), ReplyClass::Success);
    assert_eq!(classify_reply(201, false), ReplyClass::Failed);
    assert_eq!(classify_reply(201, true), ReplyClass::Success);
    assert_eq!(classify_reply(403, true), ReplyClass::InsufficientPermissions);
    assert_eq!(classify_reply(404, false), ReplyClass::NotFound);
}

fn note(id: i64, at: i128, system: bool, position: Option<GitLabPosition>) -> GitLabNote {
    GitLabNote {
        id,
        body: format!("body {id}"),
        created_at: at,
        author: GitLabAuthor { username: "dev".to_string() },
        system,
        position,
    }
}

fn pos(new: Option<(&str, i64)>, old: Option<(&str, i64)>) -> GitLabPosition {
    GitLabPosition {
        new_path: new.map(|(p, _)| p.to_string()),
        new_line: new.map(|(_, l)| l),
        old_path: old.map(|(p, _)| p.to_string()),
        old_line: old.map(|(_, l)| l),
    }
}

#[test]
fn comments_unified_and_sorted() {
    let notes = vec![
        note(1, 30, false, None),
        note(2, 10, true, None),
        note(3, 5, false, Some(pos(Some(("a.rs", 1)), None))),
        note(4, 20, false, None),
    ];
    let discussions = vec![GitLabDiscussion {
        id: "d".to_string(),
        notes: vec![
            note(5, 20, false, Some(pos(Some(("a.rs", 3)), None))),
            note(6, 1, false, Some(pos(None, Some(("b.rs", 9))))),
            note(7, 2, false, None),
            note(8, 3, true, Some(pos(Some(("c.rs", 1)), None))),
        ],
    }];
    let out = unify_comments("https://g/mr/1", notes, discussions);
    let ids: Vec<String> = out
        .iter()
        .map(|c| match c {
            UnifiedPrComment::General { id, .. } => format!("g{id}"),
            UnifiedPrComment::Review { id, .. } => format!("r{id}"),
        })
        .collect();
    assert_eq!(ids, vec!["r6", "g4", "r5", "g1"]);
    match &out[0] {
        UnifiedPrComment::Review { path, line, side, url, author_association, .. } => {
            assert_eq!((path.as_str(), *line, side.as_deref()), ("b.rs", Some(9), Some("LEFT")));
            assert_eq!(url, "https://g/mr/1#note_6");
            assert_eq!(author_association, "CONTRIBUTOR");
        },
        _ => panic!(),
    }
}

#[test]
fn review_positions_by_side() {
    let refs = GitLabDiffRefs { base_sha: "b".into(), head_sha: "h".into(), start_sha: "s".into() };
    let c = CreateGitLabReviewCommentInput { path: "x.rs".into(), line: 4, side: "left".into(), body: "hm".into() };
    let p = review_position(&refs, &c);
    assert_eq!((p.old_line, p.new_line, p.position_type.as_str()), (Some(4), None, "text"));
    let c = CreateGitLabReviewCommentInput { side: "RIGHT".into(), ..c };
    let p = review_position(&refs, &c);
    assert_eq!((p.old_line, p.new_line, p.new_path.as_str(), p.old_path.as_str()), (None, Some(4), "x.rs", "x.rs"));
}

#[test]
fn merge_request_listing() {
    let items = vec![GitLabMergeRequestListItem {
        iid: 3,
        web_url: "w".into(),
        state: "merged".into(),
        merged_at: Some(5),
        merge_commit_sha: Some("abc".into()),
    }];
    let infos = merge_request_infos(items);
    assert_eq!((infos[0].iid, infos[0].url.as_str(), infos[0].merged_at), (3, "w", Some(5)));
    let q = branch_merge_requests_query("feat");
    assert_eq!(q[1], ("source_branch".to_string(), "feat".to_string()));
    assert_eq!(q[2], ("per_page".to_string(), "20".to_string()));
}
