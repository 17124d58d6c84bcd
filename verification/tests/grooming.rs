use agile_kanban::grooming::{
    extract_first_json_object, extract_last_assistant_message, finalize_draft, has_setup_required_error,
    is_allowed_story_points, json_from_log, normalize_story_points, pad_subtasks, sanitize_items, truncate_chars,
    AskForApproval, BacklogGroomer, BacklogGroomerError, CodexSessionSettings, SandboxMode, BacklogGroomerLimits, BacklogGroomingDraft, LogEntry, LogEntryKind,
};

#[test]
fn sanitize_enforces_basic_constraints() {
    let draft = BacklogGroomingDraft {
        acceptance_criteria: vec!["  -  ".to_string(), " ok ".to_string()],
        subtasks: vec!["a".to_string()],
        story_points: 99,
    }
    .sanitize();

    assert_eq!(draft.acceptance_criteria, vec!["ok".to_string()]);
    assert_eq!(draft.subtasks.len(), 3);
    assert_eq!(draft.story_points, 13);
}

#[test]
fn validate_strict_checks_counts_and_points() {
    let ok = BacklogGroomingDraft {
        acceptance_criteria: vec!["a".to_string()],
        subtasks: vec!["1".to_string(), "2".to_string(), "3".to_string()],
        story_points: 5,
    };
    assert!(ok.validate_strict().is_ok());

    let bad = BacklogGroomingDraft {
        acceptance_criteria: vec![],
        subtasks: vec!["1".to_string(), "2".to_string(), "3".to_string()],
        story_points: 5,
    };
    assert!(bad.validate_strict().is_err());
}

#[test]
fn extract_json_prefers_fenced_block() {
    let text = "hi\n```json\n{\"a\":1}\n```\nbye";
    assert_eq!(extract_first_json_object(text).unwrap(), "{\"a\":1}");
}

#[test]
fn extract_json_falls_back_to_brace_span() {
    assert_eq!(extract_first_json_object("x {\"b\": {\"c\": 2}} y").unwrap(), "{\"b\": {\"c\": 2}}");
    assert_eq!(extract_first_json_object("no json here"), None);
    assert_eq!(extract_first_json_object("} before {"), None);
}

#[test]
fn extract_json_unclosed_fence_uses_braces() {
    assert_eq!(extract_first_json_object("```json {\"a\":2}").unwrap(), "{\"a\":2}");
}

#[test]
fn story_points_snap_to_allowed_values() {
    assert!(is_allowed_story_points(8));
    assert!(!is_allowed_story_points(4));
    assert_eq!(normalize_story_points(0), 1);
    assert_eq!(normalize_story_points(2), 2);
    assert_eq!(normalize_story_points(4), 5);
    assert_eq!(normalize_story_points(6), 5);
    assert_eq!(normalize_story_points(7), 8);
    assert_eq!(normalize_story_points(10), 8);
    assert_eq!(normalize_story_points(11), 13);
    assert_eq!(normalize_story_points(12), 13);
    assert_eq!(normalize_story_points(13), 13);
    assert_eq!(normalize_story_points(99), 13);
    assert_eq!(normalize_story_points(200), 13);
}

#[test]
fn truncate_chars_appends_ellipsis() {
    assert_eq!(truncate_chars("abcdef".to_string(), 3), "abc…");
    assert_eq!(truncate_chars("abc".to_string(), 3), "abc");
    assert_eq!(truncate_chars("ééé".to_string(), 2), "éé…");
}

#[test]
fn sanitize_items_trims_dashes_and_caps() {
    let items: Vec<String> = (0..12).map(|i| format!(" - item {i} ")).collect();
    let out = sanitize_items(&items, 1, 10);
    assert_eq!(out.len(), 10);
    assert_eq!(out[0], "item 0");
    let blank = vec!["   ".to_string(), "-".to_string()];
    assert!(sanitize_items(&blank, 1, 10).is_empty());
}

#[test]
fn pad_subtasks_fills_to_three() {
    assert_eq!(pad_subtasks(vec![]), vec!["TBD", "TBD", "TBD"]);
    assert_eq!(pad_subtasks(vec!["a".to_string()]), vec!["a", "TBD", "TBD"]);
    let four: Vec<String> = vec!["1", "2", "3", "4"].into_iter().map(String::from).collect();
    assert_eq!(pad_subtasks(four.clone()), four);
}

#[test]
fn sanitize_caps_subtasks_at_five() {
    let draft = BacklogGroomingDraft {
        acceptance_criteria: vec!["a".to_string()],
        subtasks: (0..8).map(|i| i.to_string()).collect(),
        story_points: 3,
    }
    .sanitize();
    assert_eq!(draft.subtasks.len(), 5);
    assert!(draft.validate_strict().is_ok());
}

#[test]
fn validate_strict_messages() {
    let few = BacklogGroomingDraft {
        acceptance_criteria: vec!["a".to_string()],
        subtasks: vec!["1".to_string()],
        story_points: 5,
    };
    assert_eq!(few.validate_strict(), Err("subtasks must be 3-5 items"));
    let points = BacklogGroomingDraft {
        acceptance_criteria: vec!["a".to_string()],
        subtasks: vec!["1".to_string(), "2".to_string(), "3".to_string()],
        story_points: 4,
    };
    assert_eq!(points.validate_strict(), Err("story_points must be one of 1,2,3,5,8,13"));
    let none = BacklogGroomingDraft { acceptance_criteria: vec![], subtasks: vec![], story_points: 1 };
    assert_eq!(none.validate_strict(), Err("acceptance_criteria must be non-empty"));
}

#[test]
fn prompt_holds_trimmed_story() {
    let p = BacklogGroomer::build_prompt("  As a user I want X  ");
    assert!(p.ends_with("STORY:\nAs a user I want X"));
    assert!(p.contains("\"story_points\": number (one of 1,2,3,5,8,13)"));
}

#[test]
fn limits_default_values() {
    let l = BacklogGroomerLimits::default();
    assert_eq!(l.timeout, std::time::Duration::from_secs(45));
    assert_eq!(l.max_story_chars, 4000);
    let g = BacklogGroomer::default();
    let long = "x".repeat(5000);
    assert_eq!(g.prepare_story(&long).chars().count(), 4001);
}

fn entry(index: usize, kind: LogEntryKind, content: &str) -> LogEntry {
    LogEntry { index, kind, content: content.to_string() }
}

#[test]
fn last_assistant_message_by_index() {
    let log = vec![
        entry(3, LogEntryKind::AssistantMessage, "third"),
        entry(5, LogEntryKind::AssistantMessage, "fifth"),
        entry(2, LogEntryKind::AssistantMessage, "second"),
        entry(5, LogEntryKind::AssistantMessage, "fifth again"),
        entry(9, LogEntryKind::Other, "tool"),
    ];
    assert_eq!(extract_last_assistant_message(&log).unwrap(), "fifth");
    assert_eq!(extract_last_assistant_message(&vec![entry(1, LogEntryKind::Other, "x")]), None);
}

#[test]
fn json_from_log_errors_in_order() {
    let auth = vec![entry(0, LogEntryKind::AssistantMessage, "{}"), entry(1, LogEntryKind::SetupRequiredError, "")];
    assert!(has_setup_required_error(&auth));
    assert!(matches!(json_from_log(&auth), Err(BacklogGroomerError::AuthRequired)));
    let none: Vec<LogEntry> = vec![];
    assert!(matches!(json_from_log(&none), Err(BacklogGroomerError::MissingAssistantMessage)));
    let text = vec![entry(0, LogEntryKind::AssistantMessage, "no object")];
    assert!(matches!(json_from_log(&text), Err(BacklogGroomerError::MissingJson)));
    let good = vec![entry(0, LogEntryKind::AssistantMessage, "here: {\"story_points\": 3}")];
    assert_eq!(json_from_log(&good).unwrap(), "{\"story_points\": 3}");
}

#[test]
fn finalize_draft_rejects_invalid() {
    let bad = BacklogGroomingDraft { acceptance_criteria: vec!["  ".to_string()], subtasks: vec![], story_points: 2 };
    assert!(matches!(finalize_draft(bad), Err(BacklogGroomerError::InvalidDraft("acceptance_criteria must be non-empty"))));
    let good = BacklogGroomingDraft { acceptance_criteria: vec![" a ".to_string()], subtasks: vec![], story_points: 7 };
    let d = finalize_draft(good).unwrap();
    assert_eq!(d.acceptance_criteria, vec!["a"]);
    assert_eq!(d.subtasks, vec!["TBD", "TBD", "TBD"]);
    assert_eq!(d.story_points, 8);
}

#[test]
fn grooming_session_is_restricted() {
    let mut settings = CodexSessionSettings {
        include_apply_patch_tool: Some(true),
        sandbox: Some(SandboxMode::DangerFullAccess),
        ask_for_approval: None,
    };
    settings.restrict_for_grooming();
    assert_eq!(settings.include_apply_patch_tool, Some(false));
    assert_eq!(settings.sandbox, Some(SandboxMode::ReadOnly));
    assert_eq!(settings.ask_for_approval, Some(AskForApproval::Never));
}
