use agile_kanban::merge::{DirectMerge, Merge, PrMerge, PullRequestInfo, MergeStatus};
use agile_kanban::streams::{
    execution_process_patch_action, forward_project_patch, forward_scratch_patch, forward_task_patch, merge_matches,
    parse_merge_id, MergeStreamFilter, PatchHead, PatchOpKind, ProcessFacts, ProcessStreamRecord, StreamAction,
    TaskStreamRecord,
};

fn direct(id: u128, workspace_id: u128, repo_id: u128) -> Merge {
    Merge::Direct(DirectMerge {
        id,
        workspace_id,
        repo_id,
        merge_commit: "c".to_string(),
        target_branch_name: "main".to_string(),
        created_at: 0,
    })
}

fn head(kind: PatchOpKind, path: &str) -> PatchHead {
    PatchHead { kind, path: path.to_string() }
}

fn merge_path(id: u128) -> String {
    format!("/merges/{}", uuid::Uuid::from_u128(id))
}

#[test]
fn merge_ids_from_paths() {
    assert_eq!(parse_merge_id(&merge_path(42)), Some(42));
    assert_eq!(parse_merge_id("/merges/not-a-uuid"), None);
    assert_eq!(parse_merge_id("/tasks/00000000-0000-0000-0000-00000000002a"), None);
}

#[test]
fn merge_stream_follows_its_merges() {
    let mut f = MergeStreamFilter::new(1, 2, &vec![direct(10, 1, 2)]);
    assert!(merge_matches(&direct(11, 1, 2), 1, 2));
    assert!(!merge_matches(&direct(11, 1, 3), 1, 2));
    // A removal of a merge the stream never sent is dropped.
    assert!(!f.on_patch(Some(&head(PatchOpKind::Remove, &merge_path(11))), None));
    // Adding one of its own is forwarded and followed.
    assert!(f.on_patch(Some(&head(PatchOpKind::Add, &merge_path(11))), Some(&direct(11, 1, 2))));
    assert!(f.on_patch(Some(&head(PatchOpKind::Remove, &merge_path(11))), None));
    // Removed once, a second removal is dropped.
    assert!(!f.on_patch(Some(&head(PatchOpKind::Remove, &merge_path(11))), None));
    // The snapshot's merge is followed from the start.
    assert!(f.on_patch(Some(&head(PatchOpKind::Remove, &merge_path(10))), None));
    // Another workspace's merge, and other paths, are dropped.
    assert!(!f.on_patch(Some(&head(PatchOpKind::Replace, &merge_path(12))), Some(&direct(12, 9, 2))));
    assert!(!f.on_patch(Some(&head(PatchOpKind::Add, "/tasks/x")), Some(&direct(13, 1, 2))));
    assert!(!f.on_patch(None, None));
    let pr = Merge::Pr(PrMerge {
        id: 14,
        workspace_id: 1,
        repo_id: 2,
        created_at: 0,
        target_branch_name: "main".into(),
        pr_info: PullRequestInfo { number: 1, url: "u".into(), status: MergeStatus::Open, merged_at: None, merge_commit_sha: None },
    });
    assert!(f.on_patch(Some(&head(PatchOpKind::Replace, &merge_path(14))), Some(&pr)));
    f.resync(&vec![]);
    assert!(!f.on_patch(Some(&head(PatchOpKind::Remove, &merge_path(14))), None));
}

#[test]
fn task_stream_filter() {
    let add = head(PatchOpKind::Add, "/tasks/abc");
    assert!(forward_task_patch(Some(&add), Some(5), None, 5));
    assert!(!forward_task_patch(Some(&add), Some(6), None, 5));
    assert!(!forward_task_patch(Some(&add), None, None, 5));
    assert!(forward_task_patch(Some(&head(PatchOpKind::Remove, "/tasks/abc")), None, None, 5));
    let legacy = head(PatchOpKind::Replace, "/");
    assert!(forward_task_patch(Some(&legacy), None, Some(TaskStreamRecord::Task { project_id: 5 }), 5));
    assert!(!forward_task_patch(Some(&legacy), None, Some(TaskStreamRecord::DeletedTask { project_id: None }), 5));
    assert!(forward_task_patch(Some(&legacy), None, Some(TaskStreamRecord::Workspace { task_project: Some(5) }), 5));
    assert!(!forward_task_patch(Some(&legacy), None, Some(TaskStreamRecord::DeletedWorkspace { task_project: Some(4) }), 5));
    assert!(!forward_task_patch(None, Some(5), None, 5));
}

#[test]
fn project_stream_filter() {
    assert!(forward_project_patch(Some(&head(PatchOpKind::Add, "/projects/1"))));
    assert!(forward_project_patch(Some(&head(PatchOpKind::Replace, "/projects"))));
    assert!(!forward_project_patch(Some(&head(PatchOpKind::Add, "/tasks/1"))));
    assert!(!forward_project_patch(None));
}

#[test]
fn execution_process_stream_filter() {
    let sessions = vec![1u128, 2];
    let add = head(PatchOpKind::Add, "/execution_processes/x");
    let live = ProcessFacts { id: 9, session_id: 2, dropped: false };
    let dropped = ProcessFacts { id: 9, session_id: 2, dropped: true };
    assert_eq!(execution_process_patch_action(Some(&add), Some(live), None, &sessions, false), StreamAction::Forward);
    assert_eq!(execution_process_patch_action(Some(&add), Some(dropped), None, &sessions, false), StreamAction::SendRemoval(9));
    assert_eq!(execution_process_patch_action(Some(&add), Some(dropped), None, &sessions, true), StreamAction::Forward);
    let foreign = ProcessFacts { id: 9, session_id: 3, dropped: false };
    assert_eq!(execution_process_patch_action(Some(&add), Some(foreign), None, &sessions, false), StreamAction::Drop);
    let rm = head(PatchOpKind::Remove, "/execution_processes/x");
    assert_eq!(execution_process_patch_action(Some(&rm), None, None, &sessions, false), StreamAction::Forward);
    let legacy = head(PatchOpKind::Add, "/");
    assert_eq!(
        execution_process_patch_action(Some(&legacy), None, Some(ProcessStreamRecord::DeletedProcess { session_id: Some(1) }), &sessions, false),
        StreamAction::Forward
    );
    assert_eq!(
        execution_process_patch_action(Some(&legacy), None, Some(ProcessStreamRecord::Process(dropped)), &sessions, false),
        StreamAction::SendRemoval(9)
    );
    assert_eq!(execution_process_patch_action(Some(&legacy), None, Some(ProcessStreamRecord::Other), &sessions, false), StreamAction::Drop);
}

#[test]
fn scratch_stream_filter() {
    let id = 77u128;
    let id_text = Some(uuid::Uuid::from_u128(id).to_string());
    let ty = Some("draft".to_string());
    let add = head(PatchOpKind::Add, "/scratch");
    assert!(forward_scratch_patch(Some(&add), &id_text, &ty, id, "draft"));
    assert!(!forward_scratch_patch(Some(&add), &id_text, &Some("other".into()), id, "draft"));
    assert!(!forward_scratch_patch(Some(&head(PatchOpKind::Remove, "/scratch")), &id_text, &ty, id, "draft"));
    assert!(!forward_scratch_patch(Some(&head(PatchOpKind::Add, "/scratch/x")), &id_text, &ty, id, "draft"));
    assert!(!forward_scratch_patch(Some(&add), &None, &ty, id, "draft"));
}
