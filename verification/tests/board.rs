use agile_kanban::agile::{validate_and_normalize_agile_fields, AgileFieldError, AgileFieldsInput, SprintSummary, TaskSummary};
use agile_kanban::board::{
    backlog, check_no_epics, check_repositories, check_sprint_name, check_sprint_update_name, check_task_rows,
    format_uuid_list, merge_task_update, promotion_target, shared_task_access, BacklogQuery, CreateTask,
    SprintPlanningTaskIds, TaskIdsError, UpdateTask, delete_task_precheck, deleted_outcome, workspace_cleanup_dirs,
    DeleteTaskRefusal,
};
use agile_kanban::model::{
    Sprint, SprintStatus, Task, TaskStatus, TaskType, TaskWithAttemptStatus, UpdateSprint, WorkflowEnvironment,
};

fn input(project_id: u128, task_type: TaskType) -> AgileFieldsInput {
    AgileFieldsInput { project_id, task_type, sprint_id: None, epic_id: None, parent_task_id: None, story_points: None }
}

#[test]
fn validates_epic_cannot_be_in_sprint() {
    let sprints = vec![SprintSummary { id: 10, project_id: 1 }];
    let err = validate_and_normalize_agile_fields(AgileFieldsInput { sprint_id: Some(10), ..input(1, TaskType::Epic) }, &sprints, &vec![])
        .unwrap_err();
    assert!(err.message().contains("Epic tasks cannot be assigned to a sprint"));
}

#[test]
fn validates_feature_requires_epic_parent_and_derives_epic_id() {
    let tasks = vec![TaskSummary { id: 20, project_id: 1, task_type: TaskType::Epic, epic_id: None }];
    let f = validate_and_normalize_agile_fields(AgileFieldsInput { parent_task_id: Some(20), ..input(1, TaskType::Feature) }, &vec![], &tasks)
        .unwrap();
    assert_eq!(f.sprint_id, None);
    assert_eq!(f.epic_id, Some(20));
    assert_eq!(f.parent_task_id, Some(20));
    assert_eq!(f.story_points, None);
}

#[test]
fn validates_story_requires_feature_parent_and_derives_epic_id() {
    let tasks = vec![
        TaskSummary { id: 20, project_id: 1, task_type: TaskType::Epic, epic_id: None },
        TaskSummary { id: 30, project_id: 1, task_type: TaskType::Feature, epic_id: Some(20) },
    ];
    let f = validate_and_normalize_agile_fields(
        AgileFieldsInput { parent_task_id: Some(30), story_points: Some(3), ..input(1, TaskType::Story) },
        &vec![],
        &tasks,
    )
    .unwrap();
    assert_eq!(f.epic_id, Some(20));
    assert_eq!(f.parent_task_id, Some(30));
    assert_eq!(f.story_points, Some(3));
}

#[test]
fn agile_errors_each_rule() {
    let tasks = vec![
        TaskSummary { id: 20, project_id: 1, task_type: TaskType::Epic, epic_id: None },
        TaskSummary { id: 21, project_id: 2, task_type: TaskType::Epic, epic_id: None },
        TaskSummary { id: 30, project_id: 1, task_type: TaskType::Feature, epic_id: Some(20) },
    ];
    let sprints = vec![SprintSummary { id: 10, project_id: 2 }];
    let run = |i: AgileFieldsInput| validate_and_normalize_agile_fields(i, &sprints, &tasks);
    assert_eq!(run(AgileFieldsInput { story_points: Some(-1), ..input(1, TaskType::Task) }), Err(AgileFieldError::NegativeStoryPoints));
    assert_eq!(run(AgileFieldsInput { story_points: Some(2), ..input(1, TaskType::Feature) }), Err(AgileFieldError::FeatureWithStoryPoints));
    assert_eq!(run(AgileFieldsInput { sprint_id: Some(11), ..input(1, TaskType::Task) }), Err(AgileFieldError::SprintNotFound));
    assert_eq!(run(AgileFieldsInput { sprint_id: Some(10), ..input(1, TaskType::Task) }), Err(AgileFieldError::SprintInOtherProject));
    assert_eq!(run(input(1, TaskType::Story)), Err(AgileFieldError::MissingParent));
    assert_eq!(run(AgileFieldsInput { parent_task_id: Some(99), ..input(1, TaskType::Story) }), Err(AgileFieldError::ParentNotFound));
    assert_eq!(run(AgileFieldsInput { parent_task_id: Some(21), ..input(1, TaskType::Feature) }), Err(AgileFieldError::ParentInOtherProject));
    assert_eq!(run(AgileFieldsInput { parent_task_id: Some(20), ..input(1, TaskType::Story) }), Err(AgileFieldError::StoryParentNotFeature));
    assert_eq!(run(AgileFieldsInput { parent_task_id: Some(30), ..input(1, TaskType::Feature) }), Err(AgileFieldError::FeatureParentNotEpic));
    assert_eq!(run(AgileFieldsInput { parent_task_id: Some(20), ..input(1, TaskType::Task) }), Err(AgileFieldError::TaskParentNotStoryOrFeature));
    assert_eq!(run(AgileFieldsInput { parent_task_id: Some(30), epic_id: Some(21), ..input(1, TaskType::Story) }), Err(AgileFieldError::EpicMismatch));
    assert_eq!(run(AgileFieldsInput { epic_id: Some(20), ..input(1, TaskType::Epic) }), Err(AgileFieldError::EpicWithParent));
    assert_eq!(run(AgileFieldsInput { story_points: Some(1), ..input(1, TaskType::Epic) }), Err(AgileFieldError::EpicWithStoryPoints));
    assert_eq!(run(AgileFieldsInput { epic_id: Some(99), ..input(1, TaskType::Task) }), Err(AgileFieldError::EpicNotFound));
    assert_eq!(run(AgileFieldsInput { epic_id: Some(21), ..input(1, TaskType::Task) }), Err(AgileFieldError::EpicInOtherProject));
    assert_eq!(run(AgileFieldsInput { epic_id: Some(30), ..input(1, TaskType::Task) }), Err(AgileFieldError::EpicNotAnEpic));
    let ok = run(AgileFieldsInput { epic_id: Some(20), story_points: Some(5), ..input(1, TaskType::Task) }).unwrap();
    assert_eq!((ok.epic_id, ok.story_points), (Some(20), Some(5)));
}

fn id() -> u128 {
    uuid::Uuid::new_v4().as_u128()
}

#[test]
fn validates_task_ids_belong_to_project_ok() {
    let (p, t) = (id(), id());
    assert!(check_task_rows(p, &vec![t], &vec![(t, p)]).is_ok());
}

#[test]
fn validates_task_ids_belong_to_project_errors_for_missing() {
    let p = id();
    let err = check_task_rows(p, &vec![id()], &vec![]).unwrap_err();
    let msg = err.message();
    assert!(msg.contains("Some task_ids were not found"));
}

#[test]
fn validates_task_ids_belong_to_project_errors_for_wrong_project() {
    let (sprint_project, other_project, t) = (id(), id(), id());
    let err = check_task_rows(sprint_project, &vec![t], &vec![(t, other_project)]).unwrap_err();
    let msg = err.message();
    assert!(msg.contains("does not belong to sprint project"));
    assert!(matches!(err, TaskIdsError::WrongProject { .. }));
}

#[test]
fn uuid_list_is_capped() {
    let ids: Vec<u128> = (1..=12).collect();
    let s = format_uuid_list(&ids, 10);
    assert!(s.starts_with("[00000000-0000-0000-0000-000000000001, "));
    assert!(s.ends_with(", … +2 more]"));
    assert_eq!(format_uuid_list(&vec![], 10), "[]");
    let missing = check_task_rows(1, &vec![5, 5, 6], &vec![(6, 1)]).unwrap_err();
    assert_eq!(missing.message(), "Some task_ids were not found: [00000000-0000-0000-0000-000000000005]");
}

#[test]
fn sprint_checks() {
    assert_eq!(check_sprint_name("  "), Err("Sprint name cannot be empty"));
    assert!(check_sprint_name("S1").is_ok());
    assert!(check_sprint_update_name(&None).is_ok());
    assert!(check_sprint_update_name(&Some(" ".into())).is_err());
    assert_eq!(check_no_epics(&vec![(1, TaskType::Story), (2, TaskType::Epic)]), Err("Epic tasks cannot be assigned to a sprint"));
    assert!(check_no_epics(&vec![(1, TaskType::Story)]).is_ok());
    assert!(SprintPlanningTaskIds { task_ids: vec![] }.empty_response().is_some());
    assert!(SprintPlanningTaskIds { task_ids: vec![1] }.empty_response().is_none());
}

fn task(task_type: TaskType, status: TaskStatus, sprint_id: Option<u128>, created_at: i128) -> Task {
    Task {
        id: id(),
        project_id: 1,
        title: format!("{:?}-{}", task_type, created_at),
        description: None,
        status,
        sprint_id,
        task_type,
        epic_id: None,
        parent_task_id: None,
        story_points: None,
        parent_workspace_id: None,
        shared_task_id: None,
        created_at,
        updated_at: created_at,
    }
}

fn with_status(t: Task) -> TaskWithAttemptStatus {
    TaskWithAttemptStatus {
        task: t,
        has_in_progress_attempt: false,
        last_attempt_failed: false,
        executor: "x".to_string(),
        environment_promotions: None,
    }
}

#[test]
fn backlog_sorts_by_type_then_newest() {
    let tasks = vec![
        with_status(task(TaskType::Task, TaskStatus::Todo, None, 5)),
        with_status(task(TaskType::Epic, TaskStatus::Todo, None, 1)),
        with_status(task(TaskType::Story, TaskStatus::Done, None, 9)),
        with_status(task(TaskType::Task, TaskStatus::Todo, Some(3), 7)),
        with_status(task(TaskType::Task, TaskStatus::InProgress, None, 8)),
    ];
    let q = BacklogQuery { project_id: 1, include_done: false, include_cancelled: false, include_in_sprint: false };
    let titles: Vec<String> = backlog(tasks, &q).into_iter().map(|t| t.task.title).collect();
    assert_eq!(titles, vec!["Epic-1", "Task-8", "Task-5"]);
}

#[test]
fn task_updates_and_promotions() {
    let t = task(TaskType::Story, TaskStatus::Todo, None, 1);
    let upd = UpdateTask {
        title: None,
        description: Some("   ".to_string()),
        status: Some(TaskStatus::InReview),
        sprint_id: Some(Some(4)),
        task_type: None,
        epic_id: None,
        parent_task_id: None,
        story_points: Some(None),
        parent_workspace_id: None,
        image_ids: None,
    };
    let d = merge_task_update(&t, &upd);
    assert_eq!(d.title, t.title);
    assert_eq!(d.description, None);
    assert_eq!((d.status, d.sprint_id, d.task_type), (TaskStatus::InReview, Some(4), TaskType::Story));
    assert_eq!(promotion_target(TaskStatus::Todo, TaskStatus::InReview, true), Some(WorkflowEnvironment::Staging));
    assert_eq!(promotion_target(TaskStatus::InReview, TaskStatus::Done, true), Some(WorkflowEnvironment::Prod));
    assert_eq!(promotion_target(TaskStatus::Done, TaskStatus::Done, true), None);
    assert_eq!(promotion_target(TaskStatus::Todo, TaskStatus::Done, false), None);
    assert!(shared_task_access(true, false).is_err());
    assert!(shared_task_access(true, true).is_ok());
    assert_eq!(check_repositories(0), Err("At least one repository is required"));
}

#[test]
fn create_task_and_prompt() {
    let c = CreateTask::from_title_description(9, "Title".to_string(), Some("Body".to_string()));
    assert_eq!((c.project_id, c.status, c.task_type), (9, Some(TaskStatus::Todo), Some(TaskType::Task)));
    let t = task(TaskType::Task, TaskStatus::Todo, None, 1);
    let mut t2 = t.clone();
    t2.description = Some("More".to_string());
    assert_eq!(t2.to_prompt(), format!("{}\n\nMore", t2.title));
    assert_eq!(t.to_prompt(), t.title);
}

#[test]
fn sprint_update_keeps_unset_fields() {
    let s = Sprint {
        id: 1,
        project_id: 2,
        name: "Old".to_string(),
        start_at: 0,
        end_at: 0,
        goal: Some("g".to_string()),
        start_date: Some(5),
        end_date: None,
        status: SprintStatus::Active,
        created_at: 0,
        updated_at: 0,
    };
    let f = s.updated_fields(&UpdateSprint { name: Some("New".into()), goal: None, start_date: None, end_date: Some(9), status: None });
    assert_eq!((f.name.as_str(), f.goal.as_deref(), f.start_date, f.end_date, f.status), ("New", Some("g"), Some(5), Some(9), SprintStatus::Active));
}

#[test]
fn wrong_project_message_names_ids_in_uuid_form() {
    let err = TaskIdsError::WrongProject {
        task_id: 0x0123_4567_89ab_cdef_0011_2233_4455_6677,
        sprint_project_id: 1,
        found_project_id: 0xffff_ffff_ffff_ffff_ffff_ffff_ffff_ffff,
    };
    assert_eq!(
        err.message(),
        "Task 01234567-89ab-cdef-0011-223344556677 does not belong to sprint project \
         00000000-0000-0000-0000-000000000001 (found project ffffffff-ffff-ffff-ffff-ffffffffffff)"
    );
}

#[test]
fn delete_task_decisions() {
    assert_eq!(delete_task_precheck(true, false, true), Err(DeleteTaskRefusal::MissingAuth));
    assert_eq!(delete_task_precheck(true, true, true), Err(DeleteTaskRefusal::RunningProcesses));
    assert_eq!(delete_task_precheck(false, false, true), Err(DeleteTaskRefusal::RunningProcesses));
    assert_eq!(delete_task_precheck(false, false, false), Ok(()));
    assert_eq!(
        DeleteTaskRefusal::RunningProcesses.message(),
        Some("Task has running execution processes. Please wait for them to complete or stop them first.")
    );
    assert_eq!(DeleteTaskRefusal::NotFound.message(), None);
    assert_eq!(deleted_outcome(0), Err(DeleteTaskRefusal::NotFound));
    assert_eq!(deleted_outcome(2), Ok(()));
    let dirs = workspace_cleanup_dirs(&vec![Some("/w/a".to_string()), None, Some("/w/b".to_string())]);
    assert_eq!(dirs, vec!["/w/a".to_string(), "/w/b".to_string()]);
}
