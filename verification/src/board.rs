//! The rules of the board around tasks and sprints: new and updated tasks,
//! the backlog view, sprint planning and the checks made before a change.
use vstd::prelude::*;
use crate::agile::{AgileFields, AgileFieldsInput, TaskSummary};
use crate::ids::{uuid_text, uuid_to_string};
use crate::model::{
    CreateSprint, Sprint, SprintStatus, Task, TaskStatus, TaskType, TaskWithAttemptStatus,
    UpdateSprint, WorkflowEnvironment,
};
use crate::ordering::{
    contains_id, dedup_ids, first_occurrences, is_stable_order, lemma_complement_reverses, stable_sort_by_keys,
};
use crate::text::{is_blank, joined, join_strings, trim, views, format_usize, decimal};

verus! {

/// What a new task is made of.
#[derive(Debug, Clone)]
pub struct CreateTask {
    pub project_id: u128,
    pub title: String,
    pub description: Option<String>,
    pub status: Option<TaskStatus>,
    pub sprint_id: Option<u128>,
    pub task_type: Option<TaskType>,
    pub epic_id: Option<u128>,
    pub parent_task_id: Option<u128>,
    pub story_points: Option<i32>,
    pub parent_workspace_id: Option<u128>,
    pub image_ids: Option<Vec<u128>>,
    pub shared_task_id: Option<u128>,
}

impl CreateTask {
    /// A plain `Todo` task with a title and an optional description.
    pub fn from_title_description(project_id: u128, title: String, description: Option<String>) -> (r: Self)
        ensures
            r.project_id == project_id,
            r.title == title,
            r.description == description,
            r.status == Some(TaskStatus::Todo),
            r.sprint_id is None,
            r.task_type == Some(TaskType::Task),
            r.epic_id is None,
            r.parent_task_id is None,
            r.story_points is None,
            r.parent_workspace_id is None,
            r.image_ids is None,
            r.shared_task_id is None,
    {
        CreateTask {
            project_id,
            title,
            description,
            status: Some(TaskStatus::Todo),
            sprint_id: None,
            task_type: Some(TaskType::Task),
            epic_id: None,
            parent_task_id: None,
            story_points: None,
            parent_workspace_id: None,
            image_ids: None,
            shared_task_id: None,
        }
    }

    /// A plain task made from a shared task, with the shared task's status.
    pub fn from_shared_task(
        project_id: u128,
        title: String,
        description: Option<String>,
        status: TaskStatus,
        shared_task_id: u128,
    ) -> (r: Self)
        ensures
            r.project_id == project_id,
            r.title == title,
            r.description == description,
            r.status == Some(status),
            r.sprint_id is None,
            r.task_type == Some(TaskType::Task),
            r.epic_id is None,
            r.parent_task_id is None,
            r.story_points is None,
            r.parent_workspace_id is None,
            r.image_ids is None,
            r.shared_task_id == Some(shared_task_id),
    {
        CreateTask {
            project_id,
            title,
            description,
            status: Some(status),
            sprint_id: None,
            task_type: Some(TaskType::Task),
            epic_id: None,
            parent_task_id: None,
            story_points: None,
            parent_workspace_id: None,
            image_ids: None,
            shared_task_id: Some(shared_task_id),
        }
    }

    /// The type a new task gets: the one asked for, else `Task`.
    pub fn effective_type(&self) -> (r: TaskType)
        ensures
            r == (match self.task_type {
                Some(t) => t,
                None => TaskType::Task,
            }),
    {
        match self.task_type {
            Some(t) => t,
            None => TaskType::Task,
        }
    }

    /// The agile fields of the new task, to be checked.
    pub fn agile_input(&self) -> (r: AgileFieldsInput)
        ensures
            r.project_id == self.project_id,
            r.task_type == (match self.task_type {
                Some(t) => t,
                None => TaskType::Task,
            }),
            r.sprint_id == self.sprint_id,
            r.epic_id == self.epic_id,
            r.parent_task_id == self.parent_task_id,
            r.story_points == self.story_points,
    {
        AgileFieldsInput {
            project_id: self.project_id,
            task_type: self.effective_type(),
            sprint_id: self.sprint_id,
            epic_id: self.epic_id,
            parent_task_id: self.parent_task_id,
            story_points: self.story_points,
        }
    }

    /// The new task with its type settled and its agile fields as validated.
    pub fn with_agile_fields(self, task_type: TaskType, fields: AgileFields) -> (r: Self)
        ensures
            r.project_id == self.project_id,
            r.title == self.title,
            r.description == self.description,
            r.status == self.status,
            r.task_type == Some(task_type),
            r.sprint_id == fields.sprint_id,
            r.epic_id == fields.epic_id,
            r.parent_task_id == fields.parent_task_id,
            r.story_points == fields.story_points,
            r.parent_workspace_id == self.parent_workspace_id,
            r.image_ids == self.image_ids,
            r.shared_task_id == self.shared_task_id,
    {
        CreateTask {
            task_type: Some(task_type),
            sprint_id: fields.sprint_id,
            epic_id: fields.epic_id,
            parent_task_id: fields.parent_task_id,
            story_points: fields.story_points,
            ..self
        }
    }
}

/// The text given to a coding agent for a task: the title, then a blank line
/// and the description when there is a non-blank one.
pub open spec fn prompt_of(title: Seq<char>, description: Option<Seq<char>>) -> Seq<char> {
    match description {
        Some(d) => if trim(d).len() > 0 {
            title + "\n\n"@ + d
        } else {
            title
        },
        None => title,
    }
}

impl Task {
    /// The text given to a coding agent for the task.
    pub fn to_prompt(&self) -> (r: String)
        ensures
            r@ == prompt_of(self.title@, match self.description {
                Some(d) => Some(d@),
                None => None,
            }),
    {
        match &self.description {
            Some(d) => {
                if !is_blank(d.as_str()) {
                    let mut r = crate::text::copy_str(self.title.as_str());
                    r.append("\n\n");
                    r.append(d.as_str());
                    r
                } else {
                    self.title.clone()
                }
            },
            None => self.title.clone(),
        }
    }

    /// Its fields that the agile checks need.
    pub fn summary(&self) -> (r: TaskSummary)
        ensures
            r == (TaskSummary {
                id: self.id,
                project_id: self.project_id,
                task_type: self.task_type,
                epic_id: self.epic_id,
            }),
    {
        TaskSummary { id: self.id, project_id: self.project_id, task_type: self.task_type, epic_id: self.epic_id }
    }
}

/// A partial update of a task; a field left out keeps its value, and the
/// nested options set or clear a field.
#[derive(Debug)]
pub struct UpdateTask {
    pub title: Option<String>,
    pub description: Option<String>,
    pub status: Option<TaskStatus>,
    pub sprint_id: Option<Option<u128>>,
    pub task_type: Option<TaskType>,
    pub epic_id: Option<Option<u128>>,
    pub parent_task_id: Option<Option<u128>>,
    pub story_points: Option<Option<i32>>,
    pub parent_workspace_id: Option<Option<u128>>,
    pub image_ids: Option<Vec<u128>>,
}

/// The complete set of fields a task is updated to.
#[derive(Debug, Clone)]
pub struct UpdateTaskData {
    pub title: String,
    pub description: Option<String>,
    pub status: TaskStatus,
    pub sprint_id: Option<u128>,
    pub task_type: TaskType,
    pub epic_id: Option<u128>,
    pub parent_task_id: Option<u128>,
    pub story_points: Option<i32>,
    pub parent_workspace_id: Option<u128>,
}

/// The value of an optional field after an update.
pub open spec fn updated<T>(given: Option<T>, existing: T) -> T {
    match given {
        Some(v) => v,
        None => existing,
    }
}

/// The description after an update: a blank one clears it, a non-blank one
/// replaces it, none keeps it.
pub open spec fn updated_description(given: Option<String>, existing: Option<String>) -> Option<String> {
    match given {
        Some(s) => if trim(s@).len() == 0 {
            None
        } else {
            Some(s)
        },
        None => existing,
    }
}

/// The fields a task would take from `payload`, before the agile rules are
/// checked.
pub fn merge_task_update(existing: &Task, payload: &UpdateTask) -> (r: UpdateTaskData)
    ensures
        r.title == updated(payload.title, existing.title),
        r.description == updated_description(payload.description, existing.description),
        r.status == updated(payload.status, existing.status),
        r.sprint_id == updated(payload.sprint_id, existing.sprint_id),
        r.task_type == updated(payload.task_type, existing.task_type),
        r.epic_id == updated(payload.epic_id, existing.epic_id),
        r.parent_task_id == updated(payload.parent_task_id, existing.parent_task_id),
        r.story_points == updated(payload.story_points, existing.story_points),
        r.parent_workspace_id == updated(payload.parent_workspace_id, existing.parent_workspace_id),
{
    let title = match &payload.title {
        Some(t) => t.clone(),
        None => existing.title.clone(),
    };
    let description = match &payload.description {
        Some(s) => if is_blank(s.as_str()) {
            None
        } else {
            Some(s.clone())
        },
        None => existing.description.clone(),
    };
    UpdateTaskData {
        title,
        description,
        status: match payload.status {
            Some(s) => s,
            None => existing.status,
        },
        sprint_id: match payload.sprint_id {
            Some(s) => s,
            None => existing.sprint_id,
        },
        task_type: match payload.task_type {
            Some(t) => t,
            None => existing.task_type,
        },
        epic_id: match payload.epic_id {
            Some(e) => e,
            None => existing.epic_id,
        },
        parent_task_id: match payload.parent_task_id {
            Some(p) => p,
            None => existing.parent_task_id,
        },
        story_points: match payload.story_points {
            Some(p) => p,
            None => existing.story_points,
        },
        parent_workspace_id: match payload.parent_workspace_id {
            Some(p) => p,
            None => existing.parent_workspace_id,
        },
    }
}

impl UpdateTaskData {
    /// The agile fields of the update, to be checked against the task's
    /// project.
    pub fn agile_input(&self, project_id: u128) -> (r: AgileFieldsInput)
        ensures
            r == (AgileFieldsInput {
                project_id,
                task_type: self.task_type,
                sprint_id: self.sprint_id,
                epic_id: self.epic_id,
                parent_task_id: self.parent_task_id,
                story_points: self.story_points,
            }),
    {
        AgileFieldsInput {
            project_id,
            task_type: self.task_type,
            sprint_id: self.sprint_id,
            epic_id: self.epic_id,
            parent_task_id: self.parent_task_id,
            story_points: self.story_points,
        }
    }

    /// The update with its agile fields as validated.
    pub fn with_agile_fields(self, fields: AgileFields) -> (r: Self)
        ensures
            r.title == self.title,
            r.description == self.description,
            r.status == self.status,
            r.task_type == self.task_type,
            r.sprint_id == fields.sprint_id,
            r.epic_id == fields.epic_id,
            r.parent_task_id == fields.parent_task_id,
            r.story_points == fields.story_points,
            r.parent_workspace_id == self.parent_workspace_id,
    {
        UpdateTaskData {
            sprint_id: fields.sprint_id,
            epic_id: fields.epic_id,
            parent_task_id: fields.parent_task_id,
            story_points: fields.story_points,
            ..self
        }
    }
}

/// The environment a status change promotes a task to, when workflow
/// automation is on: review goes to staging, done goes to production.
pub open spec fn promotion_for(old: TaskStatus, new: TaskStatus, enabled: bool) -> Option<WorkflowEnvironment> {
    if old == new || !enabled {
        None
    } else if new == TaskStatus::InReview {
        Some(WorkflowEnvironment::Staging)
    } else if new == TaskStatus::Done {
        Some(WorkflowEnvironment::Prod)
    } else {
        None
    }
}

/// The environment a status change promotes a task to, if any.
pub fn promotion_target(old: TaskStatus, new: TaskStatus, workflow_enabled: bool) -> (r: Option<WorkflowEnvironment>)
    ensures
        r == promotion_for(old, new, workflow_enabled),
{
    if old == new || !workflow_enabled {
        return None;
    }
    match new {
        TaskStatus::InReview => Some(WorkflowEnvironment::Staging),
        TaskStatus::Done => Some(WorkflowEnvironment::Prod),
        _ => None,
    }
}

/// Why a change to a shared task is refused.
#[derive(Debug, Clone, Copy, PartialEq, Eq, Structural)]
pub enum ShareAccessError {
    /// The task is shared and nobody is logged in.
    MissingAuth,
}

/// A shared task may only be changed by a logged-in user.
pub fn shared_task_access(is_shared: bool, logged_in: bool) -> (r: Result<(), ShareAccessError>)
    ensures
        r is Err <==> is_shared && !logged_in,
{
    if is_shared && !logged_in {
        Err(ShareAccessError::MissingAuth)
    } else {
        Ok(())
    }
}

/// Why a task is not deleted.
#[derive(Debug, Clone, Copy, PartialEq, Eq, Structural)]
pub enum DeleteTaskRefusal {
    /// The task is shared and nobody is logged in.
    MissingAuth,
    /// An execution process of the task is still running (a conflict).
    RunningProcesses,
    /// No task row was deleted.
    NotFound,
}

impl DeleteTaskRefusal {
    /// The message of a refusal that carries one.
    pub fn message(&self) -> (r: Option<&'static str>)
        ensures
            *self == DeleteTaskRefusal::RunningProcesses <==> r is Some,
            r matches Some(m) ==> m@
                == "Task has running execution processes. Please wait for them to complete or stop them first."@,
    {
        match self {
            DeleteTaskRefusal::RunningProcesses => Some(
                "Task has running execution processes. Please wait for them to complete or stop them first.",
            ),
            _ => None,
        }
    }
}

/// The checks before a task is deleted, in order: a shared task needs a
/// logged-in user, then no execution process of the task may be running.
pub fn delete_task_precheck(is_shared: bool, logged_in: bool, has_running_processes: bool) -> (r: Result<(), DeleteTaskRefusal>)
    ensures
        is_shared && !logged_in ==> r == Err::<(), DeleteTaskRefusal>(DeleteTaskRefusal::MissingAuth),
        !(is_shared && !logged_in) && has_running_processes ==> r == Err::<(), DeleteTaskRefusal>(
            DeleteTaskRefusal::RunningProcesses,
        ),
        !(is_shared && !logged_in) && !has_running_processes ==> r is Ok,
{
    if shared_task_access(is_shared, logged_in).is_err() {
        return Err(DeleteTaskRefusal::MissingAuth);
    }
    if has_running_processes {
        return Err(DeleteTaskRefusal::RunningProcesses);
    }
    Ok(())
}

/// The outcome of the delete itself: no row deleted means the task was not
/// found.
pub fn deleted_outcome(rows_affected: u64) -> (r: Result<(), DeleteTaskRefusal>)
    ensures
        rows_affected == 0 <==> r == Err::<(), DeleteTaskRefusal>(DeleteTaskRefusal::NotFound),
        rows_affected > 0 <==> r is Ok,
{
    if rows_affected == 0 {
        Err(DeleteTaskRefusal::NotFound)
    } else {
        Ok(())
    }
}

/// The workspace directories to clean up once a task is deleted: the
/// container references of its workspaces that have one, in order.
pub open spec fn cleanup_dirs(refs: Seq<Option<String>>) -> Seq<Seq<char>>
    decreases refs.len(),
{
    if refs.len() == 0 {
        Seq::empty()
    } else {
        let rest = cleanup_dirs(refs.drop_last());
        match refs.last() {
            Some(d) => rest.push(d@),
            None => rest,
        }
    }
}

/// The workspace directories to clean up once a task is deleted.
pub fn workspace_cleanup_dirs(container_refs: &Vec<Option<String>>) -> (r: Vec<String>)
    ensures
        views(r@) == cleanup_dirs(container_refs@),
{
    let mut out: Vec<String> = Vec::new();
    let mut i: usize = 0;
    while i < container_refs.len()
        invariant
            i <= container_refs.len(),
            views(out@) == cleanup_dirs(container_refs@.take(i as int)),
        decreases container_refs.len() - i,
    {
        assert(container_refs@.take(i + 1).drop_last() == container_refs@.take(i as int));
        match &container_refs[i] {
            Some(d) => {
                let c = crate::text::copy_str(d.as_str());
                proof {
                    crate::text::lemma_views_push(out@, c);
                }
                out.push(c);
            },
            None => {},
        }
        i = i + 1;
    }
    assert(container_refs@.take(container_refs@.len() as int) == container_refs@);
    out
}

/// The working directory an agent starts in: the project's default, unless
/// it is empty.
pub fn agent_working_dir(default_dir: &Option<String>) -> (r: Option<String>)
    ensures
        r == (match *default_dir {
            Some(d) => if d@.len() > 0 {
                Some(d)
            } else {
                None
            },
            None => None,
        }),
{
    match default_dir {
        Some(d) => if !d.as_str().is_empty() {
            Some(d.clone())
        } else {
            None
        },
        None => None,
    }
}

/// A task must be started on at least one repository.
pub fn check_repositories(count: usize) -> (r: Result<(), &'static str>)
    ensures
        r is Ok <==> count > 0,
        r matches Err(m) ==> m@ == "At least one repository is required"@,
{
    if count == 0 {
        Err("At least one repository is required")
    } else {
        Ok(())
    }
}

/// Which tasks the backlog shows.
#[derive(Debug, Clone, Copy)]
pub struct BacklogQuery {
    pub project_id: u128,
    pub include_done: bool,
    pub include_cancelled: bool,
    pub include_in_sprint: bool,
}

/// Whether the backlog shows a task.
pub open spec fn in_backlog(t: TaskWithAttemptStatus, q: BacklogQuery) -> bool {
    &&& (q.include_in_sprint || t.task.sprint_id is None)
    &&& (q.include_done || t.task.status != TaskStatus::Done)
    &&& (q.include_cancelled || t.task.status != TaskStatus::Cancelled)
}

/// The place of a task type in the backlog: epics, features, stories, tasks.
pub open spec fn type_rank(t: TaskType) -> i128 {
    match t {
        TaskType::Epic => 0,
        TaskType::Feature => 1,
        TaskType::Story => 2,
        TaskType::Task => 3,
    }
}

/// The backlog sort key: type rank, then newest first.
pub open spec fn backlog_key(t: TaskWithAttemptStatus) -> (i128, i128) {
    (type_rank(t.task.task_type), !t.task.created_at)
}

/// The backlog sort keys of a list of tasks.
pub open spec fn backlog_keys(tasks: Seq<TaskWithAttemptStatus>) -> Seq<(i128, i128)> {
    tasks.map_values(|t: TaskWithAttemptStatus| backlog_key(t))
}

/// The backlog: the tasks the query shows, sorted by type (epics first) and
/// then newest first; ties keep their order.
pub fn backlog(tasks: Vec<TaskWithAttemptStatus>, query: &BacklogQuery) -> (r: Vec<TaskWithAttemptStatus>)
    ensures
        ({
            let shown = tasks@.filter(|t: TaskWithAttemptStatus| in_backlog(t, *query));
            exists|perm: Seq<usize>| #![trigger is_stable_order(backlog_keys(shown), perm)]
                is_stable_order(backlog_keys(shown), perm)
                && r@ == perm.map_values(|i: usize| shown[i as int])
        }),
{
    let ghost pred = |t: TaskWithAttemptStatus| in_backlog(t, *query);
    let ghost keyf = |t: TaskWithAttemptStatus| backlog_key(t);
    let ghost orig = tasks@;
    let mut rest = tasks;
    let mut shown: Vec<TaskWithAttemptStatus> = Vec::new();
    let mut keys: Vec<(i128, i128)> = Vec::new();
    let n = rest.len();
    let mut i: usize = 0;
    while i < n
        invariant
            i <= n == orig.len(),
            rest@ == orig.skip(i as int),
            pred == (|t: TaskWithAttemptStatus| in_backlog(t, *query)),
            keyf == (|t: TaskWithAttemptStatus| backlog_key(t)),
            shown@ == orig.take(i as int).filter(pred),
            keys@ == shown@.map_values(keyf),
        decreases n - i,
    {
        assert(rest@[0] == orig[i as int]);
        let t = rest.remove(0);
        assert(rest@ == orig.skip(i + 1));
        let keep = (query.include_in_sprint || t.task.sprint_id.is_none())
            && (query.include_done || t.task.status != TaskStatus::Done)
            && (query.include_cancelled || t.task.status != TaskStatus::Cancelled);
        proof {
            assert(orig.take(i + 1) == orig.take(i as int).push(orig[i as int]));
            orig.take(i as int).lemma_filter_push(orig[i as int], pred);
        }
        if keep {
            let rank: i128 = match t.task.task_type {
                TaskType::Epic => 0,
                TaskType::Feature => 1,
                TaskType::Story => 2,
                TaskType::Task => 3,
            };
            let ghost old_shown = shown@;
            keys.push((rank, !t.task.created_at));
            shown.push(t);
            proof {
                old_shown.lemma_push_map_commute(keyf, t);
            }
        }
        i = i + 1;
    }
    assert(orig.take(n as int) == orig);
    let ghost shown_v = shown@;
    assert(keys@ =~= backlog_keys(shown_v));
    let r = stable_sort_by_keys(shown, keys);
    proof {
        let perm = choose|perm: Seq<usize>| #![trigger is_stable_order(keys@, perm)]
            is_stable_order(keys@, perm) && r@ == perm.map_values(|i: usize| shown_v[i as int]);
        assert(is_stable_order(backlog_keys(shown_v), perm));
    }
    r
}

/// In the backlog, a task comes before another of a later type, and before
/// an older task of its type.
pub proof fn lemma_backlog_order(shown: Seq<TaskWithAttemptStatus>, perm: Seq<usize>, i: int, j: int)
    requires
        is_stable_order(backlog_keys(shown), perm),
        0 <= i < j < perm.len(),
    ensures
        ({
            let a = shown[perm[i] as int].task;
            let b = shown[perm[j] as int].task;
            type_rank(a.task_type) < type_rank(b.task_type)
                || (type_rank(a.task_type) == type_rank(b.task_type) && a.created_at >= b.created_at)
        }),
{
    let keys = backlog_keys(shown);
    let x = perm[i] as int;
    let y = perm[j] as int;
    assert(crate::ordering::sorts_before(keys, x, y));
    lemma_complement_reverses(shown[x].task.created_at, shown[y].task.created_at);
    lemma_complement_reverses(shown[y].task.created_at, shown[x].task.created_at);
}

/// In the backlog the types come in the order Epic, Feature, Story, Task:
/// no task is listed after one of a later type, so every epic comes before
/// every feature, story and task, every feature before every story and
/// task, and every story before every task; within a type the newer task
/// comes first.
pub proof fn lemma_backlog_type_order(shown: Seq<TaskWithAttemptStatus>, perm: Seq<usize>, i: int, j: int)
    requires
        is_stable_order(backlog_keys(shown), perm),
        0 <= i < j < perm.len(),
    ensures
        ({
            let a = shown[perm[i] as int].task;
            let b = shown[perm[j] as int].task;
            &&& b.task_type == TaskType::Epic ==> a.task_type == TaskType::Epic
            &&& b.task_type == TaskType::Feature ==> (a.task_type == TaskType::Epic || a.task_type == TaskType::Feature)
            &&& b.task_type == TaskType::Story ==> a.task_type != TaskType::Task
            &&& a.task_type == b.task_type ==> a.created_at >= b.created_at
        }),
{
    lemma_backlog_order(shown, perm, i, j);
}


/// The message a blank sprint name is refused with.
pub open spec fn blank_sprint_name_text() -> Seq<char> {
    "Sprint name cannot be empty"@
}

/// A new sprint needs a name that is not blank.
pub fn check_sprint_name(name: &str) -> (r: Result<(), &'static str>)
    ensures
        r is Ok <==> trim(name@).len() > 0,
        r matches Err(m) ==> m@ == blank_sprint_name_text(),
{
    if is_blank(name) {
        Err("Sprint name cannot be empty")
    } else {
        Ok(())
    }
}

/// An update may leave the name out, but may not blank it.
pub fn check_sprint_update_name(name: &Option<String>) -> (r: Result<(), &'static str>)
    ensures
        r is Ok <==> (match *name {
            Some(n) => trim(n@).len() > 0,
            None => true,
        }),
        r matches Err(m) ==> m@ == blank_sprint_name_text(),
{
    match name {
        Some(n) => check_sprint_name(n.as_str()),
        None => Ok(()),
    }
}

/// The fields a sprint is stored with after an update.
#[derive(Debug, Clone)]
pub struct SprintFields {
    pub name: String,
    pub goal: Option<String>,
    pub start_date: Option<i128>,
    pub end_date: Option<i128>,
    pub status: SprintStatus,
}

/// The value of an optional field after an update: the new one if given,
/// else the old one.
pub open spec fn either<T>(given: Option<T>, existing: Option<T>) -> Option<T> {
    match given {
        Some(v) => Some(v),
        None => existing,
    }
}

impl Sprint {
    /// The fields after `data` is applied: each given field replaces the
    /// stored one.
    pub fn updated_fields(&self, data: &UpdateSprint) -> (r: SprintFields)
        ensures
            r.name == updated(data.name, self.name),
            r.goal == either(data.goal, self.goal),
            r.start_date == either(data.start_date, self.start_date),
            r.end_date == either(data.end_date, self.end_date),
            r.status == updated(data.status, self.status),
    {
        SprintFields {
            name: match &data.name {
                Some(n) => n.clone(),
                None => self.name.clone(),
            },
            goal: match &data.goal {
                Some(g) => Some(g.clone()),
                None => self.goal.clone(),
            },
            start_date: match data.start_date {
                Some(d) => Some(d),
                None => self.start_date,
            },
            end_date: match data.end_date {
                Some(d) => Some(d),
                None => self.end_date,
            },
            status: match data.status {
                Some(s) => s,
                None => self.status,
            },
        }
    }
}

impl CreateSprint {
    /// The status a new sprint starts in: the one asked for, else planned.
    pub fn initial_status(&self) -> (r: SprintStatus)
        ensures
            r == updated(self.status, SprintStatus::Planned),
    {
        match self.status {
            Some(s) => s,
            None => SprintStatus::Planned,
        }
    }
}

/// The ids to put in a sprint or take out of it.
#[derive(Debug, Clone)]
pub struct SprintPlanningTaskIds {
    pub task_ids: Vec<u128>,
}

/// How many tasks a planning change touched.
#[derive(Debug, Clone, Copy)]
pub struct SprintPlanningUpdateResponse {
    pub updated_count: u64,
}

impl SprintPlanningTaskIds {
    /// The answer given without touching the store: none when no ids are
    /// given.
    pub fn empty_response(&self) -> (r: Option<SprintPlanningUpdateResponse>)
        ensures
            r is Some <==> self.task_ids@.len() == 0,
            r matches Some(x) ==> x.updated_count == 0,
    {
        if self.task_ids.len() == 0 {
            Some(SprintPlanningUpdateResponse { updated_count: 0 })
        } else {
            None
        }
    }
}

/// A list of ids as shown in a message: at most `max` of them, then how
/// many more there are.
pub open spec fn uuid_list_text(ids: Seq<u128>, max: nat) -> Seq<char> {
    if ids.len() == 0 {
        "[]"@
    } else {
        let shown = if ids.len() > max {
            ids.take(max as int)
        } else {
            ids
        };
        let body = joined(shown.map_values(|id: u128| uuid_text(id)), ", "@);
        if ids.len() > max {
            "["@ + body + ", \u{2026} +"@ + decimal((ids.len() - max) as nat) + " more]"@
        } else {
            "["@ + body + "]"@
        }
    }
}

/// A list of ids as shown in a message.
pub fn format_uuid_list(ids: &Vec<u128>, max: usize) -> (r: String)
    ensures
        r@ == uuid_list_text(ids@, max as nat),
{
    if ids.len() == 0 {
        return crate::text::copy_str("[]");
    }
    let count = if ids.len() > max {
        max
    } else {
        ids.len()
    };
    let ghost shown = ids@.take(count as int);
    let mut parts: Vec<String> = Vec::new();
    let mut i: usize = 0;
    while i < count
        invariant
            i <= count <= ids.len(),
            shown == ids@.take(count as int),
            views(parts@) == shown.take(i as int).map_values(|id: u128| uuid_text(id)),
        decreases count - i,
    {
        let t = uuid_to_string(ids[i]);
        let ghost before = parts@;
        parts.push(t);
        proof {
            crate::text::lemma_views_push(before, t);
            assert(shown.take(i + 1) == shown.take(i as int).push(shown[i as int]));
            shown.take(i as int).lemma_push_map_commute(|id: u128| uuid_text(id), shown[i as int]);
        }
        i = i + 1;
    }
    assert(shown.take(count as int) == shown);
    assert(count as int == ids@.len() ==> shown == ids@);
    let body = join_strings(&parts, ", ");
    let mut r = crate::text::copy_str("[");
    r.append(body.as_str());
    if ids.len() > max {
        r.append(", \u{2026} +");
        let more = format_usize(ids.len() - max);
        r.append(more.as_str());
        r.append(" more]");
    } else {
        r.append("]");
    }
    r
}

/// Why a planning change names tasks it may not move.
#[derive(Debug, Clone)]
pub enum TaskIdsError {
    /// These ids name no task.
    Missing(Vec<u128>),
    /// The task belongs to another project than the sprint.
    WrongProject { task_id: u128, sprint_project_id: u128, found_project_id: u128 },
}

impl TaskIdsError {
    /// The message with which the change is refused.
    pub fn message(&self) -> (r: String)
        ensures
            *self matches TaskIdsError::Missing(ids) ==> r@ == "Some task_ids were not found: "@ + uuid_list_text(ids@, 10),
            *self matches TaskIdsError::WrongProject { task_id, sprint_project_id, found_project_id }
                ==> r@ == "Task "@ + uuid_text(task_id) + " does not belong to sprint project "@
                + uuid_text(sprint_project_id) + " (found project "@ + uuid_text(found_project_id) + ")"@,
    {
        match self {
            TaskIdsError::Missing(ids) => {
                let mut r = crate::text::copy_str("Some task_ids were not found: ");
                let list = format_uuid_list(ids, 10);
                r.append(list.as_str());
                r
            },
            TaskIdsError::WrongProject { task_id, sprint_project_id, found_project_id } => {
                let mut r = crate::text::copy_str("Task ");
                r.append(uuid_to_string(*task_id).as_str());
                r.append(" does not belong to sprint project ");
                r.append(uuid_to_string(*sprint_project_id).as_str());
                r.append(" (found project ");
                r.append(uuid_to_string(*found_project_id).as_str());
                r.append(")");
                r
            },
        }
    }
}

/// The ids of the rows the store returned.
pub open spec fn row_ids(rows: Seq<(u128, u128)>) -> Seq<u128> {
    rows.map_values(|r: (u128, u128)| r.0)
}

/// Whether row `k` is the first whose project is not `project_id`.
pub open spec fn first_foreign_row(rows: Seq<(u128, u128)>, project_id: u128, k: int) -> bool {
    &&& 0 <= k < rows.len()
    &&& rows[k].1 != project_id
    &&& forall|j: int| 0 <= j < k ==> rows[j].1 == project_id
}

/// The verdict on the tasks that a planning change names, given the
/// `(task id, project id)` rows that the store found for the distinct ids:
/// some not found, one of another project (the first such row), or fine.
pub fn check_task_rows(project_id: u128, task_ids: &Vec<u128>, rows: &Vec<(u128, u128)>) -> (r: Result<(), TaskIdsError>)
    ensures
        task_ids@.len() == 0 ==> r is Ok,
        task_ids@.len() > 0 && rows@.len() != first_occurrences(task_ids@).len() ==> (r matches Err(TaskIdsError::Missing(m))
            && m@ == first_occurrences(task_ids@).filter(|id: u128| !row_ids(rows@).contains(id))),
        task_ids@.len() > 0 && rows@.len() == first_occurrences(task_ids@).len() ==> match r {
            Ok(()) => forall|j: int| 0 <= j < rows@.len() ==> rows@[j].1 == project_id,
            Err(TaskIdsError::WrongProject { task_id, sprint_project_id, found_project_id }) => exists|k: int|
                first_foreign_row(rows@, project_id, k) && task_id == rows@[k].0 && found_project_id == rows@[k].1
                    && sprint_project_id == project_id,
            Err(TaskIdsError::Missing(_)) => false,
        },
{
    if task_ids.len() == 0 {
        return Ok(());
    }
    let unique = dedup_ids(task_ids);
    if rows.len() != unique.len() {
        let mut found: Vec<u128> = Vec::new();
        let mut i: usize = 0;
        while i < rows.len()
            invariant
                i <= rows.len(),
                found@ == row_ids(rows@).take(i as int),
            decreases rows.len() - i,
        {
            found.push(rows[i].0);
            assert(row_ids(rows@).take(i + 1) == row_ids(rows@).take(i as int).push(rows@[i as int].0));
            i = i + 1;
        }
        assert(row_ids(rows@).take(rows.len() as int) == row_ids(rows@));
        let ghost pred = |id: u128| !row_ids(rows@).contains(id);
        let mut missing: Vec<u128> = Vec::new();
        let mut j: usize = 0;
        while j < unique.len()
            invariant
                j <= unique.len(),
                found@ == row_ids(rows@),
                pred == (|id: u128| !row_ids(rows@).contains(id)),
                missing@ == unique@.take(j as int).filter(pred),
            decreases unique.len() - j,
        {
            assert(unique@.take(j + 1) == unique@.take(j as int).push(unique@[j as int]));
            proof {
                unique@.take(j as int).lemma_filter_push(unique@[j as int], pred);
            }
            if !contains_id(&found, unique[j]) {
                missing.push(unique[j]);
            }
            j = j + 1;
        }
        assert(unique@.take(unique.len() as int) == unique@);
        return Err(TaskIdsError::Missing(missing));
    }
    let mut k: usize = 0;
    while k < rows.len()
        invariant
            k <= rows.len(),
            task_ids@.len() > 0,
            rows@.len() == first_occurrences(task_ids@).len(),
            forall|j: int| 0 <= j < k ==> rows@[j].1 == project_id,
        decreases rows.len() - k,
    {
        if rows[k].1 != project_id {
            assert(first_foreign_row(rows@, project_id, k as int));
            return Err(
                TaskIdsError::WrongProject { task_id: rows[k].0, sprint_project_id: project_id, found_project_id: rows[k].1 },
            );
        }
        k = k + 1;
    }
    Ok(())
}

/// Epics are never put in a sprint: the verdict on the `(id, type)` rows the
/// store found for the named tasks.
pub fn check_no_epics(rows: &Vec<(u128, TaskType)>) -> (r: Result<(), &'static str>)
    ensures
        r is Ok <==> forall|j: int| 0 <= j < rows@.len() ==> rows@[j].1 != TaskType::Epic,
        r matches Err(m) ==> m@ == "Epic tasks cannot be assigned to a sprint"@,
{
    let mut i: usize = 0;
    while i < rows.len()
        invariant
            i <= rows.len(),
            forall|j: int| 0 <= j < i ==> rows@[j].1 != TaskType::Epic,
        decreases rows.len() - i,
    {
        if rows[i].1 == TaskType::Epic {
            return Err("Epic tasks cannot be assigned to a sprint");
        }
        i = i + 1;
    }
    Ok(())
}

} // verus!
