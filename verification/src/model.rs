//! The records of the board: tasks, sprints, promotions and status events.
//! Ids are the 128-bit values of UUIDs; instants are nanoseconds since the
//! Unix epoch, UTC.
use vstd::prelude::*;

verus! {

/// Where a task stands on the board.
#[derive(Debug, Clone, Copy, PartialEq, Eq, Structural)]
pub enum TaskStatus {
    Todo,
    InProgress,
    InReview,
    Done,
    Cancelled,
}

impl Default for TaskStatus {
    /// New tasks start in `Todo`.
    fn default() -> (r: Self)
        ensures
            r == TaskStatus::Todo,
    {
        TaskStatus::Todo
    }
}

impl TaskStatus {
    /// The lowercase name under which the status is stored and shown.
    pub fn as_str(&self) -> (r: &'static str)
        ensures
            *self == TaskStatus::Todo ==> r@ == "todo"@,
            *self == TaskStatus::InProgress ==> r@ == "inprogress"@,
            *self == TaskStatus::InReview ==> r@ == "inreview"@,
            *self == TaskStatus::Done ==> r@ == "done"@,
            *self == TaskStatus::Cancelled ==> r@ == "cancelled"@,
    {
        match self {
            TaskStatus::Todo => "todo",
            TaskStatus::InProgress => "inprogress",
            TaskStatus::InReview => "inreview",
            TaskStatus::Done => "done",
            TaskStatus::Cancelled => "cancelled",
        }
    }
}

/// The level of a task in the epic / feature / story / task hierarchy.
#[derive(Debug, Clone, Copy, PartialEq, Eq, Structural)]
pub enum TaskType {
    Epic,
    Feature,
    Story,
    Task,
}

impl Default for TaskType {
    /// Plain tasks are the default.
    fn default() -> (r: Self)
        ensures
            r == TaskType::Task,
    {
        TaskType::Task
    }
}

impl TaskType {
    /// The lowercase name under which the type is stored and shown.
    pub fn as_str(&self) -> (r: &'static str)
        ensures
            *self == TaskType::Epic ==> r@ == "epic"@,
            *self == TaskType::Feature ==> r@ == "feature"@,
            *self == TaskType::Story ==> r@ == "story"@,
            *self == TaskType::Task ==> r@ == "task"@,
    {
        match self {
            TaskType::Epic => "epic",
            TaskType::Feature => "feature",
            TaskType::Story => "story",
            TaskType::Task => "task",
        }
    }
}

/// The lifecycle of a sprint.
#[derive(Debug, Clone, Copy, PartialEq, Eq, Structural)]
pub enum SprintStatus {
    Planned,
    Active,
    Closed,
}

impl Default for SprintStatus {
    /// New sprints are planned.
    fn default() -> (r: Self)
        ensures
            r == SprintStatus::Planned,
    {
        SprintStatus::Planned
    }
}

impl SprintStatus {
    /// The lowercase name under which the status is stored and shown.
    pub fn as_str(&self) -> (r: &'static str)
        ensures
            *self == SprintStatus::Planned ==> r@ == "planned"@,
            *self == SprintStatus::Active ==> r@ == "active"@,
            *self == SprintStatus::Closed ==> r@ == "closed"@,
    {
        match self {
            SprintStatus::Planned => "planned",
            SprintStatus::Active => "active",
            SprintStatus::Closed => "closed",
        }
    }
}

/// A deployment environment that a task can be promoted to.
#[derive(Debug, Clone, Copy, PartialEq, Eq, Structural)]
pub enum WorkflowEnvironment {
    Staging,
    Prod,
}

/// The state of one promotion.
#[derive(Debug, Clone, Copy, PartialEq, Eq, Structural)]
pub enum PromotionStatus {
    Pending,
    Succeeded,
    Failed,
}

/// A task of a project.
#[derive(Debug, Clone)]
pub struct Task {
    pub id: u128,
    pub project_id: u128,
    pub title: String,
    pub description: Option<String>,
    pub status: TaskStatus,
    pub sprint_id: Option<u128>,
    pub task_type: TaskType,
    pub epic_id: Option<u128>,
    pub parent_task_id: Option<u128>,
    pub story_points: Option<i32>,
    pub parent_workspace_id: Option<u128>,
    pub shared_task_id: Option<u128>,
    pub created_at: i128,
    pub updated_at: i128,
}

/// One promotion of a task to an environment.
#[derive(Debug, Clone)]
pub struct EnvironmentPromotion {
    pub id: u128,
    pub task_id: u128,
    pub workspace_id: Option<u128>,
    pub environment: WorkflowEnvironment,
    pub status: PromotionStatus,
    pub target_branch: String,
    pub merge_commit_sha: Option<String>,
    pub message: Option<String>,
    pub created_at: i128,
    pub updated_at: i128,
}

/// A task together with the state of its attempts.
#[derive(Debug, Clone)]
pub struct TaskWithAttemptStatus {
    pub task: Task,
    pub has_in_progress_attempt: bool,
    pub last_attempt_failed: bool,
    pub executor: String,
    pub environment_promotions: Option<Vec<EnvironmentPromotion>>,
}

/// A sprint of a project.
#[derive(Debug, Clone)]
pub struct Sprint {
    pub id: u128,
    pub project_id: u128,
    pub name: String,
    pub start_at: i128,
    pub end_at: i128,
    pub goal: Option<String>,
    pub start_date: Option<i128>,
    pub end_date: Option<i128>,
    pub status: SprintStatus,
    pub created_at: i128,
    pub updated_at: i128,
}

/// What a new sprint is made of.
#[derive(Debug, Clone)]
pub struct CreateSprint {
    pub project_id: u128,
    pub name: String,
    pub goal: Option<String>,
    pub start_date: Option<i128>,
    pub end_date: Option<i128>,
    pub status: Option<SprintStatus>,
}

/// The fields of a sprint that an update may change.
#[derive(Debug, Clone)]
pub struct UpdateSprint {
    pub name: Option<String>,
    pub goal: Option<String>,
    pub start_date: Option<i128>,
    pub end_date: Option<i128>,
    pub status: Option<SprintStatus>,
}

/// One change of a task's status.
#[derive(Debug, Clone)]
pub struct TaskStatusEvent {
    pub id: u128,
    pub task_id: u128,
    pub project_id: u128,
    pub status: TaskStatus,
    pub created_at: i128,
}

/// The developer-experience figures of a project (read from the store).
pub struct ProjectDevEx;

} // verus!
