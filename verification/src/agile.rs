//! The agile rules that a task's sprint, epic, parent and story points obey.
//!
//! Checking them needs a few reads of the store (the sprint, the parent task,
//! the epic), each depending on what the previous one found. The checks run
//! as a small machine: `AgileValidation::start` decides what it can from the
//! fields alone and names the first record it needs; each answer moves it on,
//! until it reports the normalized fields or the first rule broken.
use vstd::prelude::*;
use crate::model::TaskType;

verus! {

/// The agile fields of a task being created or updated.
#[derive(Debug, Clone, Copy, PartialEq, Eq, Structural)]
pub struct AgileFieldsInput {
    pub project_id: u128,
    pub task_type: TaskType,
    pub sprint_id: Option<u128>,
    pub epic_id: Option<u128>,
    pub parent_task_id: Option<u128>,
    pub story_points: Option<i32>,
}

/// The agile fields as they are stored once validated.
#[derive(Debug, Clone, Copy, PartialEq, Eq, Structural)]
pub struct AgileFields {
    pub sprint_id: Option<u128>,
    pub epic_id: Option<u128>,
    pub parent_task_id: Option<u128>,
    pub story_points: Option<i32>,
}

/// What the rules read of a sprint.
#[derive(Debug, Clone, Copy, PartialEq, Eq, Structural)]
pub struct SprintSummary {
    pub id: u128,
    pub project_id: u128,
}

/// What the rules read of another task.
#[derive(Debug, Clone, Copy, PartialEq, Eq, Structural)]
pub struct TaskSummary {
    pub id: u128,
    pub project_id: u128,
    pub task_type: TaskType,
    pub epic_id: Option<u128>,
}

/// The agile rule that a task's fields break.
#[derive(Debug, Clone, Copy, PartialEq, Eq, Structural)]
pub enum AgileFieldError {
    NegativeStoryPoints,
    EpicInSprint,
    EpicWithParent,
    EpicWithStoryPoints,
    FeatureWithStoryPoints,
    SprintNotFound,
    SprintInOtherProject,
    MissingParent,
    ParentNotFound,
    ParentInOtherProject,
    FeatureParentNotEpic,
    StoryParentNotFeature,
    TaskParentNotStoryOrFeature,
    EpicMismatch,
    EpicNotFound,
    EpicInOtherProject,
    EpicNotAnEpic,
}

/// The message with which a broken rule is reported.
pub open spec fn agile_error_text(e: AgileFieldError) -> Seq<char> {
    match e {
        AgileFieldError::NegativeStoryPoints => "story_points must be a non-negative integer"@,
        AgileFieldError::EpicInSprint => "Epic tasks cannot be assigned to a sprint"@,
        AgileFieldError::EpicWithParent => "Epic tasks cannot have epic_id/parent_task_id set"@,
        AgileFieldError::EpicWithStoryPoints => "Epic tasks cannot have story_points set"@,
        AgileFieldError::FeatureWithStoryPoints => "Feature tasks cannot have story_points set"@,
        AgileFieldError::SprintNotFound => "Sprint not found"@,
        AgileFieldError::SprintInOtherProject => "Sprint does not belong to the task's project"@,
        AgileFieldError::MissingParent => "Feature and Story tasks must have parent_task_id set"@,
        AgileFieldError::ParentNotFound => "parent_task_id not found"@,
        AgileFieldError::ParentInOtherProject => "parent_task_id does not belong to the task's project"@,
        AgileFieldError::FeatureParentNotEpic => "Feature parent_task_id must reference an Epic"@,
        AgileFieldError::StoryParentNotFeature => "Story parent_task_id must reference a Feature"@,
        AgileFieldError::TaskParentNotStoryOrFeature => "Task parent_task_id must reference a Story or Feature"@,
        AgileFieldError::EpicMismatch => "epic_id must match the parent task's epic"@,
        AgileFieldError::EpicNotFound => "epic_id not found"@,
        AgileFieldError::EpicInOtherProject => "epic_id does not belong to the task's project"@,
        AgileFieldError::EpicNotAnEpic => "epic_id must reference a task with type 'epic'"@,
    }
}

impl AgileFieldError {
    /// The message with which the broken rule is reported.
    pub fn message(&self) -> (r: &'static str)
        ensures
            r@ == agile_error_text(*self),
    {
        match self {
            AgileFieldError::NegativeStoryPoints => "story_points must be a non-negative integer",
            AgileFieldError::EpicInSprint => "Epic tasks cannot be assigned to a sprint",
            AgileFieldError::EpicWithParent => "Epic tasks cannot have epic_id/parent_task_id set",
            AgileFieldError::EpicWithStoryPoints => "Epic tasks cannot have story_points set",
            AgileFieldError::FeatureWithStoryPoints => "Feature tasks cannot have story_points set",
            AgileFieldError::SprintNotFound => "Sprint not found",
            AgileFieldError::SprintInOtherProject => "Sprint does not belong to the task's project",
            AgileFieldError::MissingParent => "Feature and Story tasks must have parent_task_id set",
            AgileFieldError::ParentNotFound => "parent_task_id not found",
            AgileFieldError::ParentInOtherProject => "parent_task_id does not belong to the task's project",
            AgileFieldError::FeatureParentNotEpic => "Feature parent_task_id must reference an Epic",
            AgileFieldError::StoryParentNotFeature => "Story parent_task_id must reference a Feature",
            AgileFieldError::TaskParentNotStoryOrFeature => "Task parent_task_id must reference a Story or Feature",
            AgileFieldError::EpicMismatch => "epic_id must match the parent task's epic",
            AgileFieldError::EpicNotFound => "epic_id not found",
            AgileFieldError::EpicInOtherProject => "epic_id does not belong to the task's project",
            AgileFieldError::EpicNotAnEpic => "epic_id must reference a task with type 'epic'",
        }
    }
}

/// The outcome decided from the fields alone, before any read: negative
/// points, the epic rules (an epic with none of the forbidden fields is
/// accepted with all fields cleared), and points on a feature.
pub open spec fn field_outcome(inp: AgileFieldsInput) -> Option<Result<AgileFields, AgileFieldError>> {
    if inp.story_points matches Some(p) && p < 0 {
        Some(Err(AgileFieldError::NegativeStoryPoints))
    } else if inp.task_type == TaskType::Epic {
        if inp.sprint_id is Some {
            Some(Err(AgileFieldError::EpicInSprint))
        } else if inp.epic_id is Some || inp.parent_task_id is Some {
            Some(Err(AgileFieldError::EpicWithParent))
        } else if inp.story_points is Some {
            Some(Err(AgileFieldError::EpicWithStoryPoints))
        } else {
            Some(Ok(AgileFields { sprint_id: None, epic_id: None, parent_task_id: None, story_points: None }))
        }
    } else if inp.task_type == TaskType::Feature && inp.story_points is Some {
        Some(Err(AgileFieldError::FeatureWithStoryPoints))
    } else {
        None
    }
}

/// The verdict on the sprint that the task names, given what the store held.
pub open spec fn sprint_verdict(inp: AgileFieldsInput, found: Option<SprintSummary>) -> Option<AgileFieldError> {
    match found {
        None => Some(AgileFieldError::SprintNotFound),
        Some(s) => if s.project_id != inp.project_id {
            Some(AgileFieldError::SprintInOtherProject)
        } else {
            None
        },
    }
}

/// Whether a feature or story comes without a parent.
pub open spec fn parent_missing(inp: AgileFieldsInput) -> bool {
    (inp.task_type == TaskType::Feature || inp.task_type == TaskType::Story) && inp.parent_task_id is None
}

/// Whether a parent of type `parent` is allowed for a task of type `child`.
pub open spec fn parent_type_allowed(child: TaskType, parent: TaskType) -> Option<AgileFieldError> {
    match child {
        TaskType::Feature => if parent != TaskType::Epic {
            Some(AgileFieldError::FeatureParentNotEpic)
        } else {
            None
        },
        TaskType::Story => if parent != TaskType::Feature {
            Some(AgileFieldError::StoryParentNotFeature)
        } else {
            None
        },
        TaskType::Task => if parent != TaskType::Story && parent != TaskType::Feature {
            Some(AgileFieldError::TaskParentNotStoryOrFeature)
        } else {
            None
        },
        TaskType::Epic => None,
    }
}

/// The epic that a parent implies: itself when it is an epic, else its epic.
pub open spec fn implied_epic(p: TaskSummary) -> Option<u128> {
    if p.task_type == TaskType::Epic {
        Some(p.id)
    } else {
        p.epic_id
    }
}

/// The verdict on the parent task, given what the store held: the task's
/// epic once normalized (taken from the parent when the task names none), or
/// the rule broken.
pub open spec fn parent_verdict(inp: AgileFieldsInput, found: Option<TaskSummary>) -> Result<Option<u128>, AgileFieldError> {
    match found {
        None => Err(AgileFieldError::ParentNotFound),
        Some(p) => if p.project_id != inp.project_id {
            Err(AgileFieldError::ParentInOtherProject)
        } else if parent_type_allowed(inp.task_type, p.task_type) is Some {
            Err(parent_type_allowed(inp.task_type, p.task_type)->0)
        } else if inp.epic_id is None {
            Ok(implied_epic(p))
        } else if implied_epic(p) is Some && inp.epic_id != implied_epic(p) {
            Err(AgileFieldError::EpicMismatch)
        } else {
            Ok(inp.epic_id)
        },
    }
}

/// The verdict on the epic, given what the store held.
pub open spec fn epic_verdict(inp: AgileFieldsInput, found: Option<TaskSummary>) -> Option<AgileFieldError> {
    match found {
        None => Some(AgileFieldError::EpicNotFound),
        Some(e) => if e.project_id != inp.project_id {
            Some(AgileFieldError::EpicInOtherProject)
        } else if e.task_type != TaskType::Epic {
            Some(AgileFieldError::EpicNotAnEpic)
        } else {
            None
        },
    }
}

/// The fields that are stored once every rule holds.
pub open spec fn accepted_fields(inp: AgileFieldsInput, epic: Option<u128>) -> AgileFields {
    AgileFields {
        sprint_id: inp.sprint_id,
        epic_id: epic,
        parent_task_id: inp.parent_task_id,
        story_points: inp.story_points,
    }
}

/// The outcome of the rules once the epic is known.
pub open spec fn epic_outcome(
    inp: AgileFieldsInput,
    epic: Option<u128>,
    task_of: spec_fn(u128) -> Option<TaskSummary>,
) -> Result<AgileFields, AgileFieldError> {
    match epic {
        None => Ok(accepted_fields(inp, None)),
        Some(e) => match epic_verdict(inp, task_of(e)) {
            Some(err) => Err(err),
            None => Ok(accepted_fields(inp, Some(e))),
        },
    }
}

/// The outcome of the agile rules for `inp`, when the store holds the sprints
/// `sprint_of` and the tasks `task_of` (by id).
pub open spec fn agile_outcome(
    inp: AgileFieldsInput,
    sprint_of: spec_fn(u128) -> Option<SprintSummary>,
    task_of: spec_fn(u128) -> Option<TaskSummary>,
) -> Result<AgileFields, AgileFieldError> {
    match field_outcome(inp) {
        Some(r) => r,
        None => if inp.sprint_id matches Some(s) && sprint_verdict(inp, sprint_of(s)) is Some {
            Err(sprint_verdict(inp, sprint_of(inp.sprint_id->0))->0)
        } else if parent_missing(inp) {
            Err(AgileFieldError::MissingParent)
        } else {
            match inp.parent_task_id {
                Some(pid) => match parent_verdict(inp, task_of(pid)) {
                    Err(e) => Err(e),
                    Ok(epic) => epic_outcome(inp, epic, task_of),
                },
                None => epic_outcome(inp, inp.epic_id, task_of),
            }
        },
    }
}

/// What the machine asks for next, or its final answer.
#[derive(Debug, Clone, Copy)]
pub enum AgileRequest {
    /// Read the sprint with this id.
    FindSprint(u128),
    /// Read the task with this id.
    FindTask(u128),
    /// The rules are decided.
    Done(Result<AgileFields, AgileFieldError>),
}

/// Which answer the machine waits for.
#[derive(Debug, Clone, Copy, PartialEq, Eq, Structural)]
pub enum AgileStage {
    AwaitSprint,
    AwaitParent,
    AwaitEpic(u128),
    Finished,
}

/// A run of the agile rules on one task's fields.
#[derive(Debug, Clone, Copy)]
pub struct AgileValidation {
    pub input: AgileFieldsInput,
    pub stage: AgileStage,
}

/// The step taken once the epic is known.
pub open spec fn epic_known_step(inp: AgileFieldsInput, epic: Option<u128>) -> (AgileStage, AgileRequest) {
    match epic {
        None => (AgileStage::Finished, AgileRequest::Done(Ok(accepted_fields(inp, None)))),
        Some(e) => (AgileStage::AwaitEpic(e), AgileRequest::FindTask(e)),
    }
}

/// The step taken once the sprint (if any) is accepted.
pub open spec fn sprint_accepted_step(inp: AgileFieldsInput) -> (AgileStage, AgileRequest) {
    if parent_missing(inp) {
        (AgileStage::Finished, AgileRequest::Done(Err(AgileFieldError::MissingParent)))
    } else {
        match inp.parent_task_id {
            Some(p) => (AgileStage::AwaitParent, AgileRequest::FindTask(p)),
            None => epic_known_step(inp, inp.epic_id),
        }
    }
}

/// The first step of the machine.
pub open spec fn start_step(inp: AgileFieldsInput) -> (AgileStage, AgileRequest) {
    match field_outcome(inp) {
        Some(r) => (AgileStage::Finished, AgileRequest::Done(r)),
        None => match inp.sprint_id {
            Some(s) => (AgileStage::AwaitSprint, AgileRequest::FindSprint(s)),
            None => sprint_accepted_step(inp),
        },
    }
}

/// The step taken on the sprint that the store held.
pub open spec fn sprint_step(inp: AgileFieldsInput, found: Option<SprintSummary>) -> (AgileStage, AgileRequest) {
    match sprint_verdict(inp, found) {
        Some(e) => (AgileStage::Finished, AgileRequest::Done(Err(e))),
        None => sprint_accepted_step(inp),
    }
}

/// The step taken on the task that the store held.
pub open spec fn task_step(inp: AgileFieldsInput, stage: AgileStage, found: Option<TaskSummary>) -> (AgileStage, AgileRequest) {
    match stage {
        AgileStage::AwaitParent => match parent_verdict(inp, found) {
            Err(e) => (AgileStage::Finished, AgileRequest::Done(Err(e))),
            Ok(epic) => epic_known_step(inp, epic),
        },
        AgileStage::AwaitEpic(e) => match epic_verdict(inp, found) {
            Some(err) => (AgileStage::Finished, AgileRequest::Done(Err(err))),
            None => (AgileStage::Finished, AgileRequest::Done(Ok(accepted_fields(inp, Some(e))))),
        },
        _ => (stage, AgileRequest::Done(Err(AgileFieldError::EpicNotFound))),
    }
}

/// The step taken when the store answers `req` from `sprint_of` and `task_of`.
pub open spec fn answered_step(
    inp: AgileFieldsInput,
    stage: AgileStage,
    req: AgileRequest,
    sprint_of: spec_fn(u128) -> Option<SprintSummary>,
    task_of: spec_fn(u128) -> Option<TaskSummary>,
) -> (AgileStage, AgileRequest) {
    match req {
        AgileRequest::FindSprint(id) => sprint_step(inp, sprint_of(id)),
        AgileRequest::FindTask(id) => task_step(inp, stage, task_of(id)),
        AgileRequest::Done(_) => (stage, req),
    }
}

/// Where the machine stands after its first step and three answers.
pub open spec fn driven(
    inp: AgileFieldsInput,
    sprint_of: spec_fn(u128) -> Option<SprintSummary>,
    task_of: spec_fn(u128) -> Option<TaskSummary>,
) -> AgileRequest {
    let a = start_step(inp);
    let b = answered_step(inp, a.0, a.1, sprint_of, task_of);
    let c = answered_step(inp, b.0, b.1, sprint_of, task_of);
    let d = answered_step(inp, c.0, c.1, sprint_of, task_of);
    d.1
}

/// The machine decides the rules in at most three reads: once every read it
/// asks for is answered from one state of the store, its answer is the
/// outcome of the rules on that state.
pub proof fn lemma_agile_machine_decides(
    inp: AgileFieldsInput,
    sprint_of: spec_fn(u128) -> Option<SprintSummary>,
    task_of: spec_fn(u128) -> Option<TaskSummary>,
)
    ensures
        driven(inp, sprint_of, task_of) == AgileRequest::Done(agile_outcome(inp, sprint_of, task_of)),
{
}

impl AgileValidation {
    /// Starts the rules on `input`: decides what the fields alone decide,
    /// else asks for the sprint, the parent or the epic, in that order.
    pub fn start(input: AgileFieldsInput) -> (r: (AgileValidation, AgileRequest))
        ensures
            r.0.input == input,
            (r.0.stage, r.1) == start_step(input),
    {
        if let Some(p) = input.story_points {
            if p < 0 {
                return (
                    AgileValidation { input, stage: AgileStage::Finished },
                    AgileRequest::Done(Err(AgileFieldError::NegativeStoryPoints)),
                );
            }
        }
        if input.task_type == TaskType::Epic {
            let r = if input.sprint_id.is_some() {
                Err(AgileFieldError::EpicInSprint)
            } else if input.epic_id.is_some() || input.parent_task_id.is_some() {
                Err(AgileFieldError::EpicWithParent)
            } else if input.story_points.is_some() {
                Err(AgileFieldError::EpicWithStoryPoints)
            } else {
                Ok(AgileFields { sprint_id: None, epic_id: None, parent_task_id: None, story_points: None })
            };
            return (AgileValidation { input, stage: AgileStage::Finished }, AgileRequest::Done(r));
        }
        if input.task_type == TaskType::Feature && input.story_points.is_some() {
            return (
                AgileValidation { input, stage: AgileStage::Finished },
                AgileRequest::Done(Err(AgileFieldError::FeatureWithStoryPoints)),
            );
        }
        match input.sprint_id {
            Some(s) => (AgileValidation { input, stage: AgileStage::AwaitSprint }, AgileRequest::FindSprint(s)),
            None => {
                let (stage, req) = Self::after_sprint(&input);
                (AgileValidation { input, stage }, req)
            },
        }
    }

    fn after_epic_known(input: &AgileFieldsInput, epic: Option<u128>) -> (r: (AgileStage, AgileRequest))
        ensures
            r == epic_known_step(*input, epic),
    {
        match epic {
            None => (
                AgileStage::Finished,
                AgileRequest::Done(
                    Ok(
                        AgileFields {
                            sprint_id: input.sprint_id,
                            epic_id: None,
                            parent_task_id: input.parent_task_id,
                            story_points: input.story_points,
                        },
                    ),
                ),
            ),
            Some(e) => (AgileStage::AwaitEpic(e), AgileRequest::FindTask(e)),
        }
    }

    fn after_sprint(input: &AgileFieldsInput) -> (r: (AgileStage, AgileRequest))
        ensures
            r == sprint_accepted_step(*input),
    {
        if (input.task_type == TaskType::Feature || input.task_type == TaskType::Story) && input.parent_task_id.is_none() {
            return (AgileStage::Finished, AgileRequest::Done(Err(AgileFieldError::MissingParent)));
        }
        match input.parent_task_id {
            Some(p) => (AgileStage::AwaitParent, AgileRequest::FindTask(p)),
            None => Self::after_epic_known(input, input.epic_id),
        }
    }

    /// Takes the sprint that the store held for the requested id.
    pub fn sprint_found(&mut self, found: Option<SprintSummary>) -> (r: AgileRequest)
        requires
            old(self).stage == AgileStage::AwaitSprint,
        ensures
            final(self).input == old(self).input,
            (final(self).stage, r) == sprint_step(old(self).input, found),
    {
        let verdict = match found {
            None => Some(AgileFieldError::SprintNotFound),
            Some(s) => if s.project_id != self.input.project_id {
                Some(AgileFieldError::SprintInOtherProject)
            } else {
                None
            },
        };
        match verdict {
            Some(e) => {
                self.stage = AgileStage::Finished;
                AgileRequest::Done(Err(e))
            },
            None => {
                let (stage, req) = Self::after_sprint(&self.input);
                self.stage = stage;
                req
            },
        }
    }

    /// Takes the task that the store held for the requested id (the parent
    /// or the epic, whichever was asked for).
    pub fn task_found(&mut self, found: Option<TaskSummary>) -> (r: AgileRequest)
        requires
            old(self).stage == AgileStage::AwaitParent || old(self).stage is AwaitEpic,
        ensures
            final(self).input == old(self).input,
            (final(self).stage, r) == task_step(old(self).input, old(self).stage, found),
    {
        let input = self.input;
        match self.stage {
            AgileStage::AwaitParent => {
                let verdict: Result<Option<u128>, AgileFieldError> = match found {
                    None => Err(AgileFieldError::ParentNotFound),
                    Some(p) => if p.project_id != input.project_id {
                        Err(AgileFieldError::ParentInOtherProject)
                    } else {
                        match Self::check_parent_type(input.task_type, p.task_type) {
                            Some(e) => Err(e),
                            None => {
                                let implied = if p.task_type == TaskType::Epic {
                                    Some(p.id)
                                } else {
                                    p.epic_id
                                };
                                if input.epic_id.is_none() {
                                    Ok(implied)
                                } else if implied.is_some() && input.epic_id != implied {
                                    Err(AgileFieldError::EpicMismatch)
                                } else {
                                    Ok(input.epic_id)
                                }
                            },
                        }
                    },
                };
                match verdict {
                    Err(e) => {
                        self.stage = AgileStage::Finished;
                        AgileRequest::Done(Err(e))
                    },
                    Ok(epic) => {
                        let (stage, req) = Self::after_epic_known(&input, epic);
                        self.stage = stage;
                        req
                    },
                }
            },
            AgileStage::AwaitEpic(e) => {
                let verdict = match found {
                    None => Some(AgileFieldError::EpicNotFound),
                    Some(t) => if t.project_id != input.project_id {
                        Some(AgileFieldError::EpicInOtherProject)
                    } else if t.task_type != TaskType::Epic {
                        Some(AgileFieldError::EpicNotAnEpic)
                    } else {
                        None
                    },
                };
                self.stage = AgileStage::Finished;
                match verdict {
                    Some(err) => AgileRequest::Done(Err(err)),
                    None => AgileRequest::Done(
                        Ok(
                            AgileFields {
                                sprint_id: input.sprint_id,
                                epic_id: Some(e),
                                parent_task_id: input.parent_task_id,
                                story_points: input.story_points,
                            },
                        ),
                    ),
                }
            },
            _ => AgileRequest::Done(Err(AgileFieldError::EpicNotFound)),
        }
    }

    fn check_parent_type(child: TaskType, parent: TaskType) -> (r: Option<AgileFieldError>)
        ensures
            r == parent_type_allowed(child, parent),
    {
        match child {
            TaskType::Feature => if parent != TaskType::Epic {
                Some(AgileFieldError::FeatureParentNotEpic)
            } else {
                None
            },
            TaskType::Story => if parent != TaskType::Feature {
                Some(AgileFieldError::StoryParentNotFeature)
            } else {
                None
            },
            TaskType::Task => if parent != TaskType::Story && parent != TaskType::Feature {
                Some(AgileFieldError::TaskParentNotStoryOrFeature)
            } else {
                None
            },
            TaskType::Epic => None,
        }
    }
}


/// Whether the stage is the one that waits for `req`'s answer.
pub open spec fn well_paired(stage: AgileStage, req: AgileRequest) -> bool {
    match req {
        AgileRequest::FindSprint(_) => stage == AgileStage::AwaitSprint,
        AgileRequest::FindTask(id) => stage == AgileStage::AwaitParent || stage == AgileStage::AwaitEpic(id),
        AgileRequest::Done(_) => stage == AgileStage::Finished,
    }
}

/// Every step pairs the stage with the request it waits on.
pub proof fn lemma_steps_well_paired(inp: AgileFieldsInput, found_s: Option<SprintSummary>, found_t: Option<TaskSummary>, stage: AgileStage)
    ensures
        well_paired(start_step(inp).0, start_step(inp).1),
        well_paired(sprint_step(inp, found_s).0, sprint_step(inp, found_s).1),
        (stage == AgileStage::AwaitParent || stage is AwaitEpic) ==> well_paired(
            task_step(inp, stage, found_t).0,
            task_step(inp, stage, found_t).1,
        ),
{
}

/// A task of type Task may sit under a Story or a Feature of its project:
/// the parent's type is never held against it, and with nothing else named
/// (no sprint, epic or points) it is accepted, taking the epic the parent
/// implies. Under an Epic or another Task of its project it is refused for
/// the parent's type once its sprint and points pass.
pub proof fn lemma_task_parent_types(
    inp: AgileFieldsInput,
    sprint_of: spec_fn(u128) -> Option<SprintSummary>,
    task_of: spec_fn(u128) -> Option<TaskSummary>,
    parent: TaskSummary,
)
    requires
        inp.task_type == TaskType::Task,
        inp.parent_task_id == Some(parent.id),
        task_of(parent.id) == Some(parent),
        parent.project_id == inp.project_id,
    ensures
        (parent.task_type == TaskType::Story || parent.task_type == TaskType::Feature) ==> agile_outcome(
            inp,
            sprint_of,
            task_of,
        ) != Err::<AgileFields, AgileFieldError>(AgileFieldError::TaskParentNotStoryOrFeature),
        (parent.task_type == TaskType::Story || parent.task_type == TaskType::Feature) && inp.sprint_id is None
            && inp.epic_id is None && inp.story_points is None && (parent.epic_id matches Some(e) ==> (task_of(e) matches Some(
            ep) && ep.task_type == TaskType::Epic && ep.project_id == inp.project_id)) ==> agile_outcome(inp, sprint_of, task_of)
            == Ok::<AgileFields, AgileFieldError>(
            AgileFields { sprint_id: None, epic_id: parent.epic_id, parent_task_id: Some(parent.id), story_points: None },
        ),
        (parent.task_type == TaskType::Epic || parent.task_type == TaskType::Task) && inp.sprint_id is None
            && !(inp.story_points matches Some(p) && p < 0) ==> agile_outcome(inp, sprint_of, task_of)
            == Err::<AgileFields, AgileFieldError>(AgileFieldError::TaskParentNotStoryOrFeature),
{
}

/// A Feature sits under an Epic and a Story under a Feature of its project:
/// those parents are never held against them, and any other parent type is
/// refused for it once the sprint and points pass.
pub proof fn lemma_feature_story_parent_types(
    inp: AgileFieldsInput,
    sprint_of: spec_fn(u128) -> Option<SprintSummary>,
    task_of: spec_fn(u128) -> Option<TaskSummary>,
    parent: TaskSummary,
)
    requires
        inp.parent_task_id == Some(parent.id),
        task_of(parent.id) == Some(parent),
        parent.project_id == inp.project_id,
    ensures
        inp.task_type == TaskType::Feature && parent.task_type == TaskType::Epic ==> agile_outcome(inp, sprint_of, task_of)
            != Err::<AgileFields, AgileFieldError>(AgileFieldError::FeatureParentNotEpic),
        inp.task_type == TaskType::Feature && parent.task_type != TaskType::Epic && inp.sprint_id is None
            && inp.story_points is None ==> agile_outcome(inp, sprint_of, task_of) == Err::<AgileFields, AgileFieldError>(
            AgileFieldError::FeatureParentNotEpic,
        ),
        inp.task_type == TaskType::Story && parent.task_type == TaskType::Feature ==> agile_outcome(inp, sprint_of, task_of)
            != Err::<AgileFields, AgileFieldError>(AgileFieldError::StoryParentNotFeature),
        inp.task_type == TaskType::Story && parent.task_type != TaskType::Feature && inp.sprint_id is None
            && !(inp.story_points matches Some(p) && p < 0) ==> agile_outcome(inp, sprint_of, task_of)
            == Err::<AgileFields, AgileFieldError>(AgileFieldError::StoryParentNotFeature),
{
}

/// The first sprint of `s` with id `id`.
pub open spec fn sprint_with_id(s: Seq<SprintSummary>, id: u128) -> Option<SprintSummary>
    decreases s.len(),
{
    if s.len() == 0 {
        None
    } else if s[0].id == id {
        Some(s[0])
    } else {
        sprint_with_id(s.drop_first(), id)
    }
}

/// The first task of `s` with id `id`.
pub open spec fn task_with_id(s: Seq<TaskSummary>, id: u128) -> Option<TaskSummary>
    decreases s.len(),
{
    if s.len() == 0 {
        None
    } else if s[0].id == id {
        Some(s[0])
    } else {
        task_with_id(s.drop_first(), id)
    }
}

fn find_sprint(s: &Vec<SprintSummary>, id: u128) -> (r: Option<SprintSummary>)
    ensures
        r == sprint_with_id(s@, id),
{
    let mut i: usize = 0;
    assert(s@.skip(0) == s@);
    while i < s.len()
        invariant
            i <= s.len(),
            sprint_with_id(s@, id) == sprint_with_id(s@.skip(i as int), id),
        decreases s.len() - i,
    {
        assert(s@.skip(i as int)[0] == s@[i as int]);
        if s[i].id == id {
            return Some(s[i]);
        }
        assert(s@.skip(i as int).drop_first() == s@.skip(i + 1));
        i = i + 1;
    }
    None
}

fn find_task(s: &Vec<TaskSummary>, id: u128) -> (r: Option<TaskSummary>)
    ensures
        r == task_with_id(s@, id),
{
    let mut i: usize = 0;
    assert(s@.skip(0) == s@);
    while i < s.len()
        invariant
            i <= s.len(),
            task_with_id(s@, id) == task_with_id(s@.skip(i as int), id),
        decreases s.len() - i,
    {
        assert(s@.skip(i as int)[0] == s@[i as int]);
        if s[i].id == id {
            return Some(s[i]);
        }
        assert(s@.skip(i as int).drop_first() == s@.skip(i + 1));
        i = i + 1;
    }
    None
}

fn answer_from(
    v: &mut AgileValidation,
    req: AgileRequest,
    sprints: &Vec<SprintSummary>,
    tasks: &Vec<TaskSummary>,
) -> (r: AgileRequest)
    requires
        well_paired(old(v).stage, req),
    ensures
        final(v).input == old(v).input,
        (final(v).stage, r) == answered_step(
            old(v).input,
            old(v).stage,
            req,
            |id: u128| sprint_with_id(sprints@, id),
            |id: u128| task_with_id(tasks@, id),
        ),
        well_paired(final(v).stage, r),
{
    proof {
        lemma_steps_well_paired(v.input, sprint_with_id(sprints@, 0), task_with_id(tasks@, 0), v.stage);
    }
    match req {
        AgileRequest::FindSprint(id) => {
            let found = find_sprint(sprints, id);
            proof {
                lemma_steps_well_paired(v.input, found, None, v.stage);
            }
            v.sprint_found(found)
        },
        AgileRequest::FindTask(id) => {
            let found = find_task(tasks, id);
            proof {
                lemma_steps_well_paired(v.input, None, found, v.stage);
            }
            v.task_found(found)
        },
        AgileRequest::Done(_) => req,
    }
}

/// Checks the agile rules for `input` against a snapshot of the store: the
/// sprints and tasks it holds (the first record of an id counts).
pub fn validate_and_normalize_agile_fields(
    input: AgileFieldsInput,
    sprints: &Vec<SprintSummary>,
    tasks: &Vec<TaskSummary>,
) -> (r: Result<AgileFields, AgileFieldError>)
    ensures
        r == agile_outcome(input, |id: u128| sprint_with_id(sprints@, id), |id: u128| task_with_id(tasks@, id)),
{
    let ghost sprint_of = |id: u128| sprint_with_id(sprints@, id);
    let ghost task_of = |id: u128| task_with_id(tasks@, id);
    proof {
        lemma_steps_well_paired(input, None, None, AgileStage::Finished);
        lemma_agile_machine_decides(input, sprint_of, task_of);
    }
    let (mut v, a) = AgileValidation::start(input);
    let b = answer_from(&mut v, a, sprints, tasks);
    let c = answer_from(&mut v, b, sprints, tasks);
    let d = answer_from(&mut v, c, sprints, tasks);
    match d {
        AgileRequest::Done(r) => r,
        _ => {
            assert(false);
            Err(AgileFieldError::EpicNotFound)
        },
    }
}

} // verus!
