//! Live event streams: which change messages each subscriber is sent. A
//! message is a JSON patch; a stream looks at its first operation (kind and
//! path, and the record it carries once read) and forwards it, drops it, or
//! sends something else in its place.
use vstd::prelude::*;
use std::collections::HashSet;
use crate::merge::{Merge, merge_id};
use crate::text::{starts_with, str_starts_with, str_strip_prefix, str_eq};
use crate::ids::{uuid_parse, uuid_parsed};

verus! {

broadcast use vstd::std_specs::hash::group_hash_axioms;

/// The kind of a JSON patch operation.
#[derive(Debug, Clone, Copy, PartialEq, Eq, Structural)]
pub enum PatchOpKind {
    Add,
    Replace,
    Remove,
    Other,
}

/// The first operation of a patch: its kind and its path.
#[derive(Debug, Clone)]
pub struct PatchHead {
    pub kind: PatchOpKind,
    pub path: String,
}

/// Whether a merge belongs to this workspace and repository.
pub open spec fn merge_belongs(m: Merge, workspace_id: u128, repo_id: u128) -> bool {
    match m {
        Merge::Direct(d) => d.workspace_id == workspace_id && d.repo_id == repo_id,
        Merge::Pr(p) => p.workspace_id == workspace_id && p.repo_id == repo_id,
    }
}

/// Whether a merge belongs to this workspace and repository.
pub fn merge_matches(merge: &Merge, workspace_id: u128, repo_id: u128) -> (r: bool)
    ensures
        r == merge_belongs(*merge, workspace_id, repo_id),
{
    match merge {
        Merge::Direct(d) => d.workspace_id == workspace_id && d.repo_id == repo_id,
        Merge::Pr(p) => p.workspace_id == workspace_id && p.repo_id == repo_id,
    }
}

/// The merge id a path `/merges/<uuid>` names.
pub open spec fn merge_id_in(path: Seq<char>) -> Option<u128> {
    if starts_with(path, "/merges/"@) {
        uuid_parsed(path.skip(8))
    } else {
        None
    }
}

/// The merge id a path `/merges/<uuid>` names.
pub fn parse_merge_id(path: &str) -> (r: Option<u128>)
    ensures
        r == merge_id_in(path@),
{
    proof {
        reveal_strlit("/merges/");
    }
    match str_strip_prefix(path, "/merges/") {
        Some(rest) => uuid_parse(rest.as_str()),
        None => None,
    }
}

/// The ids of the merges.
pub open spec fn merge_ids(merges: Seq<Merge>) -> Set<u128> {
    merges.map_values(|m: Merge| merge_id(m)).to_set()
}

/// What a merge stream follows: a workspace's merges into one repository,
/// and the ids of those merges its subscriber has been sent.
#[derive(Debug)]
pub struct MergeStreamFilter {
    pub workspace_id: u128,
    pub repo_id: u128,
    pub followed: HashSet<u128>,
}

/// Whether a merge stream forwards a patch: a merge of its own added or
/// replaced, or the removal of a merge it was sent.
pub open spec fn merge_patch_forwarded(
    f: MergeStreamFilter,
    head: Option<PatchHead>,
    value: Option<Merge>,
) -> bool {
    match head {
        None => false,
        Some(h) => starts_with(h.path@, "/merges/"@) && match h.kind {
            PatchOpKind::Add | PatchOpKind::Replace => value is Some && merge_belongs(value.unwrap(), f.workspace_id, f.repo_id),
            PatchOpKind::Remove => merge_id_in(h.path@) is Some && f.followed@.contains(merge_id_in(h.path@).unwrap()),
            PatchOpKind::Other => false,
        },
    }
}

/// The merge ids a stream follows after a patch: a forwarded merge joins
/// them, a removed one leaves them.
pub open spec fn merge_followed_after(
    f: MergeStreamFilter,
    head: Option<PatchHead>,
    value: Option<Merge>,
) -> Set<u128> {
    match head {
        None => f.followed@,
        Some(h) => if !starts_with(h.path@, "/merges/"@) {
            f.followed@
        } else {
            match h.kind {
                PatchOpKind::Add | PatchOpKind::Replace => if value is Some && merge_belongs(
                    value.unwrap(),
                    f.workspace_id,
                    f.repo_id,
                ) {
                    f.followed@.insert(merge_id(value.unwrap()))
                } else {
                    f.followed@
                },
                PatchOpKind::Remove => match merge_id_in(h.path@) {
                    Some(id) => f.followed@.remove(id),
                    None => f.followed@,
                },
                PatchOpKind::Other => f.followed@,
            }
        },
    }
}

/// The ids of the merges, as a set.
fn id_set(merges: &Vec<Merge>) -> (r: HashSet<u128>)
    ensures
        r@ == merge_ids(merges@),
{
    let mut ids: HashSet<u128> = HashSet::new();
    let mut i: usize = 0;
    while i < merges.len()
        invariant
            i <= merges@.len(),
            ids@ == merges@.take(i as int).map_values(|m: Merge| merge_id(m)).to_set(),
        decreases merges@.len() - i,
    {
        let id = merges[i].id();
        let ghost before = merges@.take(i as int).map_values(|m: Merge| merge_id(m));
        assert(merges@.take(i + 1).map_values(|m: Merge| merge_id(m)) == before.push(id));
        ids.insert(id);
        proof {
            assert(before.push(id).to_set() =~= before.to_set().insert(id)) by {
                assert forall|x: u128| before.push(id).contains(x) <==> before.to_set().insert(id).contains(x) by {
                    if before.contains(x) {
                        let w = choose|w: int| 0 <= w < before.len() && before[w] == x;
                        assert(before.push(id)[w] == x);
                    }
                    if x == id {
                        assert(before.push(id)[before.len() as int] == x);
                    }
                    if before.push(id).contains(x) {
                        let w = choose|w: int| 0 <= w < before.len() + 1 && before.push(id)[w] == x;
                        if w < before.len() {
                            assert(before[w] == x);
                        }
                    }
                }
            }
        }
        i = i + 1;
    }
    assert(merges@.take(merges@.len() as int) == merges@);
    ids
}

impl MergeStreamFilter {
    /// A stream of a workspace's merges into a repository, starting from
    /// the snapshot `merges`.
    pub fn new(workspace_id: u128, repo_id: u128, merges: &Vec<Merge>) -> (r: MergeStreamFilter)
        ensures
            r.workspace_id == workspace_id,
            r.repo_id == repo_id,
            r.followed@ == merge_ids(merges@),
    {
        MergeStreamFilter { workspace_id, repo_id, followed: id_set(merges) }
    }

    /// Starts again from a fresh snapshot, after the stream fell behind.
    pub fn resync(&mut self, merges: &Vec<Merge>)
        ensures
            final(self).workspace_id == old(self).workspace_id,
            final(self).repo_id == old(self).repo_id,
            final(self).followed@ == merge_ids(merges@),
    {
        self.followed = id_set(merges);
    }

    /// Whether to forward a patch (`head` is its first operation, `value`
    /// the merge its value holds where it reads as one), and which merges
    /// the stream follows afterwards.
    pub fn on_patch(&mut self, head: Option<&PatchHead>, value: Option<&Merge>) -> (r: bool)
        ensures
            r == merge_patch_forwarded(*old(self), match head { Some(h) => Some(*h), None => None }, match value { Some(m) => Some(*m), None => None }),
            final(self).followed@ == merge_followed_after(*old(self), match head { Some(h) => Some(*h), None => None }, match value { Some(m) => Some(*m), None => None }),
            final(self).workspace_id == old(self).workspace_id,
            final(self).repo_id == old(self).repo_id,
    {
        proof {
            reveal_strlit("/merges/");
        }
        let h = match head {
            Some(h) => h,
            None => {
                return false;
            },
        };
        if !str_starts_with(h.path.as_str(), "/merges/") {
            return false;
        }
        match h.kind {
            PatchOpKind::Add | PatchOpKind::Replace => match value {
                Some(m) => {
                    if merge_matches(m, self.workspace_id, self.repo_id) {
                        self.followed.insert(m.id());
                        true
                    } else {
                        false
                    }
                },
                None => false,
            },
            PatchOpKind::Remove => match parse_merge_id(h.path.as_str()) {
                Some(id) => self.followed.remove(&id),
                None => false,
            },
            PatchOpKind::Other => false,
        }
    }
}

/// The record a patch in the older event format carries, as a task stream
/// reads it; for a workspace, the project of its task where that task is
/// found.
#[derive(Debug, Clone, Copy, PartialEq, Eq, Structural)]
pub enum TaskStreamRecord {
    Task { project_id: u128 },
    DeletedTask { project_id: Option<u128> },
    Workspace { task_project: Option<u128> },
    DeletedWorkspace { task_project: Option<u128> },
    Other,
}

/// Whether a project's task stream forwards a patch. A task patch
/// (`/tasks/..`) goes through when it adds or replaces a task of the
/// project, or removes any task; a patch in the older format when its task,
/// deleted task, or workspace's task is of the project.
pub open spec fn task_patch_forwarded(
    head: Option<PatchHead>,
    task_project: Option<u128>,
    legacy: Option<TaskStreamRecord>,
    project_id: u128,
) -> bool {
    match head {
        None => false,
        Some(h) => if starts_with(h.path@, "/tasks/"@) {
            match h.kind {
                PatchOpKind::Add | PatchOpKind::Replace => task_project == Some(project_id),
                PatchOpKind::Remove => true,
                PatchOpKind::Other => false,
            }
        } else {
            match legacy {
                Some(TaskStreamRecord::Task { project_id: p }) => p == project_id,
                Some(TaskStreamRecord::DeletedTask { project_id: Some(p) }) => p == project_id,
                Some(TaskStreamRecord::Workspace { task_project: Some(p) }) => p == project_id,
                Some(TaskStreamRecord::DeletedWorkspace { task_project: Some(p) }) => p == project_id,
                _ => false,
            }
        },
    }
}

/// Whether a project's task stream forwards a patch: `head` is its first
/// operation, `task_project` the project of the task its value holds (where
/// it reads as one), `legacy` the record it carries in the older format.
pub fn forward_task_patch(
    head: Option<&PatchHead>,
    task_project: Option<u128>,
    legacy: Option<TaskStreamRecord>,
    project_id: u128,
) -> (r: bool)
    ensures
        r == task_patch_forwarded(match head { Some(h) => Some(*h), None => None }, task_project, legacy, project_id),
{
    proof {
        reveal_strlit("/tasks/");
    }
    let h = match head {
        Some(h) => h,
        None => {
            return false;
        },
    };
    if str_starts_with(h.path.as_str(), "/tasks/") {
        match h.kind {
            PatchOpKind::Add | PatchOpKind::Replace => task_project == Some(project_id),
            PatchOpKind::Remove => true,
            PatchOpKind::Other => false,
        }
    } else {
        match legacy {
            Some(TaskStreamRecord::Task { project_id: p }) => p == project_id,
            Some(TaskStreamRecord::DeletedTask { project_id: Some(p) }) => p == project_id,
            Some(TaskStreamRecord::Workspace { task_project: Some(p) }) => p == project_id,
            Some(TaskStreamRecord::DeletedWorkspace { task_project: Some(p) }) => p == project_id,
            _ => false,
        }
    }
}

/// A patch in the older format reaches the task stream of exactly the
/// project its record names: a task, a deleted task, or a workspace (or
/// deleted workspace) whose task is of project `p` is forwarded to the
/// stream of `q` if and only if `q` is `p`; a record that names no project
/// reaches no stream.
pub proof fn lemma_legacy_patch_reaches_its_project(h: PatchHead, task_project: Option<u128>, rec: TaskStreamRecord, q: u128)
    requires
        !starts_with(h.path@, "/tasks/"@),
    ensures
        rec matches TaskStreamRecord::Task { project_id: p } ==> (task_patch_forwarded(Some(h), task_project, Some(rec), q) <==> q == p),
        rec matches TaskStreamRecord::DeletedTask { project_id: Some(p) } ==> (task_patch_forwarded(Some(h), task_project, Some(rec), q) <==> q == p),
        rec matches TaskStreamRecord::Workspace { task_project: Some(p) } ==> (task_patch_forwarded(Some(h), task_project, Some(rec), q) <==> q == p),
        rec matches TaskStreamRecord::DeletedWorkspace { task_project: Some(p) } ==> (task_patch_forwarded(Some(h), task_project, Some(rec), q) <==> q == p),
        (rec == TaskStreamRecord::Other || rec == TaskStreamRecord::DeletedTask { project_id: None }
            || rec == TaskStreamRecord::Workspace { task_project: None }
            || rec == TaskStreamRecord::DeletedWorkspace { task_project: None }) ==> !task_patch_forwarded(Some(h), task_project, Some(rec), q),
{
}

/// A task patch (`/tasks/..`) that removes a task reaches every project's
/// task stream; one that adds or replaces a task reaches the stream of the
/// task's project and no other.
pub proof fn lemma_task_patch_reaches(h: PatchHead, task_project: Option<u128>, legacy: Option<TaskStreamRecord>, q: u128)
    requires
        starts_with(h.path@, "/tasks/"@),
    ensures
        h.kind == PatchOpKind::Remove ==> task_patch_forwarded(Some(h), task_project, legacy, q),
        (h.kind == PatchOpKind::Add || h.kind == PatchOpKind::Replace) ==> (task_patch_forwarded(Some(h), task_project, legacy, q)
            <==> task_project == Some(q)),
{
}

/// Whether the project stream forwards a patch: any patch under
/// `/projects`.
pub fn forward_project_patch(head: Option<&PatchHead>) -> (r: bool)
    ensures
        r == (head matches Some(h) && starts_with(h.path@, "/projects"@)),
{
    match head {
        Some(h) => str_starts_with(h.path.as_str(), "/projects"),
        None => false,
    }
}

/// What an execution-process stream reads of a process.
#[derive(Debug, Clone, Copy, PartialEq, Eq, Structural)]
pub struct ProcessFacts {
    pub id: u128,
    pub session_id: u128,
    pub dropped: bool,
}

/// The record a patch in the older event format carries, as an
/// execution-process stream reads it.
#[derive(Debug, Clone, Copy, PartialEq, Eq, Structural)]
pub enum ProcessStreamRecord {
    Process(ProcessFacts),
    DeletedProcess { session_id: Option<u128> },
    Other,
}

/// What a stream does with a patch.
#[derive(Debug, Clone, Copy, PartialEq, Eq, Structural)]
pub enum StreamAction {
    /// Leave it out.
    Drop,
    /// Send it on.
    Forward,
    /// Send, in its place, the removal of this process.
    SendRemoval(u128),
}

/// What a stream does with a patch about a process of one of its sessions:
/// a soft-deleted process is shown as removed unless those are shown.
pub open spec fn process_action(p: ProcessFacts, show_soft_deleted: bool) -> StreamAction {
    if !show_soft_deleted && p.dropped { StreamAction::SendRemoval(p.id) } else { StreamAction::Forward }
}

/// What a workspace's execution-process stream does with a patch. A process
/// patch (`/execution_processes/..`) that adds or replaces a process of one
/// of the sessions goes through (or is replaced by its removal, see
/// `process_action`); every removal goes through. A patch in the older
/// format goes through likewise for a process, and for a deleted process of
/// one of the sessions.
pub open spec fn process_patch_action(
    head: Option<PatchHead>,
    value: Option<ProcessFacts>,
    legacy: Option<ProcessStreamRecord>,
    session_ids: Seq<u128>,
    show_soft_deleted: bool,
) -> StreamAction {
    match head {
        None => StreamAction::Drop,
        Some(h) => if starts_with(h.path@, "/execution_processes/"@) {
            match h.kind {
                PatchOpKind::Add | PatchOpKind::Replace => match value {
                    Some(p) => if session_ids.contains(p.session_id) {
                        process_action(p, show_soft_deleted)
                    } else {
                        StreamAction::Drop
                    },
                    None => StreamAction::Drop,
                },
                PatchOpKind::Remove => StreamAction::Forward,
                PatchOpKind::Other => StreamAction::Drop,
            }
        } else {
            match legacy {
                Some(ProcessStreamRecord::Process(p)) => if session_ids.contains(p.session_id) {
                    process_action(p, show_soft_deleted)
                } else {
                    StreamAction::Drop
                },
                Some(ProcessStreamRecord::DeletedProcess { session_id: Some(s) }) => if session_ids.contains(s) {
                    StreamAction::Forward
                } else {
                    StreamAction::Drop
                },
                _ => StreamAction::Drop,
            }
        },
    }
}

/// What to do with a process patch of one of the sessions.
fn action_for(p: ProcessFacts, show_soft_deleted: bool) -> (r: StreamAction)
    ensures
        r == process_action(p, show_soft_deleted),
{
    if !show_soft_deleted && p.dropped {
        StreamAction::SendRemoval(p.id)
    } else {
        StreamAction::Forward
    }
}

/// What a workspace's execution-process stream does with a patch.
pub fn execution_process_patch_action(
    head: Option<&PatchHead>,
    value: Option<ProcessFacts>,
    legacy: Option<ProcessStreamRecord>,
    session_ids: &Vec<u128>,
    show_soft_deleted: bool,
) -> (r: StreamAction)
    ensures
        r == process_patch_action(
            match head { Some(h) => Some(*h), None => None },
            value,
            legacy,
            session_ids@,
            show_soft_deleted,
        ),
{
    proof {
        reveal_strlit("/execution_processes/");
    }
    let h = match head {
        Some(h) => h,
        None => {
            return StreamAction::Drop;
        },
    };
    if str_starts_with(h.path.as_str(), "/execution_processes/") {
        match h.kind {
            PatchOpKind::Add | PatchOpKind::Replace => match value {
                Some(p) => if crate::ordering::contains_id(session_ids, p.session_id) {
                    action_for(p, show_soft_deleted)
                } else {
                    StreamAction::Drop
                },
                None => StreamAction::Drop,
            },
            PatchOpKind::Remove => StreamAction::Forward,
            PatchOpKind::Other => StreamAction::Drop,
        }
    } else {
        match legacy {
            Some(ProcessStreamRecord::Process(p)) => if crate::ordering::contains_id(session_ids, p.session_id) {
                action_for(p, show_soft_deleted)
            } else {
                StreamAction::Drop
            },
            Some(ProcessStreamRecord::DeletedProcess { session_id: Some(s) }) => if crate::ordering::contains_id(
                session_ids,
                s,
            ) {
                StreamAction::Forward
            } else {
                StreamAction::Drop
            },
            _ => StreamAction::Drop,
        }
    }
}

/// Whether a scratch stream forwards a patch: it adds or replaces the
/// `/scratch` record, and the value's `id` is the scratch's id (as text)
/// and its `payload.type` the scratch's type.
pub open spec fn scratch_patch_forwarded(
    head: Option<PatchHead>,
    value_id: Option<Seq<char>>,
    value_type: Option<Seq<char>>,
    scratch_id: u128,
    scratch_type: Seq<char>,
) -> bool {
    match head {
        None => false,
        Some(h) => h.path@ == "/scratch"@ && (h.kind == PatchOpKind::Add || h.kind == PatchOpKind::Replace)
            && value_id == Some(crate::ids::uuid_text(scratch_id)) && value_type == Some(scratch_type),
    }
}

/// Whether two optional texts are both there and equal.
fn same_text(a: &Option<String>, b: &str) -> (r: bool)
    ensures
        r == (a matches Some(x) && x@ == b@),
{
    match a {
        Some(x) => str_eq(x.as_str(), b),
        None => false,
    }
}

/// Whether a scratch stream forwards a patch: `value_id` and `value_type`
/// are the value's `id` and `payload.type` where they are strings.
pub fn forward_scratch_patch(
    head: Option<&PatchHead>,
    value_id: &Option<String>,
    value_type: &Option<String>,
    scratch_id: u128,
    scratch_type: &str,
) -> (r: bool)
    ensures
        r == scratch_patch_forwarded(
            match head { Some(h) => Some(*h), None => None },
            crate::webhooks::opt_view(*value_id),
            crate::webhooks::opt_view(*value_type),
            scratch_id,
            scratch_type@,
        ),
{
    let h = match head {
        Some(h) => h,
        None => {
            return false;
        },
    };
    if !str_eq(h.path.as_str(), "/scratch") {
        return false;
    }
    if !(h.kind == PatchOpKind::Add || h.kind == PatchOpKind::Replace) {
        return false;
    }
    let id_text = crate::ids::uuid_to_string(scratch_id);
    same_text(value_id, id_text.as_str()) && same_text(value_type, scratch_type)
}

/// A merge stream forwards the removal of a merge exactly when it follows
/// that merge, and follows it no more afterwards; a merge of its own that
/// it forwards, it follows, so its later removal is forwarded too.
pub proof fn lemma_merge_stream_removals(
    f: MergeStreamFilter,
    g: MergeStreamFilter,
    add: PatchHead,
    m: Merge,
    remove: PatchHead,
)
    requires
        remove.kind == PatchOpKind::Remove,
        merge_id_in(remove.path@) == Some(merge_id(m)),
        add.kind == PatchOpKind::Add || add.kind == PatchOpKind::Replace,
        starts_with(add.path@, "/merges/"@),
        merge_belongs(m, f.workspace_id, f.repo_id),
        g.workspace_id == f.workspace_id,
        g.repo_id == f.repo_id,
        g.followed@ == merge_followed_after(f, Some(add), Some(m)),
    ensures
        merge_patch_forwarded(f, Some(remove), None) == f.followed@.contains(merge_id(m)),
        !merge_followed_after(f, Some(remove), None).contains(merge_id(m)),
        merge_patch_forwarded(f, Some(add), Some(m)),
        merge_patch_forwarded(g, Some(remove), None),
        merge_followed_after(g, Some(remove), None) == f.followed@.remove(merge_id(m)),
{
    assert(starts_with(remove.path@, "/merges/"@));
    assert(f.followed@.insert(merge_id(m)).remove(merge_id(m)) =~= f.followed@.remove(merge_id(m)));
}

} // verus!
