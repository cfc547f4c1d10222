//! Staging of the workers a request admitted: the immediate results of the
//! tasks turned away, where each worker runs, and what the progress sink
//! hears when one is spawned. The caller does the waiting (worktree
//! preparation, event delivery) and hands the outcomes back.
use vstd::prelude::*;
use crate::agents::{copy_opt, opt_str, AgentDefinition, ParallelAgentTask, ParentExecutionContext, SandboxMode};
use crate::preflight::{
    ParallelTaskRejection, PreparedParallelTask, SpawnParallelTaskPreflight, WorkerDispatchMode,
};
use crate::staging::{
    opt_ref, requests_worktree, root_session, spawn_parallel_lineage, worktree_request_for_task,
    ParallelAgentLineage, ParallelWorktreeRequest,
};
use crate::text::{append_str, owned};

verus! {

/// The result reported for a worker task.
pub struct ParallelAgentResult {
    pub task_id: String,
    pub agent_id: String,
    pub lineage: ParallelAgentLineage,
    pub success: bool,
    pub output: Option<String>,
    pub error: Option<String>,
    pub ownership: Option<String>,
    pub elapsed_ms: u64,
    pub iterations: u64,
    pub stale_parent_reads: Vec<String>,
    pub worktree_path: Option<String>,
    pub changed_files: Vec<String>,
    pub dirty_status: Option<String>,
}

/// `r` reports that task `task_id` of agent `agent_id` failed with `error`
/// before it ran, in the lineage of `parent_session`.
pub open spec fn is_failed_before_run(
    r: ParallelAgentResult,
    parent_session: Seq<char>,
    prefix: Option<Seq<char>>,
    task_id: Seq<char>,
    agent_id: Seq<char>,
    error: Seq<char>,
    ownership: Option<Seq<char>>,
) -> bool {
    &&& r.task_id@ == task_id
    &&& r.agent_id@ == agent_id
    &&& r.lineage.parent_session@ == parent_session
    &&& r.lineage.root_session@ == root_session(parent_session, prefix)
    &&& r.lineage.child_task_id@ == task_id
    &&& !r.success
    &&& r.output is None
    &&& opt_str(r.error) == Some(error)
    &&& opt_str(r.ownership) == ownership
    &&& r.elapsed_ms == 0
    &&& r.iterations == 0
    &&& r.stale_parent_reads@.len() == 0
    &&& r.worktree_path is None
    &&& r.changed_files@.len() == 0
    &&& r.dirty_status is None
}

fn failed_before_run(
    parent_session: &str,
    session_parent_prefix: Option<&str>,
    task_id: String,
    agent_id: String,
    error: String,
    ownership: Option<String>,
) -> (r: ParallelAgentResult)
    ensures
        is_failed_before_run(
            r,
            parent_session@,
            opt_ref(session_parent_prefix),
            task_id@,
            agent_id@,
            error@,
            opt_str(ownership),
        ),
{
    let lineage = spawn_parallel_lineage(parent_session, session_parent_prefix, task_id.as_str());
    ParallelAgentResult {
        task_id,
        agent_id,
        lineage,
        success: false,
        output: None,
        error: Some(error),
        ownership,
        elapsed_ms: 0,
        iterations: 0,
        stale_parent_reads: Vec::new(),
        worktree_path: None,
        changed_files: Vec::new(),
        dirty_status: None,
    }
}

fn prefix_of(parent: &ParentExecutionContext) -> (r: Option<&str>)
    ensures
        opt_ref(r) == opt_str(parent.session_parent_prefix),
{
    match &parent.session_parent_prefix {
        Some(p) => Some(p.as_str()),
        None => None,
    }
}

/// The immediate result for a task turned away by preflight.
pub fn rejection_result(
    parent_session: &str,
    parent: &ParentExecutionContext,
    rejection: ParallelTaskRejection,
) -> (r: ParallelAgentResult)
    ensures
        is_failed_before_run(
            r,
            parent_session@,
            opt_str(parent.session_parent_prefix),
            rejection.task_id@,
            rejection.agent_id@,
            rejection.error@,
            opt_str(rejection.ownership),
        ),
{
    let ParallelTaskRejection { task_id, agent_id, error, ownership, kind: _ } = rejection;
    failed_before_run(parent_session, prefix_of(parent), task_id, agent_id, error, ownership)
}

/// How an isolated worktree inherits the agent's sandbox.
#[derive(Clone, Copy, Debug, PartialEq, Eq, Structural)]
pub enum WorktreeSandbox {
    Required,
    Inherit,
}

/// What the caller does about a worker's workspace.
pub enum WorktreeStep {
    /// Nothing: the worker runs in the shared workspace.
    Shared,
    /// Prepare an isolated worktree of `repo_root` for the worker.
    Prepare { repo_root: String, base_ref: Option<String>, sandbox: WorktreeSandbox },
    /// Fail the worker: it wants a worktree and there is no action root.
    Unavailable,
}

/// The sandbox a worktree gets for an agent: required when the agent is
/// sandboxed, inherited otherwise.
pub open spec fn worktree_sandbox(mode: SandboxMode) -> WorktreeSandbox {
    if mode == SandboxMode::Sandboxed {
        WorktreeSandbox::Required
    } else {
        WorktreeSandbox::Inherit
    }
}

/// The workspace step for `task`, run by `definition`, when the action root
/// is `action_root`.
pub fn worktree_step(task: &ParallelAgentTask, definition: &AgentDefinition, action_root: Option<&str>) -> (r: WorktreeStep)
    ensures
        !requests_worktree(opt_str(task.isolation)) ==> r is Shared,
        requests_worktree(opt_str(task.isolation)) && action_root is None ==> r is Unavailable,
        requests_worktree(opt_str(task.isolation)) && action_root is Some ==> (r matches WorktreeStep::Prepare {
            repo_root,
            base_ref,
            sandbox,
        } && repo_root@ == action_root->0@ && opt_str(base_ref) == opt_str(task.base_ref) && sandbox
            == worktree_sandbox(definition.sandbox_mode) && ((sandbox == WorktreeSandbox::Required)
            <==> (definition.sandbox_mode == SandboxMode::Sandboxed))),
{
    match worktree_request_for_task(task) {
        ParallelWorktreeRequest::SharedWorkspace => WorktreeStep::Shared,
        ParallelWorktreeRequest::Isolated { base_ref } => match action_root {
            Some(root) => {
                let sandbox = match definition.sandbox_mode {
                    SandboxMode::Sandboxed => WorktreeSandbox::Required,
                    _ => WorktreeSandbox::Inherit,
                };
                WorktreeStep::Prepare { repo_root: owned(root), base_ref, sandbox }
            },
            None => WorktreeStep::Unavailable,
        },
    }
}

/// The result for a worker that wanted a worktree when no action root was
/// available.
pub fn worktree_unavailable_result(
    parent_session: &str,
    parent: &ParentExecutionContext,
    task_id: &str,
    definition: &AgentDefinition,
    task: &ParallelAgentTask,
) -> (r: ParallelAgentResult)
    ensures
        is_failed_before_run(
            r,
            parent_session@,
            opt_str(parent.session_parent_prefix),
            task_id@,
            definition.id@,
            "worktree isolation requested but action_dir is unavailable"@,
            opt_str(task.ownership),
        ),
{
    failed_before_run(
        parent_session,
        prefix_of(parent),
        owned(task_id),
        definition.id.clone(),
        owned("worktree isolation requested but action_dir is unavailable"),
        copy_opt(&task.ownership),
    )
}

/// The result for a worker whose worktree could not be prepared; `err` is
/// the preparation error as text.
pub fn worktree_failed_result(
    parent_session: &str,
    parent: &ParentExecutionContext,
    task_id: &str,
    definition: &AgentDefinition,
    task: &ParallelAgentTask,
    err: &str,
) -> (r: ParallelAgentResult)
    ensures
        is_failed_before_run(
            r,
            parent_session@,
            opt_str(parent.session_parent_prefix),
            task_id@,
            definition.id@,
            "worktree isolation failed: "@ + err@,
            opt_str(task.ownership),
        ),
{
    let mut error = owned("worktree isolation failed: ");
    append_str(&mut error, err);
    failed_before_run(
        parent_session,
        prefix_of(parent),
        owned(task_id),
        definition.id.clone(),
        error,
        copy_opt(&task.ownership),
    )
}

/// The progress event that announces a spawned worker.
pub struct SubagentSpawned {
    pub agent_id: String,
    pub task_id: String,
    pub mode: String,
    pub dedicated_thread: bool,
    pub prompt_chars: usize,
    pub prompt: String,
    pub worker_thread_id: Option<String>,
    pub display_name: Option<String>,
}

/// The announcement for worker `task_id` of `definition` with `prompt`: a
/// typed spawn on no dedicated thread, counting the prompt in characters.
pub fn spawned_progress(definition: &AgentDefinition, task_id: &str, prompt: &str) -> (r: SubagentSpawned)
    ensures
        r.agent_id@ == definition.id@,
        r.task_id@ == task_id@,
        r.mode@ == "typed"@,
        !r.dedicated_thread,
        r.prompt_chars == prompt@.len(),
        r.prompt@ == prompt@,
        r.worker_thread_id is None,
        opt_str(r.display_name) == Some(definition.display_name@),
{
    let prompt_chars = prompt.unicode_len();
    SubagentSpawned {
        agent_id: definition.id.clone(),
        task_id: owned(task_id),
        mode: owned("typed"),
        dedicated_thread: false,
        prompt_chars,
        prompt: owned(prompt),
        worker_thread_id: None,
        display_name: Some(owned(definition.display_name())),
    }
}

/// The workspace a worker runs in.
pub struct WorkspaceDescriptor {
    pub root: String,
    pub policy_id: String,
}

impl WorkspaceDescriptor {
    pub fn duplicate(&self) -> (r: Self)
        ensures
            r.root@ == self.root@,
            r.policy_id@ == self.policy_id@,
    {
        WorkspaceDescriptor { root: self.root.clone(), policy_id: self.policy_id.clone() }
    }
}

/// A worker ready to run.
pub struct SpawnParallelWorker {
    pub definition: AgentDefinition,
    pub prompt: String,
    pub task: ParallelAgentTask,
    pub task_id: String,
    pub lineage: ParallelAgentLineage,
    pub worktree_path: Option<String>,
    pub workspace_descriptor: Option<WorkspaceDescriptor>,
    pub dispatch_mode: WorkerDispatchMode,
}

/// The worker for `prepared`, given the worktree prepared for it, if any:
/// it runs in that worktree, or else in the parent's workspace.
pub fn stage_worker(
    parent_session: &str,
    parent: &ParentExecutionContext,
    prepared: PreparedParallelTask,
    worktree: Option<WorkspaceDescriptor>,
    parent_workspace_descriptor: Option<&WorkspaceDescriptor>,
) -> (r: SpawnParallelWorker)
    ensures
        r.definition == prepared.definition,
        r.prompt == prepared.prompt,
        r.task == prepared.task,
        r.task_id == prepared.task_id,
        r.dispatch_mode == prepared.dispatch_mode,
        r.lineage.parent_session@ == parent_session@,
        r.lineage.root_session@ == root_session(
            parent_session@,
            opt_str(parent.session_parent_prefix),
        ),
        r.lineage.child_task_id@ == prepared.task_id@,
        match worktree {
            Some(w) => opt_str(r.worktree_path) == Some(w.root@) && r.workspace_descriptor == Some(w),
            None => r.worktree_path is None && match parent_workspace_descriptor {
                Some(p) => r.workspace_descriptor matches Some(d) && d.root@ == p.root@
                    && d.policy_id@ == p.policy_id@,
                None => r.workspace_descriptor is None,
            },
        },
{
    let PreparedParallelTask { definition, prompt, task, task_id, dispatch_mode } = prepared;
    let lineage = spawn_parallel_lineage(parent_session, prefix_of(parent), task_id.as_str());
    let (worktree_path, workspace_descriptor) = match worktree {
        Some(w) => (Some(w.root.clone()), Some(w)),
        None => match parent_workspace_descriptor {
            Some(p) => (None, Some(p.duplicate())),
            None => (None, None),
        },
    };
    SpawnParallelWorker {
        definition,
        prompt,
        task,
        task_id,
        lineage,
        worktree_path,
        workspace_descriptor,
        dispatch_mode,
    }
}


/// What the caller does with one preflight verdict.
pub enum StagingAction {
    /// Report this result at once; the task never runs.
    Report(ParallelAgentResult),
    /// Announce the worker, settle its workspace, then stage it.
    Spawn { prepared: PreparedParallelTask, announce: SubagentSpawned, workspace: WorktreeStep },
}

/// What becomes of a preflight verdict. A rejected task turns into its
/// failure result. A prepared one is announced, and its workspace step is
/// decided.
pub fn begin_staging(
    parent_session: &str,
    parent: &ParentExecutionContext,
    preflight: SpawnParallelTaskPreflight,
    action_root: Option<&str>,
) -> (r: StagingAction)
    ensures
        match preflight {
            SpawnParallelTaskPreflight::Rejected(rej) => r matches StagingAction::Report(res)
                && is_failed_before_run(
                res,
                parent_session@,
                opt_str(parent.session_parent_prefix),
                rej.task_id@,
                rej.agent_id@,
                rej.error@,
                opt_str(rej.ownership),
            ),
            SpawnParallelTaskPreflight::Prepared(p) => r matches StagingAction::Spawn {
                prepared,
                announce,
                workspace,
            } && prepared == p && announce.agent_id@ == p.definition.id@ && announce.task_id@
                == p.task_id@ && announce.prompt@ == p.prompt@ && announce.prompt_chars
                == p.prompt@.len() && announce.mode@ == "typed"@ && !announce.dedicated_thread
                && announce.worker_thread_id is None && opt_str(announce.display_name) == Some(
                p.definition.display_name@,
            ) && (!requests_worktree(opt_str(p.task.isolation)) ==> workspace is Shared) && (
            requests_worktree(opt_str(p.task.isolation)) && action_root is None
                ==> workspace is Unavailable) && (requests_worktree(opt_str(p.task.isolation))
                && action_root is Some ==> (workspace matches WorktreeStep::Prepare {
                repo_root,
                base_ref,
                sandbox,
            } && repo_root@ == action_root->0@ && opt_str(base_ref) == opt_str(p.task.base_ref)
                && sandbox == worktree_sandbox(p.definition.sandbox_mode))),
        },
{
    match preflight {
        SpawnParallelTaskPreflight::Rejected(rejection) => StagingAction::Report(
            rejection_result(parent_session, parent, rejection),
        ),
        SpawnParallelTaskPreflight::Prepared(prepared) => {
            let announce = spawned_progress(
                &prepared.definition,
                prepared.task_id.as_str(),
                prepared.prompt.as_str(),
            );
            let workspace = worktree_step(&prepared.task, &prepared.definition, action_root);
            StagingAction::Spawn { prepared, announce, workspace }
        },
    }
}


/// An isolated worktree requires a sandbox exactly when the agent is
/// sandboxed; an agent with no sandbox or a read-only one inherits.
pub proof fn law_worktree_sandbox(mode: SandboxMode)
    ensures
        (worktree_sandbox(mode) == WorktreeSandbox::Required) <==> (mode == SandboxMode::Sandboxed),
        mode == SandboxMode::Off ==> worktree_sandbox(mode) == WorktreeSandbox::Inherit,
        mode == SandboxMode::ReadOnly ==> worktree_sandbox(mode) == WorktreeSandbox::Inherit,
{
}

} // verus!
