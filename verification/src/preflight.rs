//! The two passes that turn a parallel-spawn request into preflight
//! verdicts: OpenHuman's policy gates for each task, then the
//! shared-workspace arbitration over every admitted claim.
use vstd::prelude::*;
use crate::agents::{
    opt_str, strs, AgentDefinition, AgentDefinitionView, DefinitionSnapshot, ParallelAgentTask,
    ParentExecutionContext,
};
use crate::staging::{
    bounded_prompt, paths_view, requests_worktree, shared_workspace_write_claim,
    with_ownership_boundary, worktree_request_for_task, write_claim, ParallelWorktreeRequest,
};
use crate::ids::{is_task_id, new_task_id};
use crate::text::{append_str, owned, str_eq, trim, trimmed};
use crate::tools::contains_str;

verus! {

/// Why a task was turned away.
#[derive(Clone, Copy, Debug, PartialEq, Eq, Structural)]
pub enum ParallelTaskRejectionKind {
    MissingAgentOrPrompt,
    UnknownAgent,
    OutsideAllowlist,
    MissingToolkit,
    RequiresIsolation,
}

/// A task turned away before it ran.
pub struct ParallelTaskRejection {
    pub task_id: String,
    pub agent_id: String,
    pub error: String,
    pub ownership: Option<String>,
    pub kind: ParallelTaskRejectionKind,
}

/// How a worker is dispatched relative to its siblings.
#[derive(Clone, Copy, Debug, PartialEq, Eq, Structural)]
pub enum WorkerDispatchMode {
    Parallel,
    SerialSharedWorkspaceWrite,
}

/// A worker ready for the dispatch phase.
pub struct PreparedParallelTask {
    pub definition: AgentDefinition,
    pub prompt: String,
    pub task: ParallelAgentTask,
    pub task_id: String,
    pub dispatch_mode: WorkerDispatchMode,
}

impl PreparedParallelTask {
    /// How this worker will be dispatched relative to its siblings.
    pub fn dispatch_mode(&self) -> (m: WorkerDispatchMode)
        ensures
            m == self.dispatch_mode,
    {
        self.dispatch_mode
    }
}

/// The verdict on one task of a request.
pub enum SpawnParallelTaskPreflight {
    Prepared(PreparedParallelTask),
    Rejected(ParallelTaskRejection),
}

/// What a worker needs from the shared workspace.
pub enum ClaimKind {
    /// It writes the shared workspace, only under these paths.
    Writing(Vec<String>),
    /// It runs in a worktree of its own.
    Isolated,
    /// It never writes.
    ReadOnly,
}

/// A worker's claim on the shared workspace, as the arbiter sees it.
pub struct WorkspaceClaim {
    pub worker_id: String,
    pub kind: ClaimKind,
}

pub enum ClaimKindView {
    Writing(Seq<Seq<char>>),
    Isolated,
    ReadOnly,
}

pub open spec fn claim_kind_view(k: ClaimKind) -> ClaimKindView {
    match k {
        ClaimKind::Writing(p) => ClaimKindView::Writing(strs(p@)),
        ClaimKind::Isolated => ClaimKindView::Isolated,
        ClaimKind::ReadOnly => ClaimKindView::ReadOnly,
    }
}

/// A task that cleared every policy gate and awaits arbitration.
pub struct AdmittedParallelTask {
    pub definition: AgentDefinition,
    pub prompt: String,
    pub task: ParallelAgentTask,
    pub task_id: String,
    pub claim: WorkspaceClaim,
}

/// The outcome of the policy pass for one task.
pub enum Admission {
    Admitted(AdmittedParallelTask),
    Rejected(ParallelTaskRejection),
}

/// The policy pass's verdict, over plain values.
pub enum Verdict {
    Reject { kind: ParallelTaskRejectionKind, agent_id: Seq<char>, error: Seq<char> },
    Admit { claim: ClaimKindView },
}

/// The toolkit is missing or blank.
pub open spec fn toolkit_blank(toolkit: Option<Seq<char>>) -> bool {
    match toolkit {
        Some(t) => trim(t).len() == 0,
        None => true,
    }
}

/// The policy gates, in order: an agent id and a prompt, a known agent,
/// an agent on the parent's subagent allowlist, a toolkit for the
/// integrations agent, and a bounded claim on the shared workspace.
pub open spec fn admission_verdict(
    task: ParallelAgentTask,
    definitions: Map<Seq<char>, AgentDefinitionView>,
    parent: ParentExecutionContext,
    ownership_paths: Result<Seq<Seq<char>>, Seq<char>>,
) -> Verdict {
    let agent_id = trim(task.agent_id@);
    let prompt = trim(task.prompt@);
    if agent_id.len() == 0 || prompt.len() == 0 {
        Verdict::Reject {
            kind: ParallelTaskRejectionKind::MissingAgentOrPrompt,
            agent_id,
            error: "agent_id and prompt are required"@,
        }
    } else if !definitions.contains_key(agent_id) {
        Verdict::Reject {
            kind: ParallelTaskRejectionKind::UnknownAgent,
            agent_id,
            error: "unknown agent_id '"@ + agent_id + "'"@,
        }
    } else {
        let def = definitions[agent_id];
        if !strs(parent.allowed_subagent_ids@).contains(def.id) {
            Verdict::Reject {
                kind: ParallelTaskRejectionKind::OutsideAllowlist,
                agent_id: def.id,
                error: "agent '"@ + def.id + "' is not in parent agent '"@
                    + parent.agent_definition_id@ + "' subagents.allowlist"@,
            }
        } else if def.id == "integrations_agent"@ && toolkit_blank(opt_str(task.toolkit)) {
            Verdict::Reject {
                kind: ParallelTaskRejectionKind::MissingToolkit,
                agent_id,
                error: "integrations_agent requires toolkit"@,
            }
        } else {
            match write_claim(opt_str(task.isolation), def, parent.all_tools@, ownership_paths) {
                Ok(Some(paths)) => Verdict::Admit { claim: ClaimKindView::Writing(paths) },
                Ok(None) => if requests_worktree(opt_str(task.isolation)) {
                    Verdict::Admit { claim: ClaimKindView::Isolated }
                } else {
                    Verdict::Admit { claim: ClaimKindView::ReadOnly }
                },
                Err(e) => Verdict::Reject {
                    kind: ParallelTaskRejectionKind::RequiresIsolation,
                    agent_id: def.id,
                    error: e,
                },
            }
        }
    }
}

/// `r` carries `verdict` for `task`, under the id `task_id`.
pub open spec fn admission_matches(
    r: Admission,
    verdict: Verdict,
    task: ParallelAgentTask,
    task_id: Seq<char>,
    definitions: Map<Seq<char>, AgentDefinitionView>,
) -> bool {
    match (r, verdict) {
        (Admission::Rejected(rej), Verdict::Reject { kind, agent_id, error }) => {
            &&& rej.kind == kind
            &&& rej.agent_id@ == agent_id
            &&& rej.error@ == error
            &&& rej.task_id@ == task_id
            &&& rej.ownership == task.ownership
        },
        (Admission::Admitted(a), Verdict::Admit { claim }) => {
            &&& a.task == task
            &&& a.task_id@ == task_id
            &&& a.prompt@ == trim(task.prompt@)
            &&& a.definition@ == definitions[trim(task.agent_id@)]
            &&& a.claim.worker_id@ == task_id
            &&& claim_kind_view(a.claim.kind) == claim
        },
        _ => false,
    }
}

fn toolkit_blank_exec(toolkit: &Option<String>) -> (b: bool)
    ensures
        b == toolkit_blank(opt_str(*toolkit)),
{
    match toolkit {
        Some(t) => trimmed(t.as_str()).as_str().is_empty(),
        None => true,
    }
}

fn reject(
    task_id: String,
    agent_id: String,
    error: String,
    ownership: Option<String>,
    kind: ParallelTaskRejectionKind,
) -> (r: Admission)
    ensures
        r matches Admission::Rejected(rej) && rej.task_id == task_id && rej.agent_id == agent_id
            && rej.error == error && rej.ownership == ownership && rej.kind == kind,
{
    Admission::Rejected(ParallelTaskRejection { task_id, agent_id, error, ownership, kind })
}

/// The policy pass for one task, under the id `task_id`, given what the
/// task's ownership boundary parsed to.
pub fn admit_parallel_task(
    task: ParallelAgentTask,
    task_id: String,
    definitions: &DefinitionSnapshot,
    parent: &ParentExecutionContext,
    ownership_paths: Result<Vec<String>, String>,
) -> (r: Admission)
    ensures
        admission_matches(
            r,
            admission_verdict(task, definitions@, *parent, paths_view(ownership_paths)),
            task,
            task_id@,
            definitions@,
        ),
{
    let agent_id = trimmed(task.agent_id.as_str());
    let prompt = trimmed(task.prompt.as_str());
    if agent_id.as_str().is_empty() || prompt.as_str().is_empty() {
        return reject(
            task_id,
            agent_id,
            owned("agent_id and prompt are required"),
            task.ownership,
            ParallelTaskRejectionKind::MissingAgentOrPrompt,
        );
    }
    let definition = match definitions.get(agent_id.as_str()) {
        Some(d) => d.duplicate(),
        None => {
            let mut error = owned("unknown agent_id '");
            append_str(&mut error, agent_id.as_str());
            append_str(&mut error, "'");
            return reject(
                task_id,
                agent_id,
                error,
                task.ownership,
                ParallelTaskRejectionKind::UnknownAgent,
            );
        },
    };
    if !contains_str(&parent.allowed_subagent_ids, definition.id.as_str()) {
        let mut error = owned("agent '");
        append_str(&mut error, definition.id.as_str());
        append_str(&mut error, "' is not in parent agent '");
        append_str(&mut error, parent.agent_definition_id.as_str());
        append_str(&mut error, "' subagents.allowlist");
        return reject(
            task_id,
            definition.id.clone(),
            error,
            task.ownership,
            ParallelTaskRejectionKind::OutsideAllowlist,
        );
    }
    if str_eq(definition.id.as_str(), "integrations_agent") && toolkit_blank_exec(&task.toolkit) {
        return reject(
            task_id,
            agent_id,
            owned("integrations_agent requires toolkit"),
            task.ownership,
            ParallelTaskRejectionKind::MissingToolkit,
        );
    }
    let kind = match shared_workspace_write_claim(&task, &definition, parent, ownership_paths) {
        Ok(Some(paths)) => ClaimKind::Writing(paths),
        Ok(None) => {
            match worktree_request_for_task(&task) {
                ParallelWorktreeRequest::Isolated { .. } => ClaimKind::Isolated,
                ParallelWorktreeRequest::SharedWorkspace => ClaimKind::ReadOnly,
            }
        },
        Err(error) => {
            return reject(
                task_id,
                definition.id.clone(),
                error,
                task.ownership,
                ParallelTaskRejectionKind::RequiresIsolation,
            );
        },
    };
    let claim = WorkspaceClaim { worker_id: task_id.clone(), kind };
    Admission::Admitted(AdmittedParallelTask { definition, prompt, task, task_id, claim })
}


/// How the arbiter lets a claim run.
#[derive(Clone, Copy, Debug, PartialEq, Eq, Structural)]
pub enum DispatchMode {
    Parallel,
    Serial,
}

/// Why the arbiter refused a claim.
pub enum ClaimConflict {
    /// The claim overlaps `path` of the serial worker `other_worker_id`.
    Overlap { other_worker_id: String, path: String },
    /// The claim writes without declaring what it owns.
    UnboundedWrite,
}

/// The arbiter's verdict over a batch of claims, by position among them: a
/// mode for each claim it let run, and the conflicts it found.
pub struct DispatchPlan {
    pub modes: Vec<Option<DispatchMode>>,
    pub conflicts: Vec<(usize, ClaimConflict)>,
}

/// The conflict recorded for claim `index`; where several are, the last.
pub open spec fn conflict_for(conflicts: Seq<(usize, ClaimConflict)>, index: int) -> Option<
    ClaimConflict,
>
    decreases conflicts.len(),
{
    if conflicts.len() == 0 {
        None
    } else if conflicts.last().0 == index {
        Some(conflicts.last().1)
    } else {
        conflict_for(conflicts.drop_last(), index)
    }
}

/// The dispatch of claim `index`: serial when the arbiter serialized it,
/// and parallel otherwise, since a claim it neither serialized nor refused
/// cannot collide.
pub open spec fn mode_for(modes: Seq<Option<DispatchMode>>, index: int) -> WorkerDispatchMode {
    if 0 <= index < modes.len() && modes[index] == Some(DispatchMode::Serial) {
        WorkerDispatchMode::SerialSharedWorkspaceWrite
    } else {
        WorkerDispatchMode::Parallel
    }
}

/// The sentence for a claim the arbiter refused.
pub open spec fn conflict_message(agent_id: Seq<char>, conflict: ClaimConflict) -> Seq<char> {
    match conflict {
        ClaimConflict::Overlap { other_worker_id, path } => "agent '"@ + agent_id
            + "' requested shared-workspace write access to '"@ + path@
            + "' but it overlaps with serial worker "@ + other_worker_id@
            + "; set isolation=\"worktree\" or use disjoint files: ownership"@,
        ClaimConflict::UnboundedWrite => "agent '"@ + agent_id
            + "' can write the shared workspace without declaring which files it owns; set isolation=\"worktree\" or provide disjoint files: ownership"@,
    }
}

/// Render a claim conflict as the sentence the calling model reads.
pub fn shared_workspace_conflict_message(agent_id: &str, conflict: &ClaimConflict) -> (r: String)
    ensures
        r@ == conflict_message(agent_id@, *conflict),
{
    let mut r = owned("agent '");
    append_str(&mut r, agent_id);
    match conflict {
        ClaimConflict::Overlap { other_worker_id, path } => {
            append_str(&mut r, "' requested shared-workspace write access to '");
            append_str(&mut r, path.as_str());
            append_str(&mut r, "' but it overlaps with serial worker ");
            append_str(&mut r, other_worker_id.as_str());
            append_str(&mut r, "; set isolation=\"worktree\" or use disjoint files: ownership");
        },
        ClaimConflict::UnboundedWrite => {
            append_str(
                &mut r,
                "' can write the shared workspace without declaring which files it owns; set isolation=\"worktree\" or provide disjoint files: ownership",
            );
        },
    }
    r
}

/// How many of `admissions` were admitted.
pub open spec fn admitted_count(admissions: Seq<Admission>) -> nat
    decreases admissions.len(),
{
    if admissions.len() == 0 {
        0
    } else {
        admitted_count(admissions.drop_last()) + if admissions.last() is Admitted {
            1nat
        } else {
            0nat
        }
    }
}

/// The admitted claims, in input order.
pub open spec fn admitted_claims(admissions: Seq<Admission>) -> Seq<(Seq<char>, ClaimKindView)>
    decreases admissions.len(),
{
    if admissions.len() == 0 {
        Seq::empty()
    } else {
        let rest = admitted_claims(admissions.drop_last());
        match admissions.last() {
            Admission::Admitted(a) => rest.push((a.claim.worker_id@, claim_kind_view(a.claim.kind))),
            Admission::Rejected(_) => rest,
        }
    }
}

pub open spec fn claim_views(claims: Seq<WorkspaceClaim>) -> Seq<(Seq<char>, ClaimKindView)> {
    claims.map_values(|c: WorkspaceClaim| (c.worker_id@, claim_kind_view(c.kind)))
}

fn copy_claim(c: &WorkspaceClaim) -> (r: WorkspaceClaim)
    ensures
        r.worker_id@ == c.worker_id@,
        claim_kind_view(r.kind) == claim_kind_view(c.kind),
{
    let kind = match &c.kind {
        ClaimKind::Writing(p) => ClaimKind::Writing(crate::agents::copy_strings(p)),
        ClaimKind::Isolated => ClaimKind::Isolated,
        ClaimKind::ReadOnly => ClaimKind::ReadOnly,
    };
    WorkspaceClaim { worker_id: c.worker_id.clone(), kind }
}

/// The claims of the admitted tasks, in input order: what the arbiter
/// rules on.
pub fn admitted_claims_of(admissions: &Vec<Admission>) -> (r: Vec<WorkspaceClaim>)
    ensures
        claim_views(r@) == admitted_claims(admissions@),
        r@.len() == admitted_count(admissions@),
{
    let mut r: Vec<WorkspaceClaim> = Vec::new();
    let mut i: usize = 0;
    while i < admissions.len()
        invariant
            i <= admissions.len(),
            claim_views(r@) == admitted_claims(admissions@.take(i as int)),
            r@.len() == admitted_count(admissions@.take(i as int)),
        decreases admissions.len() - i,
    {
        proof {
            let t = admissions@.take(i + 1);
            assert(t.drop_last() == admissions@.take(i as int));
            assert(t.last() == admissions@[i as int]);
        }
        match &admissions[i] {
            Admission::Admitted(a) => {
                let c = copy_claim(&a.claim);
                r.push(c);
                assert(claim_views(r@) =~= admitted_claims(admissions@.take(i as int)).push(
                    (a.claim.worker_id@, claim_kind_view(a.claim.kind)),
                ));
            },
            Admission::Rejected(_) => {},
        }
        i += 1;
    }
    assert(admissions@.take(admissions.len() as int) == admissions@);
    r
}

/// `out` is the arbitration verdict on `adm`, the `index`-th admitted
/// task (counting from 0) when it was admitted.
pub open spec fn finalized(out: SpawnParallelTaskPreflight, adm: Admission, index: int, plan: DispatchPlan) -> bool {
    match adm {
        Admission::Rejected(rej) => out == SpawnParallelTaskPreflight::Rejected(rej),
        Admission::Admitted(a) => match conflict_for(plan.conflicts@, index) {
            Some(conflict) => {
                &&& out matches SpawnParallelTaskPreflight::Rejected(rej)
                &&& rej.task_id == a.task_id
                &&& rej.agent_id@ == a.definition.id@
                &&& rej.error@ == conflict_message(a.definition.id@, conflict)
                &&& rej.ownership == a.task.ownership
                &&& rej.kind == ParallelTaskRejectionKind::RequiresIsolation
            },
            None => {
                &&& out matches SpawnParallelTaskPreflight::Prepared(p)
                &&& p.definition == a.definition
                &&& p.task == a.task
                &&& p.task_id == a.task_id
                &&& p.prompt@ == bounded_prompt(a.prompt@, opt_str(a.task.ownership))
                &&& p.dispatch_mode == mode_for(plan.modes@, index)
            },
        },
    }
}

fn find_conflict(conflicts: &Vec<(usize, ClaimConflict)>, index: usize) -> (r: Option<usize>)
    ensures
        match r {
            Some(k) => k < conflicts.len() && conflict_for(conflicts@, index as int) == Some(
                conflicts@[k as int].1,
            ),
            None => conflict_for(conflicts@, index as int) is None,
        },
{
    let mut k: usize = conflicts.len();
    assert(conflicts@.take(k as int) == conflicts@);
    while k > 0
        invariant
            k <= conflicts.len(),
            conflict_for(conflicts@, index as int) == conflict_for(
                conflicts@.take(k as int),
                index as int,
            ),
        decreases k,
    {
        proof {
            let t = conflicts@.take(k as int);
            assert(t.last() == conflicts@[k - 1]);
            assert(t.drop_last() == conflicts@.take(k - 1));
        }
        if conflicts[k - 1].0 == index {
            return Some(k - 1);
        }
        k -= 1;
    }
    None
}

fn dispatch_mode_for(modes: &Vec<Option<DispatchMode>>, index: usize) -> (m: WorkerDispatchMode)
    ensures
        m == mode_for(modes@, index as int),
{
    if index < modes.len() {
        match modes[index] {
            Some(DispatchMode::Serial) => WorkerDispatchMode::SerialSharedWorkspaceWrite,
            _ => WorkerDispatchMode::Parallel,
        }
    } else {
        WorkerDispatchMode::Parallel
    }
}

/// The arbitration pass: every task rejected by policy stays rejected; an
/// admitted task whose claim the arbiter refused is rejected with the
/// conflict's sentence; every other admitted task is prepared, with its
/// prompt framed by its ownership boundary and the dispatch the arbiter
/// chose. The plan is indexed by position among the admitted tasks.
pub fn finalize_preflights(admissions: Vec<Admission>, plan: &DispatchPlan) -> (r: Vec<
    SpawnParallelTaskPreflight,
>)
    ensures
        r@.len() == admissions@.len(),
        forall|i: int|
            0 <= i < r@.len() ==> finalized(
                #[trigger] r@[i],
                admissions@[i],
                admitted_count(admissions@.take(i)) as int,
                *plan,
            ),
{
    let ghost adms = admissions@;
    assert(adms.len() == admissions.len());
    let mut r: Vec<SpawnParallelTaskPreflight> = Vec::new();
    let mut admitted_index: usize = 0;
    for adm in it: admissions.into_iter()
        invariant
            it.seq() == adms,
            adms.len() <= usize::MAX,
            r@.len() == it.index(),
            admitted_index == admitted_count(adms.take(it.index() as int)),
            admitted_index <= it.index(),
            forall|i: int|
                0 <= i < r@.len() ==> finalized(
                    #[trigger] r@[i],
                    adms[i],
                    admitted_count(adms.take(i)) as int,
                    *plan,
                ),
    {
        let ghost i = it.index() as int;
        assert(i < adms.len());
        proof {
            let t = adms.take(i + 1);
            assert(t.drop_last() == adms.take(i));
            assert(t.last() == adms[i]);
        }
        match adm {
            Admission::Rejected(rejection) => {
                r.push(SpawnParallelTaskPreflight::Rejected(rejection));
            },
            Admission::Admitted(admitted) => {
                let index = admitted_index;
                admitted_index += 1;
                let AdmittedParallelTask { definition, prompt, task, task_id, claim: _ } = admitted;
                match find_conflict(&plan.conflicts, index) {
                    Some(k) => {
                        let error = shared_workspace_conflict_message(
                            definition.id.as_str(),
                            &plan.conflicts[k].1,
                        );
                        let agent_id = definition.id.clone();
                        r.push(
                            SpawnParallelTaskPreflight::Rejected(
                                ParallelTaskRejection {
                                    task_id,
                                    agent_id,
                                    error,
                                    ownership: task.ownership,
                                    kind: ParallelTaskRejectionKind::RequiresIsolation,
                                },
                            ),
                        );
                    },
                    None => {
                        let dispatch_mode = dispatch_mode_for(&plan.modes, index);
                        let boundary: Option<&str> = match &task.ownership {
                            Some(o) => Some(o.as_str()),
                            None => None,
                        };
                        let prompt = with_ownership_boundary(prompt.as_str(), boundary);
                        r.push(
                            SpawnParallelTaskPreflight::Prepared(
                                PreparedParallelTask {
                                    definition,
                                    prompt,
                                    task,
                                    task_id,
                                    dispatch_mode,
                                },
                            ),
                        );
                    },
                }
            },
        }
    }
    r
}


/// The task id an admission carries.
pub open spec fn admission_task_id(a: Admission) -> Seq<char> {
    match a {
        Admission::Admitted(t) => t.task_id@,
        Admission::Rejected(r) => r.task_id@,
    }
}

/// The policy pass over a whole request, in input order. Each task is
/// paired with what its ownership boundary parsed to, and gets a fresh
/// task id.
pub fn admit_parallel_tasks(
    tasks: Vec<(ParallelAgentTask, Result<Vec<String>, String>)>,
    definitions: &DefinitionSnapshot,
    parent: &ParentExecutionContext,
) -> (r: Vec<Admission>)
    ensures
        r@.len() == tasks@.len(),
        forall|i: int|
            0 <= i < r@.len() ==> {
                &&& is_task_id(admission_task_id(#[trigger] r@[i]))
                &&& admission_matches(
                    r@[i],
                    admission_verdict(
                        tasks@[i].0,
                        definitions@,
                        *parent,
                        paths_view(tasks@[i].1),
                    ),
                    tasks@[i].0,
                    admission_task_id(r@[i]),
                    definitions@,
                )
            },
{
    let ghost ts = tasks@;
    let mut r: Vec<Admission> = Vec::new();
    for entry in it: tasks.into_iter()
        invariant
            it.seq() == ts,
            r@.len() == it.index(),
            forall|i: int|
                0 <= i < r@.len() ==> {
                    &&& is_task_id(admission_task_id(#[trigger] r@[i]))
                    &&& admission_matches(
                        r@[i],
                        admission_verdict(ts[i].0, definitions@, *parent, paths_view(ts[i].1)),
                        ts[i].0,
                        admission_task_id(r@[i]),
                        definitions@,
                    )
                },
    {
        let (task, ownership_paths) = entry;
        let task_id = new_task_id();
        let a = admit_parallel_task(task, task_id, definitions, parent, ownership_paths);
        r.push(a);
    }
    r
}


/// Write safety: a task admitted with a claim to write the shared
/// workspace always declares the paths it owns; an unbounded write never
/// reaches the arbiter.
pub proof fn law_admitted_writes_declare_paths(
    task: ParallelAgentTask,
    definitions: Map<Seq<char>, AgentDefinitionView>,
    parent: ParentExecutionContext,
    ownership_paths: Result<Seq<Seq<char>>, Seq<char>>,
)
    ensures
        admission_verdict(task, definitions, parent, ownership_paths) matches Verdict::Admit {
            claim: ClaimKindView::Writing(paths),
        } ==> paths.len() > 0,
{
}

/// An admitted task claims an isolated workspace exactly when it asked for
/// a worktree, and a read-only agent never claims to write.
pub proof fn law_admitted_claim_follows_isolation(
    task: ParallelAgentTask,
    definitions: Map<Seq<char>, AgentDefinitionView>,
    parent: ParentExecutionContext,
    ownership_paths: Result<Seq<Seq<char>>, Seq<char>>,
)
    ensures
        admission_verdict(task, definitions, parent, ownership_paths) matches Verdict::Admit { claim }
            ==> {
            &&& (claim is Isolated <==> requests_worktree(opt_str(task.isolation)))
            &&& (definitions[trim(task.agent_id@)].sandbox_mode
                == crate::agents::SandboxMode::ReadOnly ==> !(claim is Writing))
        },
{
}

/// The claim at position `k` of what the arbiter rules on is the claim of
/// the task that the arbitration pass reads as the `k`-th admitted one; so
/// the plan's verdicts reach the tasks they were made for.
pub proof fn law_claims_line_up_with_admissions(admissions: Seq<Admission>, i: int)
    requires
        0 <= i < admissions.len(),
        admissions[i] is Admitted,
    ensures
        admitted_count(admissions.take(i)) < admitted_claims(admissions).len(),
        admitted_claims(admissions)[admitted_count(admissions.take(i)) as int] == (
            admissions[i]->Admitted_0.claim.worker_id@,
            claim_kind_view(admissions[i]->Admitted_0.claim.kind),
        ),
    decreases admissions.len(),
{
    lemma_admitted_claims_len(admissions);
    let t = admissions.drop_last();
    if i == admissions.len() - 1 {
        assert(admissions.take(i) == t);
        lemma_admitted_claims_len(t);
    } else {
        assert(t[i] == admissions[i]);
        assert(t.take(i) == admissions.take(i));
        law_claims_line_up_with_admissions(t, i);
        lemma_admitted_claims_len(t);
    }
}

proof fn lemma_admitted_claims_len(admissions: Seq<Admission>)
    ensures
        admitted_claims(admissions).len() == admitted_count(admissions),
    decreases admissions.len(),
{
    if admissions.len() > 0 {
        lemma_admitted_claims_len(admissions.drop_last());
    }
}


/// The integrations agent is never admitted without a toolkit: a task that
/// passes the id, prompt, known-agent and allowlist checks for the
/// definition `integrations_agent` is rejected for a missing toolkit when
/// it gives none, or one that is empty or all white space.
pub proof fn law_integrations_agent_needs_toolkit(
    task: ParallelAgentTask,
    definitions: Map<Seq<char>, AgentDefinitionView>,
    parent: ParentExecutionContext,
    ownership_paths: Result<Seq<Seq<char>>, Seq<char>>,
)
    requires
        trim(task.agent_id@).len() > 0,
        trim(task.prompt@).len() > 0,
        definitions.contains_key(trim(task.agent_id@)),
        definitions[trim(task.agent_id@)].id == "integrations_agent"@,
        strs(parent.allowed_subagent_ids@).contains("integrations_agent"@),
        match task.toolkit {
            None => true,
            Some(t) => t@.len() == 0 || (forall|i: int| 0 <= i < t@.len() ==> crate::text::is_ws(#[trigger] t@[i])),
        },
    ensures
        admission_verdict(task, definitions, parent, ownership_paths) == (Verdict::Reject {
            kind: ParallelTaskRejectionKind::MissingToolkit,
            agent_id: trim(task.agent_id@),
            error: "integrations_agent requires toolkit"@,
        }),
{
    if let Some(t) = task.toolkit {
        crate::text::lemma_trim_all_white_space(t@);
    }
}


/// The first checks of the policy pass, stated on the task itself: a
/// blank agent id or prompt is rejected as missing; otherwise an id that
/// names no definition is rejected as unknown, quoting the trimmed id; and
/// otherwise an agent off the parent's allowlist is rejected as outside it.
pub proof fn law_admission_first_checks(
    task: ParallelAgentTask,
    definitions: Map<Seq<char>, AgentDefinitionView>,
    parent: ParentExecutionContext,
    ownership_paths: Result<Seq<Seq<char>>, Seq<char>>,
)
    ensures
        (forall|i: int| 0 <= i < task.agent_id@.len() ==> crate::text::is_ws(#[trigger] task.agent_id@[i]))
            ==> admission_verdict(task, definitions, parent, ownership_paths) matches Verdict::Reject {
            kind: ParallelTaskRejectionKind::MissingAgentOrPrompt,
            ..
        },
        (forall|i: int| 0 <= i < task.prompt@.len() ==> crate::text::is_ws(#[trigger] task.prompt@[i]))
            ==> admission_verdict(task, definitions, parent, ownership_paths) matches Verdict::Reject {
            kind: ParallelTaskRejectionKind::MissingAgentOrPrompt,
            ..
        },
        trim(task.agent_id@).len() > 0 && trim(task.prompt@).len() > 0 && !definitions.contains_key(
            trim(task.agent_id@),
        ) ==> admission_verdict(task, definitions, parent, ownership_paths) == (Verdict::Reject {
            kind: ParallelTaskRejectionKind::UnknownAgent,
            agent_id: trim(task.agent_id@),
            error: "unknown agent_id '"@ + trim(task.agent_id@) + "'"@,
        }),
        trim(task.agent_id@).len() > 0 && trim(task.prompt@).len() > 0 && definitions.contains_key(
            trim(task.agent_id@),
        ) && !strs(parent.allowed_subagent_ids@).contains(definitions[trim(task.agent_id@)].id)
            ==> admission_verdict(task, definitions, parent, ownership_paths) matches Verdict::Reject {
            kind: ParallelTaskRejectionKind::OutsideAllowlist,
            ..
        },
        admission_verdict(task, definitions, parent, ownership_paths) is Admit ==> {
            &&& trim(task.agent_id@).len() > 0
            &&& trim(task.prompt@).len() > 0
            &&& definitions.contains_key(trim(task.agent_id@))
            &&& strs(parent.allowed_subagent_ids@).contains(definitions[trim(task.agent_id@)].id)
        },
{
    if forall|i: int| 0 <= i < task.agent_id@.len() ==> crate::text::is_ws(#[trigger] task.agent_id@[i]) {
        crate::text::lemma_trim_all_white_space(task.agent_id@);
    }
    if forall|i: int| 0 <= i < task.prompt@.len() ==> crate::text::is_ws(#[trigger] task.prompt@[i]) {
        crate::text::lemma_trim_all_white_space(task.prompt@);
    }
}

} // verus!
