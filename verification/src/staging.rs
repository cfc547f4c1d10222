//! Admission of a parallel-spawn request: the OpenHuman policy gates each
//! task passes, the shared-workspace write claims, and the sentences the
//! calling model reads when a task is turned away.
use vstd::prelude::*;
use crate::agents::{
    opt_str, strs, AgentDefinition, ParallelAgentTask, ParentExecutionContext, SandboxMode,
};
use crate::text::{
    append_str, chars_of, decimal, eq_ignore_ascii_case, eq_ignore_ascii_case_exec,
    first_segment, first_segment_end, owned, push_decimal, starts_with, string_of, trim,
    trim_bounds, trimmed,
};
use crate::tools::{shared_workspace_write_capable_tools, visible_tools, write_entries};

verus! {

/// The view of an optional string slice.
pub open spec fn opt_ref(o: Option<&str>) -> Option<Seq<char>> {
    match o {
        Some(s) => Some(s@),
        None => None,
    }
}

/// The items of `items` separated by `sep`.
pub open spec fn join(items: Seq<Seq<char>>, sep: Seq<char>) -> Seq<char>
    decreases items.len(),
{
    if items.len() == 0 {
        Seq::empty()
    } else if items.len() == 1 {
        items[0]
    } else {
        join(items.drop_last(), sep) + sep + items.last()
    }
}

/// How many write-capable tools a rejection names before it summarizes.
pub open spec fn preview_limit() -> nat {
    6
}

/// The preview of a list of write-capable tools: the first six joined by
/// `", "`, then `", +N more"` when there are more.
pub open spec fn write_preview(tools: Seq<Seq<char>>) -> Seq<char> {
    if tools.len() > preview_limit() {
        join(tools.take(preview_limit() as int), ", "@) + ", +"@ + decimal(
            (tools.len() - preview_limit()) as nat,
        ) + " more"@
    } else {
        join(tools, ", "@)
    }
}

/// The preview of `write_capable_tools` that a rejection quotes.
pub fn shared_workspace_write_preview(write_capable_tools: &Vec<String>) -> (r: String)
    ensures
        r@ == write_preview(strs(write_capable_tools@)),
{
    let ghost items = strs(write_capable_tools@);
    let n = if write_capable_tools.len() > 6 {
        6
    } else {
        write_capable_tools.len()
    };
    let mut r = String::new();
    let mut i: usize = 0;
    while i < n
        invariant
            i <= n <= write_capable_tools.len(),
            n == if items.len() > 6 { 6 } else { items.len() },
            items == strs(write_capable_tools@),
            r@ == join(items.take(i as int), ", "@),
        decreases n - i,
    {
        proof {
            let t = items.take(i + 1);
            assert(t.drop_last() == items.take(i as int));
            assert(t.last() == write_capable_tools@[i as int]@);
            if i == 0 {
                assert(items.take(0) == Seq::<Seq<char>>::empty());
            }
        }
        if i > 0 {
            append_str(&mut r, ", ");
        }
        append_str(&mut r, write_capable_tools[i].as_str());
        i += 1;
    }
    if write_capable_tools.len() > 6 {
        append_str(&mut r, ", +");
        push_decimal(&mut r, write_capable_tools.len() - 6);
        append_str(&mut r, " more");
    } else {
        assert(items.take(n as int) == items);
    }
    r
}

/// The text after `files:` in a task's ownership boundary, once trimmed;
/// nothing when the boundary is blank or does not start with `files:`.
pub open spec fn ownership_file_list(ownership: Option<Seq<char>>) -> Option<Seq<char>> {
    match ownership {
        Some(o) => {
            let t = trim(o);
            if t.len() > 0 && "files:"@.is_prefix_of(t) {
                Some(t.skip("files:"@.len() as int))
            } else {
                None
            }
        },
        None => None,
    }
}

/// The claimed-path list of a `files: a.rs, b.rs` ownership boundary, not
/// yet split: what follows `files:` in the trimmed boundary.
pub fn ownership_file_list_text(ownership: Option<&str>) -> (r: Option<String>)
    ensures
        opt_str(r) == ownership_file_list(opt_ref(ownership)),
{
    match ownership {
        Some(o) => {
            let v = chars_of(o);
            let (lo, hi) = trim_bounds(&v);
            let t = string_of(&v, lo, hi);
            if hi > lo && starts_with(t.as_str(), "files:") {
                let p = chars_of("files:");
                let tv = chars_of(t.as_str());
                assert(tv@.subrange(p@.len() as int, tv@.len() as int) == tv@.skip(p@.len() as int));
                Some(string_of(&tv, p.len(), tv.len()))
            } else {
                None
            }
        },
        None => None,
    }
}

/// The sentence for an ownership path that is absolute or leaves the
/// workspace.
pub fn ownership_path_error(raw: &str) -> (r: String)
    ensures
        r@ == "ownership path '"@ + raw@ + "' must be a relative file path under the workspace"@,
{
    let mut r = owned("ownership path '");
    append_str(&mut r, raw);
    append_str(&mut r, "' must be a relative file path under the workspace");
    r
}

/// The task asks for an isolated worktree: its `isolation` is `worktree`,
/// ignoring surrounding white space and ASCII case.
pub open spec fn requests_worktree(isolation: Option<Seq<char>>) -> bool {
    match isolation {
        Some(s) => eq_ignore_ascii_case(trim(s), "worktree"@),
        None => false,
    }
}

/// Where a parallel worker will run.
pub enum ParallelWorktreeRequest {
    /// In the parent's workspace.
    SharedWorkspace,
    /// In a worktree of its own, started from the requested base ref.
    Isolated { base_ref: Option<String> },
}

fn requests_worktree_exec(isolation: &Option<String>) -> (b: bool)
    ensures
        b == requests_worktree(opt_str(*isolation)),
{
    match isolation {
        Some(s) => {
            let t = trimmed(s.as_str());
            eq_ignore_ascii_case_exec(t.as_str(), "worktree")
        },
        None => false,
    }
}

/// Where `task` asks to run.
pub fn worktree_request_for_task(task: &ParallelAgentTask) -> (r: ParallelWorktreeRequest)
    ensures
        requests_worktree(opt_str(task.isolation)) <==> r is Isolated,
        r matches ParallelWorktreeRequest::Isolated { base_ref } ==> opt_str(base_ref) == opt_str(
            task.base_ref,
        ),
{
    if requests_worktree_exec(&task.isolation) {
        let base_ref = match &task.base_ref {
            Some(b) => Some(b.clone()),
            None => None,
        };
        ParallelWorktreeRequest::Isolated { base_ref }
    } else {
        ParallelWorktreeRequest::SharedWorkspace
    }
}

/// The sentence that turns away a worker that could write the shared
/// workspace without declaring the files it owns.
pub open spec fn requires_isolation_message(agent_id: Seq<char>, preview: Seq<char>) -> Seq<char> {
    "agent '"@ + agent_id + "' can use write/execute tools in the shared workspace ("@ + preview
        + "); set isolation=\"worktree\" for edit-capable parallel workers, use a read-only agent, or provide disjoint files: ownership for serial fallback"@
}

/// What a task claims on the shared workspace: nothing (`Ok(None)`), the
/// declared paths, or a rejection sentence.
pub open spec fn write_claim(
    isolation: Option<Seq<char>>,
    definition: crate::agents::AgentDefinitionView,
    tools: Seq<crate::agents::ToolEntry>,
    ownership_paths: Result<Seq<Seq<char>>, Seq<char>>,
) -> Result<Option<Seq<Seq<char>>>, Seq<char>> {
    let caps = write_entries(visible_tools(definition, tools));
    if requests_worktree(isolation) {
        Ok(None)
    } else if definition.sandbox_mode == SandboxMode::ReadOnly {
        Ok(None)
    } else if caps.len() == 0 {
        Ok(None)
    } else {
        match ownership_paths {
            Err(e) => Err(e),
            Ok(paths) => if paths.len() == 0 {
                Err(
                    requires_isolation_message(
                        definition.id,
                        write_preview(crate::tools::sorted_distinct(caps)),
                    ),
                )
            } else {
                Ok(Some(paths))
            },
        }
    }
}

pub open spec fn paths_view(r: Result<Vec<String>, String>) -> Result<Seq<Seq<char>>, Seq<char>> {
    match r {
        Ok(p) => Ok(strs(p@)),
        Err(e) => Err(e@),
    }
}

pub open spec fn claim_view(r: Result<Option<Vec<String>>, String>) -> Result<
    Option<Seq<Seq<char>>>,
    Seq<char>,
> {
    match r {
        Ok(Some(p)) => Ok(Some(strs(p@))),
        Ok(None) => Ok(None),
        Err(e) => Err(e@),
    }
}

/// Whether `task`, run by `definition`, needs a claim on the shared
/// workspace, given what its ownership boundary parsed to.
///
/// A worker in its own worktree, a read-only agent, and an agent with no
/// tool above read-only claim nothing. Any other worker claims the paths of
/// its ownership boundary, and is turned away when it declares none.
pub fn shared_workspace_write_claim(
    task: &ParallelAgentTask,
    definition: &AgentDefinition,
    parent: &ParentExecutionContext,
    ownership_paths: Result<Vec<String>, String>,
) -> (r: Result<Option<Vec<String>>, String>)
    ensures
        claim_view(r) == write_claim(
            opt_str(task.isolation),
            definition@,
            parent.all_tools@,
            paths_view(ownership_paths),
        ),
{
    if requests_worktree_exec(&task.isolation) {
        return Ok(None);
    }
    if matches!(definition.sandbox_mode, SandboxMode::ReadOnly) {
        return Ok(None);
    }
    let write_capable_tools = shared_workspace_write_capable_tools(definition, parent);
    if write_capable_tools.len() == 0 {
        return Ok(None);
    }
    match ownership_paths {
        Err(e) => Err(e),
        Ok(paths) => {
            if paths.len() == 0 {
                let mut m = owned("agent '");
                append_str(&mut m, definition.id.as_str());
                append_str(&mut m, "' can use write/execute tools in the shared workspace (");
                let preview = shared_workspace_write_preview(&write_capable_tools);
                append_str(&mut m, preview.as_str());
                append_str(
                    &mut m,
                    "); set isolation=\"worktree\" for edit-capable parallel workers, use a read-only agent, or provide disjoint files: ownership for serial fallback",
                );
                Err(m)
            } else {
                Ok(Some(paths))
            }
        },
    }
}

/// Where a spawned worker sits in the session tree.
pub struct ParallelAgentLineage {
    pub parent_session: String,
    pub root_session: String,
    pub child_task_id: String,
}

/// The root session: the first `__`-separated piece of the parent prefix
/// when that piece is non-empty, and the parent session otherwise.
pub open spec fn root_session(parent_session: Seq<char>, prefix: Option<Seq<char>>) -> Seq<char> {
    match prefix {
        Some(p) => if first_segment(p).len() > 0 {
            first_segment(p)
        } else {
            parent_session
        },
        None => parent_session,
    }
}

/// The lineage of the worker `task_id` spawned from `parent_session`.
pub fn spawn_parallel_lineage(
    parent_session: &str,
    session_parent_prefix: Option<&str>,
    task_id: &str,
) -> (r: ParallelAgentLineage)
    ensures
        r.parent_session@ == parent_session@,
        r.root_session@ == root_session(parent_session@, opt_ref(session_parent_prefix)),
        r.child_task_id@ == task_id@,
{
    let root = match session_parent_prefix {
        Some(p) => {
            let v = chars_of(p);
            let e = first_segment_end(&v);
            if e > 0 {
                string_of(&v, 0, e)
            } else {
                owned(parent_session)
            }
        },
        None => owned(parent_session),
    };
    ParallelAgentLineage {
        parent_session: owned(parent_session),
        root_session: root,
        child_task_id: owned(task_id),
    }
}

/// The prompt a worker receives: the task's prompt, framed by the ownership
/// boundary when the task declares a non-blank one.
pub open spec fn bounded_prompt(prompt: Seq<char>, ownership: Option<Seq<char>>) -> Seq<char> {
    match ownership {
        Some(o) => if trim(o).len() > 0 {
            "[Ownership Boundary]\n"@ + trim(o) + "\n\n[Task]\n"@ + prompt
                + "\n\nDo not work outside the ownership boundary unless the parent explicitly asks you to."@
        } else {
            prompt
        },
        None => prompt,
    }
}

/// Frame `prompt` with the task's ownership boundary.
pub fn with_ownership_boundary(prompt: &str, ownership: Option<&str>) -> (r: String)
    ensures
        r@ == bounded_prompt(prompt@, opt_ref(ownership)),
{
    match ownership {
        Some(o) => {
            let boundary = trimmed(o);
            if !boundary.as_str().is_empty() {
                let mut r = owned("[Ownership Boundary]\n");
                append_str(&mut r, boundary.as_str());
                append_str(&mut r, "\n\n[Task]\n");
                append_str(&mut r, prompt);
                append_str(
                    &mut r,
                    "\n\nDo not work outside the ownership boundary unless the parent explicitly asks you to.",
                );
                r
            } else {
                owned(prompt)
            }
        },
        None => owned(prompt),
    }
}


/// The root session is never blank when the parent session is not, and
/// when it comes from the parent prefix it is how that prefix begins.
pub proof fn law_root_session(parent_session: Seq<char>, prefix: Option<Seq<char>>)
    ensures
        parent_session.len() > 0 ==> root_session(parent_session, prefix).len() > 0,
        prefix matches Some(p) ==> (first_segment(p).len() > 0 ==> root_session(
            parent_session,
            prefix,
        ).is_prefix_of(p)),
        prefix matches Some(p) ==> ((p.len() > 0 && forall|k: int|
            0 <= k && k + 1 < p.len() ==> !(p[k] == '_' && #[trigger] p[k + 1] == '_'))
            ==> root_session(parent_session, prefix) == p),
        prefix matches Some(p) ==> (forall|k: int|
            0 < k && k + 1 < p.len() && p[k] == '_' && p[k + 1] == '_' && (forall|j: int|
                0 <= j < k ==> !(p[j] == '_' && #[trigger] p[j + 1] == '_')) ==> root_session(
                parent_session,
                prefix,
            ) == #[trigger] p.take(k)),
{
    if let Some(p) = prefix {
        lemma_first_segment_is_prefix(p);
        crate::text::law_first_segment(p);
        let f = first_segment(p);
        assert forall|k: int|
            0 < k && k + 1 < p.len() && p[k] == '_' && p[k + 1] == '_' && (forall|j: int|
                0 <= j < k ==> !(p[j] == '_' && #[trigger] p[j + 1] == '_')) implies root_session(
                parent_session,
                prefix,
            ) == #[trigger] p.take(k) by {
            if f.len() > k {
                assert(!(p[k] == '_' && p[k + 1] == '_'));
            }
            if f.len() < k {
                assert(!(p[f.len() as int] == '_' && p[f.len() + 1int] == '_'));
            }
            assert(f =~= p.take(k));
        }
    }
}

proof fn lemma_first_segment_is_prefix(s: Seq<char>)
    ensures
        first_segment(s).is_prefix_of(s),
    decreases s.len(),
{
    if s.len() >= 2 && !(s[0] == '_' && s[1] == '_') {
        let t = s.drop_first();
        lemma_first_segment_is_prefix(t);
        let f = first_segment(t);
        assert forall|k: int| 0 <= k < f.len() + 1 implies (seq![s[0]] + f)[k] == s[k] by {
            if k > 0 {
                assert(f[k - 1] == t[k - 1]);
            }
        }
    }
}

/// A blank or missing ownership boundary leaves the prompt as it is; a
/// non-blank one keeps the prompt whole after the `[Task]` heading.
pub proof fn law_ownership_boundary_keeps_prompt(prompt: Seq<char>, ownership: Option<Seq<char>>)
    ensures
        (ownership is None || trim(ownership->0).len() == 0) ==> bounded_prompt(prompt, ownership)
            == prompt,
        ownership matches Some(o) ==> (trim(o).len() > 0 ==> bounded_prompt(prompt, ownership).subrange(
            ("[Ownership Boundary]\n"@ + trim(o) + "\n\n[Task]\n"@).len() as int,
            ("[Ownership Boundary]\n"@ + trim(o) + "\n\n[Task]\n"@ + prompt).len() as int,
        ) == prompt),
{
    if let Some(o) = ownership {
        if trim(o).len() > 0 {
            let head = "[Ownership Boundary]\n"@ + trim(o) + "\n\n[Task]\n"@;
            let tail = "\n\nDo not work outside the ownership boundary unless the parent explicitly asks you to."@;
            assert((head + prompt + tail).subrange(head.len() as int, (head + prompt).len() as int)
                =~= prompt);
        }
    }
}


/// Only three things spare a task from claiming the shared workspace: a
/// worktree request, a read-only sandbox, or no visible tool above
/// read-only. A sandboxed or unsandboxed agent that can write the shared
/// workspace and declares no paths is turned away with the
/// requires-isolation sentence.
pub proof fn law_write_claim_cases(
    isolation: Option<Seq<char>>,
    definition: crate::agents::AgentDefinitionView,
    tools: Seq<crate::agents::ToolEntry>,
    ownership_paths: Result<Seq<Seq<char>>, Seq<char>>,
)
    ensures
        write_claim(isolation, definition, tools, ownership_paths) is Ok
            && write_claim(isolation, definition, tools, ownership_paths)->Ok_0 is None ==> (
        requests_worktree(isolation) || definition.sandbox_mode == SandboxMode::ReadOnly || !(
        exists|i: int|
            0 <= i < tools.len() && crate::tools::tool_visible(definition, #[trigger] tools[i])
                && tools[i].permission_level.spec_above_read_only())),
        (!requests_worktree(isolation) && (definition.sandbox_mode == SandboxMode::Off
            || definition.sandbox_mode == SandboxMode::Sandboxed) && (exists|i: int|
            0 <= i < tools.len() && crate::tools::tool_visible(definition, #[trigger] tools[i])
                && tools[i].permission_level.spec_above_read_only()) && ownership_paths
            == Ok::<Seq<Seq<char>>, Seq<char>>(Seq::empty())) ==> write_claim(
            isolation,
            definition,
            tools,
            ownership_paths,
        ) is Err,
{
    crate::tools::lemma_write_entries_nonempty(definition, tools);
}

} // verus!
