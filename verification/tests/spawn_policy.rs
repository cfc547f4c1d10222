use openhuman::agents::{
    snapshot_agent_definitions, AgentDefinition, ParallelAgentTask, ParentExecutionContext,
    PermissionLevel, SandboxMode, ToolEntry, ToolScope,
};
use openhuman::ids::new_task_id;
use openhuman::preflight::{
    admit_parallel_task, admit_parallel_tasks, admitted_claims_of, finalize_preflights,
    shared_workspace_conflict_message, Admission, ClaimConflict, ClaimKind, DispatchMode,
    DispatchPlan, ParallelTaskRejectionKind, SpawnParallelTaskPreflight, WorkerDispatchMode,
};
use openhuman::staging::{
    ownership_file_list_text, ownership_path_error, shared_workspace_write_claim,
    shared_workspace_write_preview, spawn_parallel_lineage, with_ownership_boundary,
    worktree_request_for_task, ParallelWorktreeRequest,
};
use openhuman::tools::{
    definition_visible_tool_permissions, disallowed_tool_matches,
    shared_workspace_write_capable_tools,
};

fn s(x: &str) -> String {
    x.to_string()
}

fn tool(name: &str, level: PermissionLevel) -> ToolEntry {
    ToolEntry { name: s(name), permission_level: level, recovery: false }
}

fn definition(id: &str, sandbox: SandboxMode) -> AgentDefinition {
    AgentDefinition {
        id: s(id),
        display_name: format!("{id} agent"),
        skill_filter: None,
        disallowed_tools: vec![],
        tools: ToolScope::Wildcard,
        extra_tools: vec![],
        sandbox_mode: sandbox,
    }
}

fn parent(tools: Vec<ToolEntry>, allowed: &[&str]) -> ParentExecutionContext {
    ParentExecutionContext {
        agent_definition_id: s("orchestrator"),
        all_tools: tools,
        allowed_subagent_ids: allowed.iter().map(|a| s(a)).collect(),
        session_parent_prefix: None,
    }
}

fn task(agent: &str, prompt: &str) -> ParallelAgentTask {
    ParallelAgentTask {
        agent_id: s(agent),
        prompt: s(prompt),
        toolkit: None,
        ownership: None,
        isolation: None,
        base_ref: None,
    }
}

fn writer_parent() -> ParentExecutionContext {
    parent(
        vec![tool("read_file", PermissionLevel::ReadOnly), tool("write_file", PermissionLevel::Write)],
        &["coder", "reader", "integrations_agent"],
    )
}

fn registry() -> Vec<AgentDefinition> {
    vec![
        definition("coder", SandboxMode::Off),
        definition("reader", SandboxMode::ReadOnly),
        definition("integrations_agent", SandboxMode::Off),
        definition("stranger", SandboxMode::Off),
    ]
}

fn rejected(a: &Admission) -> (&str, &str, &str, ParallelTaskRejectionKind) {
    match a {
        Admission::Rejected(r) => (r.task_id.as_str(), r.agent_id.as_str(), r.error.as_str(), r.kind),
        Admission::Admitted(_) => panic!("expected a rejection"),
    }
}

#[test]
fn disallowed_entries_match_exactly_or_by_prefix() {
    let d = vec![s("shell"), s("browser_*")];
    assert!(disallowed_tool_matches(&d, "shell"));
    assert!(!disallowed_tool_matches(&d, "shell2"));
    assert!(disallowed_tool_matches(&d, "browser_open"));
    assert!(disallowed_tool_matches(&d, "browser_"));
    assert!(!disallowed_tool_matches(&d, "browse"));
    assert!(disallowed_tool_matches(&[s("*")].to_vec(), "anything"));
}

#[test]
fn visible_tools_follow_scope_skill_and_disallow() {
    let mut def = definition("coder", SandboxMode::Off);
    def.skill_filter = Some(s("git"));
    def.disallowed_tools = vec![s("git__push")];
    def.tools = ToolScope::Named(vec![s("git__status")]);
    def.extra_tools = vec![s("git__commit")];
    let mut recovery = tool("git__recover", PermissionLevel::ReadOnly);
    recovery.recovery = true;
    let p = parent(
        vec![
            tool("git__status", PermissionLevel::ReadOnly),
            tool("git__push", PermissionLevel::Execute),
            tool("git__commit", PermissionLevel::Write),
            tool("shell", PermissionLevel::Execute),
            recovery,
            tool("git__log", PermissionLevel::ReadOnly),
        ],
        &[],
    );
    let vis = definition_visible_tool_permissions(&def, &p);
    let names: Vec<&str> = vis.iter().map(|(n, _)| n.as_str()).collect();
    assert_eq!(names, vec!["git__status", "git__commit", "git__recover"]);
    assert_eq!(vis[1].1, PermissionLevel::Write);
}

#[test]
fn recovery_tool_needs_a_non_empty_named_scope() {
    let mut def = definition("coder", SandboxMode::Off);
    def.tools = ToolScope::Named(vec![]);
    let mut recovery = tool("recover", PermissionLevel::ReadOnly);
    recovery.recovery = true;
    let p = parent(vec![recovery], &[]);
    assert!(definition_visible_tool_permissions(&def, &p).is_empty());
}

#[test]
fn write_capable_tools_are_sorted_and_distinct() {
    let def = definition("coder", SandboxMode::Off);
    let p = parent(
        vec![
            tool("zeta", PermissionLevel::Execute),
            tool("alpha", PermissionLevel::Write),
            tool("read", PermissionLevel::ReadOnly),
            tool("alpha", PermissionLevel::Write),
            tool("mid", PermissionLevel::Dangerous),
        ],
        &[],
    );
    let caps = shared_workspace_write_capable_tools(&def, &p);
    assert_eq!(caps, vec![s("alpha:write"), s("mid:dangerous"), s("zeta:execute")]);
}

#[test]
fn preview_names_six_then_counts_the_rest() {
    let few: Vec<String> = (1..=3).map(|i| format!("t{i}:write")).collect();
    assert_eq!(shared_workspace_write_preview(&few), "t1:write, t2:write, t3:write");
    let many: Vec<String> = (1..=9).map(|i| format!("t{i}")).collect();
    assert_eq!(shared_workspace_write_preview(&many), "t1, t2, t3, t4, t5, t6, +3 more");
    let six: Vec<String> = (1..=6).map(|i| format!("t{i}")).collect();
    assert_eq!(shared_workspace_write_preview(&six), "t1, t2, t3, t4, t5, t6");
    assert_eq!(shared_workspace_write_preview(&vec![]), "");
}

#[test]
fn ownership_list_follows_files_prefix() {
    assert_eq!(ownership_file_list_text(Some("  files: a.rs, b.rs ")), Some(s(" a.rs, b.rs")));
    assert_eq!(ownership_file_list_text(Some("files:")), Some(s("")));
    assert_eq!(ownership_file_list_text(Some("the parser module")), None);
    assert_eq!(ownership_file_list_text(Some("   ")), None);
    assert_eq!(ownership_file_list_text(None), None);
    assert_eq!(
        ownership_path_error("/etc/passwd"),
        "ownership path '/etc/passwd' must be a relative file path under the workspace"
    );
}

#[test]
fn worktree_request_is_case_and_space_insensitive() {
    let mut t = task("coder", "p");
    t.isolation = Some(s("  WorkTree "));
    t.base_ref = Some(s("main"));
    match worktree_request_for_task(&t) {
        ParallelWorktreeRequest::Isolated { base_ref } => assert_eq!(base_ref, Some(s("main"))),
        ParallelWorktreeRequest::SharedWorkspace => panic!("expected isolation"),
    }
    t.isolation = Some(s("shared"));
    assert!(matches!(worktree_request_for_task(&t), ParallelWorktreeRequest::SharedWorkspace));
}

#[test]
fn write_claim_outcomes() {
    let p = writer_parent();
    let coder = definition("coder", SandboxMode::Off);
    let reader = definition("reader", SandboxMode::ReadOnly);
    let t = task("coder", "edit");
    let claim = shared_workspace_write_claim(&t, &coder, &p, Ok(vec![s("src/a.rs")]));
    assert_eq!(claim, Ok(Some(vec![s("src/a.rs")])));
    assert_eq!(shared_workspace_write_claim(&t, &reader, &p, Ok(vec![])), Ok(None));
    let err = shared_workspace_write_claim(&t, &coder, &p, Ok(vec![])).unwrap_err();
    assert_eq!(
        err,
        "agent 'coder' can use write/execute tools in the shared workspace (write_file:write); \
         set isolation=\"worktree\" for edit-capable parallel workers, use a read-only agent, \
         or provide disjoint files: ownership for serial fallback"
    );
    assert_eq!(
        shared_workspace_write_claim(&t, &coder, &p, Err(s("bad path"))),
        Err(s("bad path"))
    );
    let mut iso = task("coder", "edit");
    iso.isolation = Some(s("worktree"));
    assert_eq!(shared_workspace_write_claim(&iso, &coder, &p, Ok(vec![])), Ok(None));
    let ro = parent(vec![tool("read_file", PermissionLevel::ReadOnly)], &["coder"]);
    assert_eq!(shared_workspace_write_claim(&t, &coder, &ro, Ok(vec![])), Ok(None));
}

#[test]
fn lineage_roots_at_first_prefix_segment() {
    let l = spawn_parallel_lineage("parent-1", Some("root-a__child__x"), "sub-1");
    assert_eq!(l.parent_session, "parent-1");
    assert_eq!(l.root_session, "root-a");
    assert_eq!(l.child_task_id, "sub-1");
    assert_eq!(spawn_parallel_lineage("p", Some("__x"), "t").root_session, "p");
    assert_eq!(spawn_parallel_lineage("p", None, "t").root_session, "p");
    assert_eq!(spawn_parallel_lineage("p", Some("solo"), "t").root_session, "solo");
}

#[test]
fn ownership_boundary_frames_the_prompt() {
    assert_eq!(with_ownership_boundary("do it", None), "do it");
    assert_eq!(with_ownership_boundary("do it", Some("  ")), "do it");
    assert_eq!(
        with_ownership_boundary("do it", Some(" files: a.rs ")),
        "[Ownership Boundary]\nfiles: a.rs\n\n[Task]\ndo it\n\nDo not work outside the ownership boundary unless the parent explicitly asks you to."
    );
}

#[test]
fn snapshot_keeps_the_last_definition_per_id() {
    let mut reg = registry();
    let mut later = definition("coder", SandboxMode::Sandboxed);
    later.display_name = s("second coder");
    reg.push(later);
    let snap = snapshot_agent_definitions(&reg);
    let coder = snap.get("coder").expect("coder");
    assert_eq!(coder.display_name, "second coder");
    assert_eq!(coder.sandbox_mode, SandboxMode::Sandboxed);
    assert!(snap.get("nobody").is_none());
}

#[test]
fn task_ids_are_sub_and_a_v4_uuid() {
    let id = new_task_id();
    assert!(id.starts_with("sub-"));
    let u = &id[4..];
    assert_eq!(u.len(), 36);
    assert_eq!(&u[14..15], "4");
    assert_eq!(u.matches('-').count(), 4);
    assert_ne!(new_task_id(), id);
}

#[test]
fn admission_gates_in_order() {
    let snap = snapshot_agent_definitions(&registry());
    let p = writer_parent();
    let a = admit_parallel_task(task("  ", "x"), s("t1"), &snap, &p, Ok(vec![]));
    assert_eq!(rejected(&a), ("t1", "", "agent_id and prompt are required", ParallelTaskRejectionKind::MissingAgentOrPrompt));
    let a = admit_parallel_task(task(" ghost ", "x"), s("t2"), &snap, &p, Ok(vec![]));
    assert_eq!(rejected(&a), ("t2", "ghost", "unknown agent_id 'ghost'", ParallelTaskRejectionKind::UnknownAgent));
    let a = admit_parallel_task(task("stranger", "x"), s("t3"), &snap, &p, Ok(vec![]));
    assert_eq!(
        rejected(&a),
        (
            "t3",
            "stranger",
            "agent 'stranger' is not in parent agent 'orchestrator' subagents.allowlist",
            ParallelTaskRejectionKind::OutsideAllowlist
        )
    );
    let mut t = task("integrations_agent", "x");
    t.toolkit = Some(s("  "));
    let a = admit_parallel_task(t, s("t4"), &snap, &p, Ok(vec![]));
    assert_eq!(
        rejected(&a),
        ("t4", "integrations_agent", "integrations_agent requires toolkit", ParallelTaskRejectionKind::MissingToolkit)
    );
    let mut t = task("coder", "edit");
    t.ownership = Some(s("the parser"));
    let a = admit_parallel_task(t, s("t5"), &snap, &p, Ok(vec![]));
    let (_, agent, _, kind) = rejected(&a);
    assert_eq!((agent, kind), ("coder", ParallelTaskRejectionKind::RequiresIsolation));
    if let Admission::Rejected(r) = &a {
        assert_eq!(r.ownership, Some(s("the parser")));
    }
}

#[test]
fn admitted_tasks_carry_their_claims() {
    let snap = snapshot_agent_definitions(&registry());
    let p = writer_parent();
    let mut t = task(" coder ", "  edit  ");
    t.ownership = Some(s("files: a.rs"));
    match admit_parallel_task(t, s("w1"), &snap, &p, Ok(vec![s("a.rs")])) {
        Admission::Admitted(a) => {
            assert_eq!(a.prompt, "edit");
            assert_eq!(a.definition.id, "coder");
            assert_eq!(a.claim.worker_id, "w1");
            assert!(matches!(&a.claim.kind, ClaimKind::Writing(p) if p == &vec![s("a.rs")]));
        }
        Admission::Rejected(r) => panic!("rejected: {}", r.error),
    }
    let mut iso = task("coder", "edit");
    iso.isolation = Some(s("worktree"));
    match admit_parallel_task(iso, s("w2"), &snap, &p, Ok(vec![])) {
        Admission::Admitted(a) => assert!(matches!(a.claim.kind, ClaimKind::Isolated)),
        Admission::Rejected(r) => panic!("rejected: {}", r.error),
    }
    match admit_parallel_task(task("reader", "look"), s("w3"), &snap, &p, Ok(vec![])) {
        Admission::Admitted(a) => assert!(matches!(a.claim.kind, ClaimKind::ReadOnly)),
        Admission::Rejected(r) => panic!("rejected: {}", r.error),
    }
}

#[test]
fn conflict_messages() {
    let overlap = ClaimConflict::Overlap { other_worker_id: s("sub-9"), path: s("src/a.rs") };
    assert_eq!(
        shared_workspace_conflict_message("coder", &overlap),
        "agent 'coder' requested shared-workspace write access to 'src/a.rs' but it overlaps with serial worker sub-9; set isolation=\"worktree\" or use disjoint files: ownership"
    );
    assert_eq!(
        shared_workspace_conflict_message("coder", &ClaimConflict::UnboundedWrite),
        "agent 'coder' can write the shared workspace without declaring which files it owns; set isolation=\"worktree\" or provide disjoint files: ownership"
    );
}

#[test]
fn arbitration_pass_applies_plan_by_admitted_position() {
    let snap = snapshot_agent_definitions(&registry());
    let p = writer_parent();
    let mut w1 = task("coder", "one");
    w1.ownership = Some(s("files: a.rs"));
    let mut w2 = task("coder", "two");
    w2.ownership = Some(s("files: a.rs"));
    let batch = vec![
        (w1, Ok(vec![s("a.rs")])),
        (task("", "bad"), Ok(vec![])),
        (w2, Ok(vec![s("a.rs")])),
        (task("reader", "three"), Ok(vec![])),
    ];
    let admissions = admit_parallel_tasks(batch, &snap, &p);
    assert_eq!(admissions.len(), 4);
    let claims = admitted_claims_of(&admissions);
    assert_eq!(claims.len(), 3);
    let plan = DispatchPlan {
        modes: vec![Some(DispatchMode::Serial), None, Some(DispatchMode::Parallel)],
        conflicts: vec![(1, ClaimConflict::Overlap { other_worker_id: claims[0].worker_id.clone(), path: s("a.rs") })],
    };
    let out = finalize_preflights(admissions, &plan);
    assert_eq!(out.len(), 4);
    match &out[0] {
        SpawnParallelTaskPreflight::Prepared(t) => {
            assert_eq!(t.dispatch_mode(), WorkerDispatchMode::SerialSharedWorkspaceWrite);
            assert!(t.prompt.starts_with("[Ownership Boundary]\nfiles: a.rs\n\n[Task]\none"));
        }
        _ => panic!("first task should be prepared"),
    }
    match &out[1] {
        SpawnParallelTaskPreflight::Rejected(r) => {
            assert_eq!(r.kind, ParallelTaskRejectionKind::MissingAgentOrPrompt)
        }
        _ => panic!("second task should stay rejected"),
    }
    match &out[2] {
        SpawnParallelTaskPreflight::Rejected(r) => {
            assert_eq!(r.kind, ParallelTaskRejectionKind::RequiresIsolation);
            assert!(r.error.contains("overlaps with serial worker sub-"));
            assert_eq!(r.ownership, Some(s("files: a.rs")));
        }
        _ => panic!("third task should be rejected by the plan"),
    }
    match &out[3] {
        SpawnParallelTaskPreflight::Prepared(t) => {
            assert_eq!(t.dispatch_mode(), WorkerDispatchMode::Parallel);
            assert_eq!(t.prompt, "three");
        }
        _ => panic!("fourth task should be prepared"),
    }
}
