use openhuman::agents::{AgentDefinition, ParallelAgentTask, ParentExecutionContext, SandboxMode, ToolScope};
use openhuman::preflight::{ParallelTaskRejection, ParallelTaskRejectionKind, PreparedParallelTask, WorkerDispatchMode};
use openhuman::workers::{
    rejection_result, spawned_progress, stage_worker, worktree_failed_result, worktree_step,
    worktree_unavailable_result, WorkspaceDescriptor, WorktreeSandbox, WorktreeStep,
};

fn s(x: &str) -> String {
    x.to_string()
}

fn definition(sandbox: SandboxMode) -> AgentDefinition {
    AgentDefinition {
        id: s("coder"),
        display_name: s("Coder"),
        skill_filter: None,
        disallowed_tools: vec![],
        tools: ToolScope::Wildcard,
        extra_tools: vec![],
        sandbox_mode: sandbox,
    }
}

fn parent() -> ParentExecutionContext {
    ParentExecutionContext {
        agent_definition_id: s("orchestrator"),
        all_tools: vec![],
        allowed_subagent_ids: vec![s("coder")],
        session_parent_prefix: Some(s("root__mid")),
    }
}

fn task(isolation: Option<&str>) -> ParallelAgentTask {
    ParallelAgentTask {
        agent_id: s("coder"),
        prompt: s("edit"),
        toolkit: None,
        ownership: Some(s("files: a.rs")),
        isolation: isolation.map(s),
        base_ref: Some(s("main")),
    }
}

#[test]
fn rejected_task_reports_failure_in_its_lineage() {
    let rej = ParallelTaskRejection {
        task_id: s("sub-1"),
        agent_id: s("coder"),
        error: s("nope"),
        ownership: Some(s("files: x")),
        kind: ParallelTaskRejectionKind::UnknownAgent,
    };
    let r = rejection_result("sess", &parent(), rej);
    assert_eq!(r.task_id, "sub-1");
    assert_eq!(r.agent_id, "coder");
    assert!(!r.success);
    assert_eq!(r.error, Some(s("nope")));
    assert_eq!(r.ownership, Some(s("files: x")));
    assert_eq!(r.lineage.root_session, "root");
    assert_eq!(r.lineage.parent_session, "sess");
    assert_eq!(r.elapsed_ms, 0);
    assert!(r.output.is_none() && r.worktree_path.is_none() && r.changed_files.is_empty());
}

#[test]
fn worktree_steps() {
    let def = definition(SandboxMode::Sandboxed);
    assert!(matches!(worktree_step(&task(None), &def, Some("/repo")), WorktreeStep::Shared));
    assert!(matches!(worktree_step(&task(Some("worktree")), &def, None), WorktreeStep::Unavailable));
    match worktree_step(&task(Some("worktree")), &def, Some("/repo")) {
        WorktreeStep::Prepare { repo_root, base_ref, sandbox } => {
            assert_eq!(repo_root, "/repo");
            assert_eq!(base_ref, Some(s("main")));
            assert_eq!(sandbox, WorktreeSandbox::Required);
        }
        _ => panic!("expected a prepare step"),
    }
    match worktree_step(&task(Some("worktree")), &definition(SandboxMode::ReadOnly), Some("/r")) {
        WorktreeStep::Prepare { sandbox, .. } => assert_eq!(sandbox, WorktreeSandbox::Inherit),
        _ => panic!("expected a prepare step"),
    }
}

#[test]
fn worktree_failures() {
    let def = definition(SandboxMode::Off);
    let t = task(Some("worktree"));
    let r = worktree_unavailable_result("sess", &parent(), "sub-2", &def, &t);
    assert_eq!(r.error, Some(s("worktree isolation requested but action_dir is unavailable")));
    assert_eq!(r.ownership, Some(s("files: a.rs")));
    let r = worktree_failed_result("sess", &parent(), "sub-2", &def, &t, "disk full");
    assert_eq!(r.error, Some(s("worktree isolation failed: disk full")));
    assert_eq!(r.lineage.child_task_id, "sub-2");
}

#[test]
fn spawned_progress_counts_characters() {
    let p = spawned_progress(&definition(SandboxMode::Off), "sub-3", "héllo");
    assert_eq!(p.prompt_chars, 5);
    assert_eq!(p.mode, "typed");
    assert!(!p.dedicated_thread);
    assert_eq!(p.display_name, Some(s("Coder")));
    assert_eq!(p.prompt, "héllo");
}

#[test]
fn staged_worker_prefers_its_own_worktree() {
    let prepared = || PreparedParallelTask {
        definition: definition(SandboxMode::Off),
        prompt: s("edit"),
        task: task(None),
        task_id: s("sub-4"),
        dispatch_mode: WorkerDispatchMode::SerialSharedWorkspaceWrite,
    };
    let parent_ws = WorkspaceDescriptor { root: s("/parent"), policy_id: s("p") };
    let own = WorkspaceDescriptor { root: s("/wt/sub-4"), policy_id: s("w") };
    let w = stage_worker("sess", &parent(), prepared(), Some(own), Some(&parent_ws));
    assert_eq!(w.worktree_path, Some(s("/wt/sub-4")));
    assert_eq!(w.workspace_descriptor.as_ref().map(|d| d.root.as_str()), Some("/wt/sub-4"));
    assert_eq!(w.dispatch_mode, WorkerDispatchMode::SerialSharedWorkspaceWrite);
    let w = stage_worker("sess", &parent(), prepared(), None, Some(&parent_ws));
    assert_eq!(w.worktree_path, None);
    assert_eq!(w.workspace_descriptor.as_ref().map(|d| d.root.as_str()), Some("/parent"));
    assert_eq!(w.lineage.root_session, "root");
    let w = stage_worker("sess", &parent(), prepared(), None, None);
    assert!(w.workspace_descriptor.is_none());
}
