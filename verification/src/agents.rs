//! The agent model that the parallel-spawn policy reads: agent definitions,
//! the tools a parent run exposes, and the tasks a parent hands out.
use vstd::prelude::*;
use crate::text::{append_str, owned};

verus! {

/// The views of a list of strings.
pub open spec fn strs(v: Seq<String>) -> Seq<Seq<char>> {
    v.map_values(|s: String| s@)
}

/// The view of an optional string.
pub open spec fn opt_str(o: Option<String>) -> Option<Seq<char>> {
    match o {
        Some(s) => Some(s@),
        None => None,
    }
}

/// A copy of a list of strings.
pub fn copy_strings(v: &Vec<String>) -> (r: Vec<String>)
    ensures
        strs(r@) == strs(v@),
{
    let mut r: Vec<String> = Vec::new();
    let mut i: usize = 0;
    while i < v.len()
        invariant
            i <= v.len(),
            r@.len() == i,
            forall|k: int| 0 <= k < i ==> (#[trigger] r@[k])@ == v@[k]@,
        decreases v.len() - i,
    {
        r.push(v[i].clone());
        i += 1;
    }
    assert(strs(r@) =~= strs(v@));
    r
}

/// A copy of an optional string.
pub fn copy_opt(o: &Option<String>) -> (r: Option<String>)
    ensures
        opt_str(r) == opt_str(*o),
{
    match o {
        Some(s) => Some(s.clone()),
        None => None,
    }
}

/// How much a tool may change, from least to most.
#[derive(Clone, Copy, Debug, PartialEq, Eq, Structural)]
pub enum PermissionLevel {
    ReadOnly,
    Write,
    Execute,
    Dangerous,
}

impl PermissionLevel {
    /// The level is above `ReadOnly`.
    pub open spec fn spec_above_read_only(self) -> bool {
        match self {
            PermissionLevel::Write | PermissionLevel::Execute | PermissionLevel::Dangerous => true,
            _ => false,
        }
    }

    #[verifier::when_used_as_spec(spec_above_read_only)]
    pub fn above_read_only(self) -> (b: bool)
        ensures
            b == self.spec_above_read_only(),
    {
        match self {
            PermissionLevel::Write | PermissionLevel::Execute | PermissionLevel::Dangerous => true,
            _ => false,
        }
    }

    /// How the level is written in messages.
    pub open spec fn label(self) -> Seq<char> {
        match self {
            PermissionLevel::ReadOnly => "readonly"@,
            PermissionLevel::Write => "write"@,
            PermissionLevel::Execute => "execute"@,
            PermissionLevel::Dangerous => "dangerous"@,
        }
    }

    /// Append the level's label to `s`.
    pub fn push_label(self, s: &mut String)
        ensures
            final(s)@ == old(s)@ + self.label(),
    {
        match self {
            PermissionLevel::ReadOnly => append_str(s, "readonly"),
            PermissionLevel::Write => append_str(s, "write"),
            PermissionLevel::Execute => append_str(s, "execute"),
            PermissionLevel::Dangerous => append_str(s, "dangerous"),
        }
    }
}

/// One tool of the parent's catalog, as the policy sees it.
pub struct ToolEntry {
    pub name: String,
    pub permission_level: PermissionLevel,
    /// A recovery tool: one that a named tool scope admits whenever the
    /// scope names any tool at all.
    pub recovery: bool,
}

/// Which tools an agent definition asks for.
pub enum ToolScope {
    Wildcard,
    Named(Vec<String>),
}

pub enum ToolScopeView {
    Wildcard,
    Named(Seq<Seq<char>>),
}

impl View for ToolScope {
    type V = ToolScopeView;

    open spec fn view(&self) -> ToolScopeView {
        match self {
            ToolScope::Wildcard => ToolScopeView::Wildcard,
            ToolScope::Named(names) => ToolScopeView::Named(strs(names@)),
        }
    }
}

/// How an agent runs its tools; `Off` is no sandbox at all.
#[derive(Clone, Copy, Debug, PartialEq, Eq, Structural)]
pub enum SandboxMode {
    Off,
    ReadOnly,
    Sandboxed,
}

/// An agent archetype that a parent may spawn.
pub struct AgentDefinition {
    pub id: String,
    pub display_name: String,
    /// When set, only tools named `{skill}__…` are visible to the agent.
    pub skill_filter: Option<String>,
    /// Tool names, or `prefix*` patterns, the agent may never see.
    pub disallowed_tools: Vec<String>,
    pub tools: ToolScope,
    pub extra_tools: Vec<String>,
    pub sandbox_mode: SandboxMode,
}

pub struct AgentDefinitionView {
    pub id: Seq<char>,
    pub display_name: Seq<char>,
    pub skill_filter: Option<Seq<char>>,
    pub disallowed_tools: Seq<Seq<char>>,
    pub tools: ToolScopeView,
    pub extra_tools: Seq<Seq<char>>,
    pub sandbox_mode: SandboxMode,
}

impl View for AgentDefinition {
    type V = AgentDefinitionView;

    open spec fn view(&self) -> AgentDefinitionView {
        AgentDefinitionView {
            id: self.id@,
            display_name: self.display_name@,
            skill_filter: opt_str(self.skill_filter),
            disallowed_tools: strs(self.disallowed_tools@),
            tools: self.tools@,
            extra_tools: strs(self.extra_tools@),
            sandbox_mode: self.sandbox_mode,
        }
    }
}

impl ToolScope {
    pub fn duplicate(&self) -> (r: Self)
        ensures
            r@ == self@,
    {
        match self {
            ToolScope::Wildcard => ToolScope::Wildcard,
            ToolScope::Named(names) => ToolScope::Named(copy_strings(names)),
        }
    }
}

impl AgentDefinition {
    /// A copy of the definition.
    pub fn duplicate(&self) -> (r: Self)
        ensures
            r@ == self@,
    {
        AgentDefinition {
            id: self.id.clone(),
            display_name: self.display_name.clone(),
            skill_filter: copy_opt(&self.skill_filter),
            disallowed_tools: copy_strings(&self.disallowed_tools),
            tools: self.tools.duplicate(),
            extra_tools: copy_strings(&self.extra_tools),
            sandbox_mode: self.sandbox_mode,
        }
    }

    /// The name shown for the agent.
    pub fn display_name(&self) -> (r: &str)
        ensures
            r@ == self.display_name@,
    {
        self.display_name.as_str()
    }
}

/// The parent run that hands out parallel tasks.
pub struct ParentExecutionContext {
    pub agent_definition_id: String,
    pub all_tools: Vec<ToolEntry>,
    /// The agents this parent may spawn (its subagent allowlist).
    pub allowed_subagent_ids: Vec<String>,
    pub session_parent_prefix: Option<String>,
}

/// One task of a parallel-spawn request.
pub struct ParallelAgentTask {
    pub agent_id: String,
    pub prompt: String,
    pub toolkit: Option<String>,
    /// The task's ownership boundary, such as `files: a.rs, b.rs`.
    pub ownership: Option<String>,
    /// `worktree` asks for an isolated worktree.
    pub isolation: Option<String>,
    pub base_ref: Option<String>,
}

/// The value stored under `id` by a map built from `defs` in order, where a
/// later definition replaces an earlier one with the same id.
pub open spec fn registry_map(defs: Seq<AgentDefinitionView>) -> Map<Seq<char>, AgentDefinitionView>
    decreases defs.len(),
{
    if defs.len() == 0 {
        Map::empty()
    } else {
        registry_map(defs.drop_last()).insert(defs.last().id, defs.last())
    }
}

pub open spec fn def_views(defs: Seq<AgentDefinition>) -> Seq<AgentDefinitionView> {
    defs.map_values(|d: AgentDefinition| d@)
}

/// The agent definitions known when a request is planned, keyed by id.
pub struct DefinitionSnapshot {
    definitions: Vec<AgentDefinition>,
}

impl View for DefinitionSnapshot {
    type V = Map<Seq<char>, AgentDefinitionView>;

    closed spec fn view(&self) -> Map<Seq<char>, AgentDefinitionView> {
        registry_map(def_views(self.definitions@))
    }
}

proof fn lemma_registry_map_skip(defs: Seq<AgentDefinitionView>, i: int, id: Seq<char>)
    requires
        0 <= i <= defs.len(),
        forall|k: int| i <= k < defs.len() ==> (#[trigger] defs[k]).id != id,
    ensures
        registry_map(defs).contains_key(id) == registry_map(defs.take(i)).contains_key(id),
        registry_map(defs).contains_key(id) ==> registry_map(defs)[id] == registry_map(
            defs.take(i),
        )[id],
    decreases defs.len() - i,
{
    if i < defs.len() {
        let t = defs.drop_last();
        assert forall|k: int| i <= k < t.len() implies (#[trigger] t[k]).id != id by {
            assert(t[k] == defs[k]);
        }
        assert(defs.last() == defs[defs.len() - 1]);
        lemma_registry_map_skip(t, i, id);
        assert(t.take(i) == defs.take(i));
    } else {
        assert(defs.take(i) == defs);
    }
}

proof fn lemma_registry_map_keys(defs: Seq<AgentDefinitionView>, id: Seq<char>)
    ensures
        registry_map(defs).contains_key(id) ==> registry_map(defs)[id].id == id,
    decreases defs.len(),
{
    if defs.len() > 0 {
        lemma_registry_map_keys(defs.drop_last(), id);
    }
}

impl DefinitionSnapshot {
    /// The definition stored under `id`.
    pub fn get(&self, id: &str) -> (r: Option<&AgentDefinition>)
        ensures
            match r {
                Some(d) => self@.contains_key(id@) && d@ == self@[id@],
                None => !self@.contains_key(id@),
            },
            self@.contains_key(id@) ==> self@[id@].id == id@,
    {
        let ghost dv = def_views(self.definitions@);
        proof {
            lemma_registry_map_keys(dv, id@);
        }
        let mut i: usize = self.definitions.len();
        while i > 0
            invariant
                i <= self.definitions.len(),
                dv == def_views(self.definitions@),
                forall|k: int| i <= k < dv.len() ==> (#[trigger] dv[k]).id != id@,
            decreases i,
        {
            if crate::text::str_eq(self.definitions[i - 1].id.as_str(), id) {
                proof {
                    lemma_registry_map_skip(dv, i as int, id@);
                    let t = dv.take(i as int);
                    assert(t.last() == dv[i - 1]);
                    assert(t.drop_last() == dv.take(i - 1));
                }
                return Some(&self.definitions[i - 1]);
            }
            i -= 1;
        }
        proof {
            lemma_registry_map_skip(dv, 0, id@);
            assert(dv.take(0) == Seq::<AgentDefinitionView>::empty());
        }
        None
    }
}

/// A snapshot of the registry's definitions keyed by id; where two share an
/// id, the later one is kept.
pub fn snapshot_agent_definitions(registry: &Vec<AgentDefinition>) -> (r: DefinitionSnapshot)
    ensures
        r@ == registry_map(def_views(registry@)),
{
    let mut definitions: Vec<AgentDefinition> = Vec::new();
    let mut i: usize = 0;
    while i < registry.len()
        invariant
            i <= registry.len(),
            definitions@.len() == i,
            forall|k: int| 0 <= k < i ==> (#[trigger] definitions@[k])@ == registry@[k]@,
        decreases registry.len() - i,
    {
        definitions.push(registry[i].duplicate());
        i += 1;
    }
    let r = DefinitionSnapshot { definitions };
    assert(def_views(r.definitions@) =~= def_views(registry@));
    r
}

} // verus!
