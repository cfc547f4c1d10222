//! Which of the parent's tools an agent definition would see, and which of
//! those can change the shared workspace.
use vstd::prelude::*;
use crate::agents::{
    strs, AgentDefinition, AgentDefinitionView, ParentExecutionContext, PermissionLevel, ToolEntry,
    ToolScope, ToolScopeView,
};
use crate::text::{
    append_str, chars_of, lemma_lex_asymmetric, lemma_lex_irreflexive, lemma_lex_total, lemma_lex_transitive, lex_lt, lex_lt_exec, owned,
    starts_with, str_eq, string_of, strictly_sorted,
};

verus! {

/// A disallow entry `entry` covers the tool `name`: `prefix*` covers every
/// name that starts with `prefix`, any other entry only the name itself.
pub open spec fn entry_matches(entry: Seq<char>, name: Seq<char>) -> bool {
    if entry.len() > 0 && entry.last() == '*' {
        entry.drop_last().is_prefix_of(name)
    } else {
        entry == name
    }
}

/// Some entry of `disallowed` covers `name`.
pub open spec fn is_disallowed(disallowed: Seq<Seq<char>>, name: Seq<char>) -> bool {
    exists|i: int| 0 <= i < disallowed.len() && entry_matches(#[trigger] disallowed[i], name)
}

/// The definition's skill filter, if any, lets `name` through.
pub open spec fn passes_skill_filter(def: AgentDefinitionView, name: Seq<char>) -> bool {
    match def.skill_filter {
        Some(skill) => (skill + "__"@).is_prefix_of(name),
        None => true,
    }
}

/// The definition's tool scope admits `tool`.
pub open spec fn scope_admits(def: AgentDefinitionView, tool: ToolEntry) -> bool {
    match def.tools {
        ToolScopeView::Wildcard => true,
        ToolScopeView::Named(names) => {
            ||| names.contains(tool.name@)
            ||| def.extra_tools.contains(tool.name@)
            ||| (tool.recovery && names.len() > 0)
        },
    }
}

/// The agent defined by `def` sees `tool`.
pub open spec fn tool_visible(def: AgentDefinitionView, tool: ToolEntry) -> bool {
    &&& !is_disallowed(def.disallowed_tools, tool.name@)
    &&& passes_skill_filter(def, tool.name@)
    &&& scope_admits(def, tool)
}

/// The tools of `tools` that `def` sees, in catalog order, with their
/// permission levels.
pub open spec fn visible_tools(def: AgentDefinitionView, tools: Seq<ToolEntry>) -> Seq<
    (Seq<char>, PermissionLevel),
>
    decreases tools.len(),
{
    if tools.len() == 0 {
        Seq::empty()
    } else {
        let rest = visible_tools(def, tools.drop_last());
        if tool_visible(def, tools.last()) {
            rest.push((tools.last().name@, tools.last().permission_level))
        } else {
            rest
        }
    }
}

pub open spec fn pair_views(v: Seq<(String, PermissionLevel)>) -> Seq<(Seq<char>, PermissionLevel)> {
    v.map_values(|p: (String, PermissionLevel)| (p.0@, p.1))
}

/// `strs(v)` holds `s`.
pub fn contains_str(v: &Vec<String>, s: &str) -> (b: bool)
    ensures
        b == strs(v@).contains(s@),
{
    let mut i: usize = 0;
    while i < v.len()
        invariant
            i <= v.len(),
            forall|k: int| 0 <= k < i ==> (#[trigger] v@[k])@ != s@,
        decreases v.len() - i,
    {
        if str_eq(v[i].as_str(), s) {
            assert(strs(v@)[i as int] == s@);
            return true;
        }
        i += 1;
    }
    proof {
        if strs(v@).contains(s@) {
            let k = choose|k: int| 0 <= k < strs(v@).len() && strs(v@)[k] == s@;
            assert(v@[k]@ == s@);
        }
    }
    false
}

fn entry_matches_exec(entry: &str, name: &str) -> (b: bool)
    ensures
        b == entry_matches(entry@, name@),
{
    let ev = chars_of(entry);
    if ev.len() > 0 && ev[ev.len() - 1] == '*' {
        let prefix = string_of(&ev, 0, ev.len() - 1);
        assert(ev@.subrange(0, ev.len() - 1) == ev@.drop_last());
        starts_with(name, prefix.as_str())
    } else {
        str_eq(entry, name)
    }
}

/// Some entry of `disallowed` covers `name`.
pub fn disallowed_tool_matches(disallowed: &Vec<String>, name: &str) -> (b: bool)
    ensures
        b == is_disallowed(strs(disallowed@), name@),
{
    let mut i: usize = 0;
    while i < disallowed.len()
        invariant
            i <= disallowed.len(),
            forall|k: int| 0 <= k < i ==> !entry_matches((#[trigger] disallowed@[k])@, name@),
        decreases disallowed.len() - i,
    {
        if entry_matches_exec(disallowed[i].as_str(), name) {
            assert(strs(disallowed@)[i as int] == disallowed@[i as int]@);
            return true;
        }
        i += 1;
    }
    proof {
        if is_disallowed(strs(disallowed@), name@) {
            let k = choose|k: int|
                0 <= k < strs(disallowed@).len() && entry_matches(
                    #[trigger] strs(disallowed@)[k],
                    name@,
                );
            assert(strs(disallowed@)[k] == disallowed@[k]@);
        }
    }
    false
}

fn tool_visible_exec(definition: &AgentDefinition, skill_prefix: &Option<String>, tool: &ToolEntry) -> (b: bool)
    requires
        match definition@.skill_filter {
            Some(skill) => skill_prefix matches Some(p) && p@ == skill + "__"@,
            None => skill_prefix is None,
        },
    ensures
        b == tool_visible(definition@, *tool),
{
    let name = tool.name.as_str();
    if disallowed_tool_matches(&definition.disallowed_tools, name) {
        return false;
    }
    match skill_prefix {
        Some(prefix) => {
            if !starts_with(name, prefix.as_str()) {
                return false;
            }
        },
        None => {},
    }
    match &definition.tools {
        ToolScope::Wildcard => true,
        ToolScope::Named(names) => {
            contains_str(names, name) || contains_str(&definition.extra_tools, name) || (
            tool.recovery && names.len() > 0)
        },
    }
}

/// The tools of the parent's catalog that `definition` sees, in catalog
/// order, each with its permission level.
pub fn definition_visible_tool_permissions(
    definition: &AgentDefinition,
    parent: &ParentExecutionContext,
) -> (r: Vec<(String, PermissionLevel)>)
    ensures
        pair_views(r@) == visible_tools(definition@, parent.all_tools@),
{
    let skill_prefix: Option<String> = match &definition.skill_filter {
        Some(skill) => {
            let mut p = skill.clone();
            append_str(&mut p, "__");
            Some(p)
        },
        None => None,
    };
    let tools = &parent.all_tools;
    let mut r: Vec<(String, PermissionLevel)> = Vec::new();
    let mut i: usize = 0;
    while i < tools.len()
        invariant
            i <= tools.len(),
            match definition@.skill_filter {
                Some(skill) => skill_prefix matches Some(p) && p@ == skill + "__"@,
                None => skill_prefix is None,
            },
            pair_views(r@) == visible_tools(definition@, tools@.take(i as int)),
        decreases tools.len() - i,
    {
        let tool = &tools[i];
        proof {
            let t = tools@.take(i + 1);
            assert(t.drop_last() == tools@.take(i as int));
            assert(t.last() == tools@[i as int]);
        }
        if tool_visible_exec(definition, &skill_prefix, tool) {
            r.push((tool.name.clone(), tool.permission_level));
            assert(pair_views(r@) =~= visible_tools(definition@, tools@.take(i as int)).push(
                (tool.name@, tool.permission_level),
            ));
        }
        i += 1;
    }
    assert(tools@.take(tools.len() as int) == tools@);
    r
}

/// `name:level` for each visible tool above read-only, in order.
pub open spec fn write_entries(visible: Seq<(Seq<char>, PermissionLevel)>) -> Seq<Seq<char>>
    decreases visible.len(),
{
    if visible.len() == 0 {
        Seq::empty()
    } else {
        let rest = write_entries(visible.drop_last());
        let (name, level) = visible.last();
        if level.spec_above_read_only() {
            rest.push(name + ":"@ + level.label())
        } else {
            rest
        }
    }
}

pub open spec fn char_views(v: Seq<Vec<char>>) -> Seq<Seq<char>> {
    v.map_values(|c: Vec<char>| c@)
}

/// Insert `x` into the strictly sorted `v`, unless it is already there.
fn insert_sorted(v: &mut Vec<Vec<char>>, x: Vec<char>)
    requires
        strictly_sorted(char_views(old(v)@)),
    ensures
        strictly_sorted(char_views(final(v)@)),
        forall|s: Seq<char>|
            char_views(final(v)@).contains(s) <==> (char_views(old(v)@).contains(s) || s == x@),
{
    let ghost old_views = char_views(v@);
    let mut i: usize = 0;
    while i < v.len() && lex_lt_exec(&v[i], &x)
        invariant
            i <= v.len(),
            v@ == old(v)@,
            old_views == char_views(v@),
            strictly_sorted(old_views),
            forall|k: int| 0 <= k < i ==> lex_lt(#[trigger] old_views[k], x@),
        decreases v.len() - i,
    {
        i += 1;
    }
    if i < v.len() && !lex_lt_exec(&x, &v[i]) {
        proof {
            assert(old_views[i as int] == v@[i as int]@);
            if old_views[i as int] != x@ {
                lemma_lex_total(old_views[i as int], x@);
                assert(false);
            }
            assert(old_views.contains(x@));
        }
        return;
    }
    proof {
        if i < v.len() {
            assert(old_views[i as int] == v@[i as int]@);
        }
    }
    let ghost xv = x@;
    v.insert(i, x);
    proof {
        let nv = char_views(v@);
        assert(nv =~= old_views.insert(i as int, xv));
        assert forall|a: int, b: int| 0 <= a < b < nv.len() implies lex_lt(
            #[trigger] nv[a],
            #[trigger] nv[b],
        ) by {
            if b < i {
            } else if a < i && b == i {
            } else if a < i && b > i {
                assert(lex_lt(old_views[a], old_views[b - 1]));
            } else if a == i {
                assert(lex_lt(xv, old_views[i as int]));
                if b - 1 > i {
                    assert(lex_lt(old_views[i as int], old_views[b - 1]));
                    lemma_lex_transitive(xv, old_views[i as int], old_views[b - 1]);
                }
            } else {
                assert(lex_lt(old_views[a - 1], old_views[b - 1]));
            }
        }
        assert forall|s: Seq<char>| nv.contains(s) <==> (old_views.contains(s) || s == xv) by {
            if nv.contains(s) {
                let k = choose|k: int| 0 <= k < nv.len() && nv[k] == s;
                if k < i {
                    assert(old_views[k] == s);
                } else if k > i {
                    assert(old_views[k - 1] == s);
                }
            }
            if old_views.contains(s) {
                let k = choose|k: int| 0 <= k < old_views.len() && old_views[k] == s;
                if k < i {
                    assert(nv[k] == s);
                } else {
                    assert(nv[k + 1] == s);
                }
            }
            if s == xv {
                assert(nv[i as int] == s);
            }
        }
    }
}

/// The entry `name:level` for a tool.
fn write_entry(name: &str, level: PermissionLevel) -> (r: Vec<char>)
    ensures
        r@ == name@ + ":"@ + level.label(),
{
    let mut s = owned(name);
    append_str(&mut s, ":");
    level.push_label(&mut s);
    chars_of(s.as_str())
}

/// The tools through which `definition` could change the shared workspace,
/// each as `name:level`, sorted and without repeats.
pub fn shared_workspace_write_capable_tools(
    definition: &AgentDefinition,
    parent: &ParentExecutionContext,
) -> (r: Vec<String>)
    ensures
        strs(r@) == sorted_distinct(write_entries(visible_tools(definition@, parent.all_tools@))),
        r@.len() == 0 <==> write_entries(visible_tools(definition@, parent.all_tools@)).len() == 0,
{
    let visible = definition_visible_tool_permissions(definition, parent);
    let ghost vis = pair_views(visible@);
    let mut sorted: Vec<Vec<char>> = Vec::new();
    let mut i: usize = 0;
    while i < visible.len()
        invariant
            i <= visible.len(),
            vis == pair_views(visible@),
            strictly_sorted(char_views(sorted@)),
            forall|s: Seq<char>|
                char_views(sorted@).contains(s) <==> write_entries(vis.take(i as int)).contains(s),
        decreases visible.len() - i,
    {
        proof {
            let t = vis.take(i + 1);
            assert(t.drop_last() == vis.take(i as int));
            assert(t.last() == vis[i as int]);
            assert(vis[i as int] == (visible@[i as int].0@, visible@[i as int].1));
        }
        let level = visible[i].1;
        if level.above_read_only() {
            let entry = write_entry(visible[i].0.as_str(), level);
            let ghost before = write_entries(vis.take(i as int));
            let ghost ev = entry@;
            insert_sorted(&mut sorted, entry);
            proof {
                assert(write_entries(vis.take(i + 1)) == before.push(ev));
                assert forall|s: Seq<char>|
                    char_views(sorted@).contains(s) <==> write_entries(vis.take(i + 1)).contains(
                        s,
                    ) by {
                    if before.push(ev).contains(s) {
                        let k = choose|k: int| 0 <= k < before.push(ev).len() && before.push(ev)[k] == s;
                        if k < before.len() {
                            assert(before[k] == s);
                        }
                    }
                    if before.contains(s) {
                        let k = choose|k: int| 0 <= k < before.len() && before[k] == s;
                        assert(before.push(ev)[k] == s);
                    }
                    if s == ev {
                        assert(before.push(ev)[before.len() as int] == s);
                    }
                }
            }
        }
        i += 1;
    }
    assert(vis.take(visible.len() as int) == vis);
    let mut r: Vec<String> = Vec::new();
    let mut j: usize = 0;
    while j < sorted.len()
        invariant
            j <= sorted.len(),
            r@.len() == j,
            forall|k: int| 0 <= k < j ==> (#[trigger] r@[k])@ == sorted@[k]@,
        decreases sorted.len() - j,
    {
        r.push(string_of(&sorted[j], 0, sorted[j].len()));
        assert(sorted@[j as int]@.subrange(0, sorted@[j as int]@.len() as int) == sorted@[j as int]@);
        j += 1;
    }
    assert(strs(r@) =~= char_views(sorted@));
    proof {
        let e = write_entries(visible_tools(definition@, parent.all_tools@));
        let c = sorted_distinct(e);
        assert(strictly_sorted(c) && forall|x: Seq<char>| c.contains(x) <==> e.contains(x));
        lemma_sorted_unique(strs(r@), c);
        if e.len() > 0 {
            assert(e.contains(e[0]));
            assert(strs(r@).contains(e[0]));
        }
        if r@.len() > 0 {
            assert(strs(r@).contains(strs(r@)[0]));
        }
    }
    r
}


/// The items of `entries` in increasing order, each once.
pub open spec fn sorted_distinct(entries: Seq<Seq<char>>) -> Seq<Seq<char>> {
    choose|s: Seq<Seq<char>>|
        strictly_sorted(s) && forall|x: Seq<char>| s.contains(x) <==> entries.contains(x)
}

/// Two strictly sorted sequences with the same items are equal.
pub proof fn lemma_sorted_unique(a: Seq<Seq<char>>, b: Seq<Seq<char>>)
    requires
        strictly_sorted(a),
        strictly_sorted(b),
        forall|x: Seq<char>| a.contains(x) <==> b.contains(x),
    ensures
        a == b,
    decreases a.len(),
{
    if a.len() == 0 {
        if b.len() > 0 {
            assert(b.contains(b[0]));
        }
        assert(a =~= b);
    } else if b.len() == 0 {
        assert(a.contains(a[0]));
    } else {
        assert(a.contains(a[0]));
        assert(b.contains(b[0]));
        let ia = choose|i: int| 0 <= i < a.len() && a[i] == b[0];
        let ib = choose|i: int| 0 <= i < b.len() && b[i] == a[0];
        if ia > 0 {
            assert(lex_lt(a[0], a[ia]));
            if ib > 0 {
                assert(lex_lt(b[0], b[ib]));
                lemma_lex_asymmetric(a[0], b[0]);
            }
        }
        if ib > 0 && ia == 0 {
            assert(lex_lt(b[0], b[ib]));
            lemma_lex_irreflexive(a[0]);
        }
        assert(a[0] == b[0]);
        let ta = a.drop_first();
        let tb = b.drop_first();
        assert forall|x: Seq<char>| ta.contains(x) <==> tb.contains(x) by {
            if ta.contains(x) {
                let k = choose|k: int| 0 <= k < ta.len() && ta[k] == x;
                assert(a[k + 1] == x);
                assert(lex_lt(a[0], x));
                assert(b.contains(x));
                let j = choose|j: int| 0 <= j < b.len() && b[j] == x;
                if j == 0 {
                    lemma_lex_irreflexive(x);
                }
                assert(tb[j - 1] == x);
            }
            if tb.contains(x) {
                let k = choose|k: int| 0 <= k < tb.len() && tb[k] == x;
                assert(b[k + 1] == x);
                assert(lex_lt(b[0], x));
                assert(a.contains(x));
                let j = choose|j: int| 0 <= j < a.len() && a[j] == x;
                if j == 0 {
                    lemma_lex_irreflexive(x);
                }
                assert(ta[j - 1] == x);
            }
        }
        lemma_sorted_unique(ta, tb);
        assert(a =~= b) by {
            assert forall|k: int| 0 <= k < a.len() implies a[k] == b[k] by {
                if k > 0 {
                    assert(a[k] == ta[k - 1]);
                    assert(b[k] == tb[k - 1]);
                }
            }
        }
    }
}


/// Every disallow entry covers the tool named like the entry itself, and
/// the entry `*` covers every tool.
pub proof fn law_disallow_entries(entry: Seq<char>, name: Seq<char>)
    ensures
        entry_matches(entry, entry),
        entry_matches(seq!['*'], name),
{
    if entry.len() > 0 && entry.last() == '*' {
        assert(entry.drop_last().is_prefix_of(entry));
    }
    assert(seq!['*'].drop_last() =~= Seq::<char>::empty());
}


/// Every tool an agent sees comes from the catalog with its own level, is
/// not covered by the deny list, and, when the definition has a skill
/// filter `k`, is named `k__…`.
pub proof fn law_visible_tools_respect_filters(def: AgentDefinitionView, tools: Seq<ToolEntry>)
    ensures
        forall|j: int|
            0 <= j < visible_tools(def, tools).len() ==> exists|i: int|
                0 <= i < tools.len() && (#[trigger] visible_tools(def, tools)[j]) == (
                    tools[i].name@,
                    tools[i].permission_level,
                ) && !is_disallowed(def.disallowed_tools, tools[i].name@),
        def.skill_filter matches Some(k) ==> forall|j: int|
            0 <= j < visible_tools(def, tools).len() ==> (k + "__"@).is_prefix_of(
                (#[trigger] visible_tools(def, tools)[j]).0,
            ),
    decreases tools.len(),
{
    if tools.len() > 0 {
        let t = tools.drop_last();
        law_visible_tools_respect_filters(def, t);
        let v = visible_tools(def, tools);
        let vt = visible_tools(def, t);
        assert forall|j: int| 0 <= j < v.len() implies exists|i: int|
            0 <= i < tools.len() && (#[trigger] v[j]) == (tools[i].name@, tools[i].permission_level)
                && !is_disallowed(def.disallowed_tools, tools[i].name@) by {
            if j < vt.len() {
                assert(v[j] == vt[j]);
                let i = choose|i: int|
                    0 <= i < t.len() && vt[j] == (t[i].name@, t[i].permission_level)
                        && !is_disallowed(def.disallowed_tools, t[i].name@);
                assert(tools[i] == t[i]);
            } else {
                assert(tools[tools.len() - 1] == tools.last());
            }
        }
        if let Some(k) = def.skill_filter {
            assert forall|j: int| 0 <= j < v.len() implies (k + "__"@).is_prefix_of(
                (#[trigger] v[j]).0,
            ) by {
                if j < vt.len() {
                    assert(v[j] == vt[j]);
                }
            }
        }
    }
}

/// Some visible tool is above read-only exactly when there is a write
/// entry.
pub proof fn lemma_write_entries_nonempty(def: AgentDefinitionView, tools: Seq<ToolEntry>)
    ensures
        write_entries(visible_tools(def, tools)).len() > 0 <==> exists|i: int|
            0 <= i < tools.len() && tool_visible(def, #[trigger] tools[i])
                && tools[i].permission_level.spec_above_read_only(),
    decreases tools.len(),
{
    if tools.len() > 0 {
        let t = tools.drop_last();
        lemma_write_entries_nonempty(def, t);
        let v = visible_tools(def, tools);
        let vt = visible_tools(def, t);
        if tool_visible(def, tools.last()) {
            assert(v.drop_last() == vt);
        } else {
            assert(v == vt);
        }
        if exists|i: int|
            0 <= i < t.len() && tool_visible(def, #[trigger] t[i])
                && t[i].permission_level.spec_above_read_only() {
            let i = choose|i: int|
                0 <= i < t.len() && tool_visible(def, #[trigger] t[i])
                    && t[i].permission_level.spec_above_read_only();
            assert(tools[i] == t[i]);
        }
        if exists|i: int|
            0 <= i < tools.len() && tool_visible(def, #[trigger] tools[i])
                && tools[i].permission_level.spec_above_read_only() {
            let i = choose|i: int|
                0 <= i < tools.len() && tool_visible(def, #[trigger] tools[i])
                    && tools[i].permission_level.spec_above_read_only();
            if i < t.len() {
                assert(t[i] == tools[i]);
            } else {
                assert(tools[i] == tools.last());
            }
        }
    }
}


/// Under a named tool scope, an agent sees only the tools its scope or its
/// extra tools name, and recovery tools when the scope names any tool.
pub proof fn law_named_scope_limits_visibility(def: AgentDefinitionView, tools: Seq<ToolEntry>)
    ensures
        def.tools matches ToolScopeView::Named(names) ==> forall|i: int|
            0 <= i < tools.len() && tool_visible(def, #[trigger] tools[i]) ==> (names.contains(
                tools[i].name@,
            ) || def.extra_tools.contains(tools[i].name@) || (tools[i].recovery && names.len()
                > 0)),
        forall|i: int|
            0 <= i < tools.len() && tool_visible(def, #[trigger] tools[i]) ==> !is_disallowed(
                def.disallowed_tools,
                tools[i].name@,
            ) && (def.skill_filter matches Some(k) ==> (k + "__"@).is_prefix_of(tools[i].name@)),
{
}

} // verus!
