//! Tools: what a tool call gives back, which tools each kind of agent sees,
//! and the registry of tool definitions in registration order.

pub mod defs;
pub mod files;
pub mod orchestration;
pub mod planning;
pub mod shell;

use vstd::prelude::*;

use crate::llm::types::ToolSpec;
use crate::text::{append, owned, str_eq};
use defs::{CronCancelTool, CronListTool, CronScheduleTool, EditFileTool, GlobTool, LoadSkillTool, ReadFileTool, RememberTool, SendMessageTool, ShellTool, ShutdownTeammateTool, SpawnTeammateTool, TaskClaimTool, TaskCompleteTool, TaskCreateTool, TaskListTool, TaskTool, TodoWriteTool, WorktreeCreateTool, WorktreeRemoveTool, WriteFileTool};

verus! {

/// The result of a tool call.
#[derive(Debug, Clone)]
pub struct ToolOutput {
    pub content: String,
    pub is_error: bool,
}

impl ToolOutput {
    /// A successful result.
    pub fn ok(s: String) -> (r: ToolOutput)
        ensures
            r.content@ == s@,
            !r.is_error,
    {
        ToolOutput { content: s, is_error: false }
    }

    /// A failed result.
    pub fn err(s: String) -> (r: ToolOutput)
        ensures
            r.content@ == s@,
            r.is_error,
    {
        ToolOutput { content: s, is_error: true }
    }
}

/// The result of a call of a tool that is not registered.
pub fn unknown_tool(name: &str) -> (r: ToolOutput)
    ensures
        r.content@ == "未知工具: "@ + name@,
        r.is_error,
{
    let mut s = owned("未知工具: ");
    append(&mut s, name);
    ToolOutput::err(s)
}

/// The kinds of agent, which see different tools.
#[derive(Debug, Clone, Copy, PartialEq, Eq, Structural)]
pub enum AgentKind {
    /// The main agent: every tool.
    Main,
    /// A one-off sub-agent: no spawning, team or schedule tools.
    Sub,
    /// A persistent teammate: basic tools, messages and the task graph.
    Teammate,
}

/// The tools a sub-agent does not see.
pub open spec fn sub_hidden() -> Seq<Seq<char>> {
    seq!["task"@, "spawn_teammate"@, "send_message"@, "shutdown_teammate"@, "cron_schedule"@, "cron_list"@, "cron_cancel"@]
}

/// The tools a teammate sees.
pub open spec fn teammate_tools() -> Seq<Seq<char>> {
    seq!["shell"@, "read_file"@, "write_file"@, "edit_file"@, "glob"@, "todo_write"@, "send_message"@, "task_list"@, "task_claim"@, "task_complete"@, "load_skill"@]
}

/// Whether an agent of kind `kind` sees tool `name`.
pub open spec fn visible(kind: AgentKind, name: Seq<char>) -> bool {
    match kind {
        AgentKind::Main => true,
        AgentKind::Sub => !sub_hidden().contains(name),
        AgentKind::Teammate => teammate_tools().contains(name),
    }
}

fn listed(names: &Vec<&'static str>, name: &str) -> (r: bool)
    ensures
        r == exists|i: int| 0 <= i < names@.len() && (#[trigger] names@[i])@ == name@,
{
    let mut i: usize = 0;
    while i < names.len()
        invariant
            i <= names@.len(),
            forall|k: int| 0 <= k < i ==> (#[trigger] names@[k])@ != name@,
        decreases names@.len() - i,
    {
        if str_eq(names[i], name) {
            return true;
        }
        i += 1;
    }
    false
}

/// Whether an agent of kind `kind` sees tool `name`.
pub fn visible_for(kind: AgentKind, name: &str) -> (r: bool)
    ensures
        r == visible(kind, name@),
{
    match kind {
        AgentKind::Main => true,
        AgentKind::Sub => {
            let hidden: Vec<&'static str> = vec!["task", "spawn_teammate", "send_message", "shutdown_teammate", "cron_schedule", "cron_list", "cron_cancel"];
            let r = listed(&hidden, name);
            proof {
                assert(hidden@.map_values(|s: &'static str| s@) =~= sub_hidden());
                if r {
                    let i = choose|i: int| 0 <= i < hidden@.len() && (#[trigger] hidden@[i])@ == name@;
                    assert(sub_hidden()[i] == name@);
                } else {
                    assert forall|i: int| 0 <= i < sub_hidden().len() implies sub_hidden()[i] != name@ by {
                        assert(hidden@[i]@ == sub_hidden()[i]);
                    }
                }
            }
            !r
        },
        AgentKind::Teammate => {
            let shown: Vec<&'static str> = vec!["shell", "read_file", "write_file", "edit_file", "glob", "todo_write", "send_message", "task_list", "task_claim", "task_complete", "load_skill"];
            let r = listed(&shown, name);
            proof {
                assert(shown@.map_values(|s: &'static str| s@) =~= teammate_tools());
                if r {
                    let i = choose|i: int| 0 <= i < shown@.len() && (#[trigger] shown@[i])@ == name@;
                    assert(teammate_tools()[i] == name@);
                } else {
                    assert forall|i: int| 0 <= i < teammate_tools().len() implies teammate_tools()[i] != name@ by {
                        assert(shown@[i]@ == teammate_tools()[i]);
                    }
                }
            }
            r
        },
    }
}

/// The value of a tool definition: name, description, input schema.
pub open spec fn spec_view(s: ToolSpec) -> (Seq<char>, Seq<char>, Seq<char>) {
    (s.name@, s.description@, s.input_schema@)
}

/// The values of a list of tool definitions.
pub open spec fn specs_view(v: Seq<ToolSpec>) -> Seq<(Seq<char>, Seq<char>, Seq<char>)> {
    v.map_values(|s: ToolSpec| spec_view(s))
}

/// The position of the tool named `name`, if any.
pub open spec fn position(s: Seq<(Seq<char>, Seq<char>, Seq<char>)>, name: Seq<char>) -> Option<int> {
    if exists|i: int| 0 <= i < s.len() && (#[trigger] s[i]).0 == name {
        Some(choose|i: int| 0 <= i < s.len() && (#[trigger] s[i]).0 == name)
    } else {
        None
    }
}

/// Each name occurs once.
pub open spec fn distinct_names(s: Seq<(Seq<char>, Seq<char>, Seq<char>)>) -> bool {
    forall|a: int, b: int| 0 <= a < b < s.len() ==> s[a].0 != s[b].0
}

fn dup_spec(s: &ToolSpec) -> (r: ToolSpec)
    ensures
        spec_view(r) == spec_view(*s),
{
    ToolSpec { name: s.name.clone(), description: s.description.clone(), input_schema: s.input_schema.clone() }
}

/// The registered tools, in registration order, each name once.
pub struct ToolRegistry {
    tools: Vec<ToolSpec>,
}

impl ToolRegistry {
    /// The definitions, in registration order.
    pub closed spec fn defs(&self) -> Seq<(Seq<char>, Seq<char>, Seq<char>)> {
        specs_view(self.tools@)
    }

    /// Names occur once.
    pub open spec fn wf(&self) -> bool {
        distinct_names(self.defs())
    }

    /// No tools.
    pub fn new() -> (r: ToolRegistry)
        ensures
            r.wf(),
            r.defs().len() == 0,
    {
        ToolRegistry { tools: Vec::new() }
    }

    fn find(&self, name: &str) -> (r: Option<usize>)
        ensures
            match r {
                Some(i) => i < self.defs().len() && self.defs()[i as int].0 == name@,
                None => forall|k: int| 0 <= k < self.defs().len() ==> (#[trigger] self.defs()[k]).0 != name@,
            },
    {
        let mut i: usize = 0;
        while i < self.tools.len()
            invariant
                i <= self.tools@.len(),
                forall|k: int| 0 <= k < i ==> (#[trigger] self.defs()[k]).0 != name@,
            decreases self.tools@.len() - i,
        {
            if str_eq(self.tools[i].name.as_str(), name) {
                return Some(i);
            }
            i += 1;
        }
        None
    }

    /// Registers a tool: a new name goes last, a known one keeps its place
    /// and gets the new definition.
    pub fn register(&mut self, tool: ToolSpec)
        requires
            old(self).wf(),
        ensures
            final(self).wf(),
            match position(old(self).defs(), tool.name@) {
                Some(i) => final(self).defs() == old(self).defs().update(i, spec_view(tool)),
                None => final(self).defs() == old(self).defs().push(spec_view(tool)),
            },
    {
        let ghost tv = spec_view(tool);
        match self.find(tool.name.as_str()) {
            Some(i) => {
                proof {
                    let c = choose|k: int| 0 <= k < self.defs().len() && (#[trigger] self.defs()[k]).0 == tv.0;
                    assert(self.defs()[i as int].0 == tv.0);
                    if c != i {
                        if c < i {
                            assert(self.defs()[c].0 != self.defs()[i as int].0);
                        } else {
                            assert(self.defs()[i as int].0 != self.defs()[c].0);
                        }
                    }
                }
                self.tools.set(i, tool);
                assert(self.defs() =~= old(self).defs().update(i as int, tv));
            },
            None => {
                self.tools.push(tool);
                assert(self.defs() =~= old(self).defs().push(tv));
            },
        }
    }

    /// Whether a tool of that name is registered.
    pub fn contains(&self, name: &str) -> (r: bool)
        ensures
            r == (position(self.defs(), name@) is Some),
    {
        match self.find(name) {
            Some(i) => {
                assert(self.defs()[i as int].0 == name@);
                true
            },
            None => false,
        }
    }

    /// The definitions, in registration order.
    pub fn specs(&self) -> (r: Vec<ToolSpec>)
        ensures
            specs_view(r@) == self.defs(),
    {
        let mut out: Vec<ToolSpec> = Vec::new();
        let mut i: usize = 0;
        while i < self.tools.len()
            invariant
                i <= self.tools@.len(),
                specs_view(out@) == self.defs().take(i as int),
            decreases self.tools@.len() - i,
        {
            let ghost prev = out@;
            out.push(dup_spec(&self.tools[i]));
            assert(specs_view(out@) =~= specs_view(prev).push(self.defs()[i as int]));
            assert(specs_view(out@) =~= self.defs().take(i + 1));
            i += 1;
        }
        assert(self.defs().take(self.tools@.len() as int) =~= self.defs());
        out
    }

    /// The definitions an agent of kind `kind` sees, in registration order,
    /// leaving out the names in `extra_hidden`.
    pub fn specs_for(&self, kind: AgentKind, extra_hidden: &Vec<String>) -> (r: Vec<ToolSpec>)
        ensures
            specs_view(r@) == self.defs().filter(
                |d: (Seq<char>, Seq<char>, Seq<char>)| visible(kind, d.0) && !views_contain(extra_hidden@, d.0),
            ),
    {
        let ghost pred = |d: (Seq<char>, Seq<char>, Seq<char>)| visible(kind, d.0) && !views_contain(extra_hidden@, d.0);
        let mut out: Vec<ToolSpec> = Vec::new();
        let mut i: usize = 0;
        while i < self.tools.len()
            invariant
                i <= self.tools@.len(),
                pred == (|d: (Seq<char>, Seq<char>, Seq<char>)| visible(kind, d.0) && !views_contain(extra_hidden@, d.0)),
                specs_view(out@) == self.defs().take(i as int).filter(pred),
            decreases self.tools@.len() - i,
        {
            let t = &self.tools[i];
            let keep = visible_for(kind, t.name.as_str()) && !string_listed(extra_hidden, t.name.as_str());
            let ghost prev = out@;
            if keep {
                out.push(dup_spec(t));
                assert(specs_view(out@) =~= specs_view(prev).push(self.defs()[i as int]));
            }
            proof {
                assert(self.defs().take(i + 1).drop_last() =~= self.defs().take(i as int));
                reveal(Seq::filter);
            }
            i += 1;
        }
        assert(self.defs().take(self.tools@.len() as int) =~= self.defs());
        out
    }
}

impl Default for ToolRegistry {
    fn default() -> (r: ToolRegistry)
        ensures
            r.wf(),
            r.defs().len() == 0,
    {
        ToolRegistry::new()
    }
}

/// Whether one of `v` is `name`.
pub open spec fn views_contain(v: Seq<String>, name: Seq<char>) -> bool {
    exists|i: int| 0 <= i < v.len() && (#[trigger] v[i])@ == name
}

fn string_listed(v: &Vec<String>, name: &str) -> (r: bool)
    ensures
        r == views_contain(v@, name@),
{
    let mut i: usize = 0;
    while i < v.len()
        invariant
            i <= v@.len(),
            forall|k: int| 0 <= k < i ==> (#[trigger] v@[k])@ != name@,
        decreases v@.len() - i,
    {
        if str_eq(v[i].as_str(), name) {
            return true;
        }
        i += 1;
    }
    false
}

/// The names of the built-in tools, in registration order.
pub open spec fn builtin_names() -> Seq<Seq<char>> {
    seq!["shell"@, "read_file"@, "write_file"@, "edit_file"@, "glob"@, "todo_write"@, "load_skill"@, "remember"@, "task"@, "task_create"@, "task_list"@, "task_claim"@, "task_complete"@, "cron_schedule"@, "cron_list"@, "cron_cancel"@, "spawn_teammate"@, "shutdown_teammate"@, "send_message"@, "create_worktree"@, "remove_worktree"@]
}

/// The built-in names are pairwise different.
proof fn lemma_builtin_names_distinct()
    ensures
        forall|a: int, b: int| 0 <= a < b < builtin_names().len() ==> builtin_names()[a] != builtin_names()[b],
{
    reveal_strlit("shell");
    reveal_strlit("read_file");
    reveal_strlit("write_file");
    reveal_strlit("edit_file");
    reveal_strlit("glob");
    reveal_strlit("todo_write");
    reveal_strlit("load_skill");
    reveal_strlit("remember");
    reveal_strlit("task");
    reveal_strlit("task_create");
    reveal_strlit("task_list");
    reveal_strlit("task_claim");
    reveal_strlit("task_complete");
    reveal_strlit("cron_schedule");
    reveal_strlit("cron_list");
    reveal_strlit("cron_cancel");
    reveal_strlit("spawn_teammate");
    reveal_strlit("shutdown_teammate");
    reveal_strlit("send_message");
    reveal_strlit("create_worktree");
    reveal_strlit("remove_worktree");
    assert(builtin_names()[0].len() != builtin_names()[1].len());
    assert(builtin_names()[0].len() != builtin_names()[2].len());
    assert(builtin_names()[0].len() != builtin_names()[3].len());
    assert(builtin_names()[0].len() != builtin_names()[4].len());
    assert(builtin_names()[0].len() != builtin_names()[5].len());
    assert(builtin_names()[0].len() != builtin_names()[6].len());
    assert(builtin_names()[0].len() != builtin_names()[7].len());
    assert(builtin_names()[0].len() != builtin_names()[8].len());
    assert(builtin_names()[0].len() != builtin_names()[9].len());
    assert(builtin_names()[0].len() != builtin_names()[10].len());
    assert(builtin_names()[0].len() != builtin_names()[11].len());
    assert(builtin_names()[0].len() != builtin_names()[12].len());
    assert(builtin_names()[0].len() != builtin_names()[13].len());
    assert(builtin_names()[0].len() != builtin_names()[14].len());
    assert(builtin_names()[0].len() != builtin_names()[15].len());
    assert(builtin_names()[0].len() != builtin_names()[16].len());
    assert(builtin_names()[0].len() != builtin_names()[17].len());
    assert(builtin_names()[0].len() != builtin_names()[18].len());
    assert(builtin_names()[0].len() != builtin_names()[19].len());
    assert(builtin_names()[0].len() != builtin_names()[20].len());
    assert(builtin_names()[1].len() != builtin_names()[2].len());
    assert(builtin_names()[1][0] != builtin_names()[3][0]);
    assert(builtin_names()[1].len() != builtin_names()[4].len());
    assert(builtin_names()[1].len() != builtin_names()[5].len());
    assert(builtin_names()[1].len() != builtin_names()[6].len());
    assert(builtin_names()[1].len() != builtin_names()[7].len());
    assert(builtin_names()[1].len() != builtin_names()[8].len());
    assert(builtin_names()[1].len() != builtin_names()[9].len());
    assert(builtin_names()[1][0] != builtin_names()[10][0]);
    assert(builtin_names()[1].len() != builtin_names()[11].len());
    assert(builtin_names()[1].len() != builtin_names()[12].len());
    assert(builtin_names()[1].len() != builtin_names()[13].len());
    assert(builtin_names()[1][0] != builtin_names()[14][0]);
    assert(builtin_names()[1].len() != builtin_names()[15].len());
    assert(builtin_names()[1].len() != builtin_names()[16].len());
    assert(builtin_names()[1].len() != builtin_names()[17].len());
    assert(builtin_names()[1].len() != builtin_names()[18].len());
    assert(builtin_names()[1].len() != builtin_names()[19].len());
    assert(builtin_names()[1].len() != builtin_names()[20].len());
    assert(builtin_names()[2].len() != builtin_names()[3].len());
    assert(builtin_names()[2].len() != builtin_names()[4].len());
    assert(builtin_names()[2][0] != builtin_names()[5][0]);
    assert(builtin_names()[2][0] != builtin_names()[6][0]);
    assert(builtin_names()[2].len() != builtin_names()[7].len());
    assert(builtin_names()[2].len() != builtin_names()[8].len());
    assert(builtin_names()[2].len() != builtin_names()[9].len());
    assert(builtin_names()[2].len() != builtin_names()[10].len());
    assert(builtin_names()[2][0] != builtin_names()[11][0]);
    assert(builtin_names()[2].len() != builtin_names()[12].len());
    assert(builtin_names()[2].len() != builtin_names()[13].len());
    assert(builtin_names()[2].len() != builtin_names()[14].len());
    assert(builtin_names()[2].len() != builtin_names()[15].len());
    assert(builtin_names()[2].len() != builtin_names()[16].len());
    assert(builtin_names()[2].len() != builtin_names()[17].len());
    assert(builtin_names()[2].len() != builtin_names()[18].len());
    assert(builtin_names()[2].len() != builtin_names()[19].len());
    assert(builtin_names()[2].len() != builtin_names()[20].len());
    assert(builtin_names()[3].len() != builtin_names()[4].len());
    assert(builtin_names()[3].len() != builtin_names()[5].len());
    assert(builtin_names()[3].len() != builtin_names()[6].len());
    assert(builtin_names()[3].len() != builtin_names()[7].len());
    assert(builtin_names()[3].len() != builtin_names()[8].len());
    assert(builtin_names()[3].len() != builtin_names()[9].len());
    assert(builtin_names()[3][0] != builtin_names()[10][0]);
    assert(builtin_names()[3].len() != builtin_names()[11].len());
    assert(builtin_names()[3].len() != builtin_names()[12].len());
    assert(builtin_names()[3].len() != builtin_names()[13].len());
    assert(builtin_names()[3][0] != builtin_names()[14][0]);
    assert(builtin_names()[3].len() != builtin_names()[15].len());
    assert(builtin_names()[3].len() != builtin_names()[16].len());
    assert(builtin_names()[3].len() != builtin_names()[17].len());
    assert(builtin_names()[3].len() != builtin_names()[18].len());
    assert(builtin_names()[3].len() != builtin_names()[19].len());
    assert(builtin_names()[3].len() != builtin_names()[20].len());
    assert(builtin_names()[4].len() != builtin_names()[5].len());
    assert(builtin_names()[4].len() != builtin_names()[6].len());
    assert(builtin_names()[4].len() != builtin_names()[7].len());
    assert(builtin_names()[4][0] != builtin_names()[8][0]);
    assert(builtin_names()[4].len() != builtin_names()[9].len());
    assert(builtin_names()[4].len() != builtin_names()[10].len());
    assert(builtin_names()[4].len() != builtin_names()[11].len());
    assert(builtin_names()[4].len() != builtin_names()[12].len());
    assert(builtin_names()[4].len() != builtin_names()[13].len());
    assert(builtin_names()[4].len() != builtin_names()[14].len());
    assert(builtin_names()[4].len() != builtin_names()[15].len());
    assert(builtin_names()[4].len() != builtin_names()[16].len());
    assert(builtin_names()[4].len() != builtin_names()[17].len());
    assert(builtin_names()[4].len() != builtin_names()[18].len());
    assert(builtin_names()[4].len() != builtin_names()[19].len());
    assert(builtin_names()[4].len() != builtin_names()[20].len());
    assert(builtin_names()[5][0] != builtin_names()[6][0]);
    assert(builtin_names()[5].len() != builtin_names()[7].len());
    assert(builtin_names()[5].len() != builtin_names()[8].len());
    assert(builtin_names()[5].len() != builtin_names()[9].len());
    assert(builtin_names()[5].len() != builtin_names()[10].len());
    assert(builtin_names()[5][1] != builtin_names()[11][1]);
    assert(builtin_names()[5].len() != builtin_names()[12].len());
    assert(builtin_names()[5].len() != builtin_names()[13].len());
    assert(builtin_names()[5].len() != builtin_names()[14].len());
    assert(builtin_names()[5].len() != builtin_names()[15].len());
    assert(builtin_names()[5].len() != builtin_names()[16].len());
    assert(builtin_names()[5].len() != builtin_names()[17].len());
    assert(builtin_names()[5].len() != builtin_names()[18].len());
    assert(builtin_names()[5].len() != builtin_names()[19].len());
    assert(builtin_names()[5].len() != builtin_names()[20].len());
    assert(builtin_names()[6].len() != builtin_names()[7].len());
    assert(builtin_names()[6].len() != builtin_names()[8].len());
    assert(builtin_names()[6].len() != builtin_names()[9].len());
    assert(builtin_names()[6].len() != builtin_names()[10].len());
    assert(builtin_names()[6][0] != builtin_names()[11][0]);
    assert(builtin_names()[6].len() != builtin_names()[12].len());
    assert(builtin_names()[6].len() != builtin_names()[13].len());
    assert(builtin_names()[6].len() != builtin_names()[14].len());
    assert(builtin_names()[6].len() != builtin_names()[15].len());
    assert(builtin_names()[6].len() != builtin_names()[16].len());
    assert(builtin_names()[6].len() != builtin_names()[17].len());
    assert(builtin_names()[6].len() != builtin_names()[18].len());
    assert(builtin_names()[6].len() != builtin_names()[19].len());
    assert(builtin_names()[6].len() != builtin_names()[20].len());
    assert(builtin_names()[7].len() != builtin_names()[8].len());
    assert(builtin_names()[7].len() != builtin_names()[9].len());
    assert(builtin_names()[7].len() != builtin_names()[10].len());
    assert(builtin_names()[7].len() != builtin_names()[11].len());
    assert(builtin_names()[7].len() != builtin_names()[12].len());
    assert(builtin_names()[7].len() != builtin_names()[13].len());
    assert(builtin_names()[7].len() != builtin_names()[14].len());
    assert(builtin_names()[7].len() != builtin_names()[15].len());
    assert(builtin_names()[7].len() != builtin_names()[16].len());
    assert(builtin_names()[7].len() != builtin_names()[17].len());
    assert(builtin_names()[7].len() != builtin_names()[18].len());
    assert(builtin_names()[7].len() != builtin_names()[19].len());
    assert(builtin_names()[7].len() != builtin_names()[20].len());
    assert(builtin_names()[8].len() != builtin_names()[9].len());
    assert(builtin_names()[8].len() != builtin_names()[10].len());
    assert(builtin_names()[8].len() != builtin_names()[11].len());
    assert(builtin_names()[8].len() != builtin_names()[12].len());
    assert(builtin_names()[8].len() != builtin_names()[13].len());
    assert(builtin_names()[8].len() != builtin_names()[14].len());
    assert(builtin_names()[8].len() != builtin_names()[15].len());
    assert(builtin_names()[8].len() != builtin_names()[16].len());
    assert(builtin_names()[8].len() != builtin_names()[17].len());
    assert(builtin_names()[8].len() != builtin_names()[18].len());
    assert(builtin_names()[8].len() != builtin_names()[19].len());
    assert(builtin_names()[8].len() != builtin_names()[20].len());
    assert(builtin_names()[9].len() != builtin_names()[10].len());
    assert(builtin_names()[9].len() != builtin_names()[11].len());
    assert(builtin_names()[9].len() != builtin_names()[12].len());
    assert(builtin_names()[9].len() != builtin_names()[13].len());
    assert(builtin_names()[9].len() != builtin_names()[14].len());
    assert(builtin_names()[9][0] != builtin_names()[15][0]);
    assert(builtin_names()[9].len() != builtin_names()[16].len());
    assert(builtin_names()[9].len() != builtin_names()[17].len());
    assert(builtin_names()[9].len() != builtin_names()[18].len());
    assert(builtin_names()[9].len() != builtin_names()[19].len());
    assert(builtin_names()[9].len() != builtin_names()[20].len());
    assert(builtin_names()[10].len() != builtin_names()[11].len());
    assert(builtin_names()[10].len() != builtin_names()[12].len());
    assert(builtin_names()[10].len() != builtin_names()[13].len());
    assert(builtin_names()[10][0] != builtin_names()[14][0]);
    assert(builtin_names()[10].len() != builtin_names()[15].len());
    assert(builtin_names()[10].len() != builtin_names()[16].len());
    assert(builtin_names()[10].len() != builtin_names()[17].len());
    assert(builtin_names()[10].len() != builtin_names()[18].len());
    assert(builtin_names()[10].len() != builtin_names()[19].len());
    assert(builtin_names()[10].len() != builtin_names()[20].len());
    assert(builtin_names()[11].len() != builtin_names()[12].len());
    assert(builtin_names()[11].len() != builtin_names()[13].len());
    assert(builtin_names()[11].len() != builtin_names()[14].len());
    assert(builtin_names()[11].len() != builtin_names()[15].len());
    assert(builtin_names()[11].len() != builtin_names()[16].len());
    assert(builtin_names()[11].len() != builtin_names()[17].len());
    assert(builtin_names()[11].len() != builtin_names()[18].len());
    assert(builtin_names()[11].len() != builtin_names()[19].len());
    assert(builtin_names()[11].len() != builtin_names()[20].len());
    assert(builtin_names()[12][0] != builtin_names()[13][0]);
    assert(builtin_names()[12].len() != builtin_names()[14].len());
    assert(builtin_names()[12].len() != builtin_names()[15].len());
    assert(builtin_names()[12].len() != builtin_names()[16].len());
    assert(builtin_names()[12].len() != builtin_names()[17].len());
    assert(builtin_names()[12].len() != builtin_names()[18].len());
    assert(builtin_names()[12].len() != builtin_names()[19].len());
    assert(builtin_names()[12].len() != builtin_names()[20].len());
    assert(builtin_names()[13].len() != builtin_names()[14].len());
    assert(builtin_names()[13].len() != builtin_names()[15].len());
    assert(builtin_names()[13].len() != builtin_names()[16].len());
    assert(builtin_names()[13].len() != builtin_names()[17].len());
    assert(builtin_names()[13].len() != builtin_names()[18].len());
    assert(builtin_names()[13].len() != builtin_names()[19].len());
    assert(builtin_names()[13].len() != builtin_names()[20].len());
    assert(builtin_names()[14].len() != builtin_names()[15].len());
    assert(builtin_names()[14].len() != builtin_names()[16].len());
    assert(builtin_names()[14].len() != builtin_names()[17].len());
    assert(builtin_names()[14].len() != builtin_names()[18].len());
    assert(builtin_names()[14].len() != builtin_names()[19].len());
    assert(builtin_names()[14].len() != builtin_names()[20].len());
    assert(builtin_names()[15].len() != builtin_names()[16].len());
    assert(builtin_names()[15].len() != builtin_names()[17].len());
    assert(builtin_names()[15].len() != builtin_names()[18].len());
    assert(builtin_names()[15].len() != builtin_names()[19].len());
    assert(builtin_names()[15].len() != builtin_names()[20].len());
    assert(builtin_names()[16].len() != builtin_names()[17].len());
    assert(builtin_names()[16].len() != builtin_names()[18].len());
    assert(builtin_names()[16].len() != builtin_names()[19].len());
    assert(builtin_names()[16].len() != builtin_names()[20].len());
    assert(builtin_names()[17].len() != builtin_names()[18].len());
    assert(builtin_names()[17].len() != builtin_names()[19].len());
    assert(builtin_names()[17].len() != builtin_names()[20].len());
    assert(builtin_names()[18].len() != builtin_names()[19].len());
    assert(builtin_names()[18].len() != builtin_names()[20].len());
    assert(builtin_names()[19][0] != builtin_names()[20][0]);
}

/// The registry of the built-in tools, in their fixed order.
pub fn build_registry() -> (r: ToolRegistry)
    ensures
        r.wf(),
        r.defs().map_values(|d: (Seq<char>, Seq<char>, Seq<char>)| d.0) == builtin_names(),
{
    proof {
            reveal_strlit("shell");
            reveal_strlit("read_file");
            reveal_strlit("write_file");
            reveal_strlit("edit_file");
            reveal_strlit("glob");
            reveal_strlit("todo_write");
            reveal_strlit("load_skill");
            reveal_strlit("remember");
            reveal_strlit("task");
            reveal_strlit("task_create");
            reveal_strlit("task_list");
            reveal_strlit("task_claim");
            reveal_strlit("task_complete");
            reveal_strlit("cron_schedule");
            reveal_strlit("cron_list");
            reveal_strlit("cron_cancel");
            reveal_strlit("spawn_teammate");
            reveal_strlit("shutdown_teammate");
            reveal_strlit("send_message");
            reveal_strlit("create_worktree");
            reveal_strlit("remove_worktree");
    }
    let r = ToolRegistry { tools: vec![
        ShellTool.spec(),
        ReadFileTool.spec(),
        WriteFileTool.spec(),
        EditFileTool.spec(),
        GlobTool.spec(),
        TodoWriteTool.spec(),
        LoadSkillTool.spec(),
        RememberTool.spec(),
        TaskTool.spec(),
        TaskCreateTool.spec(),
        TaskListTool.spec(),
        TaskClaimTool.spec(),
        TaskCompleteTool.spec(),
        CronScheduleTool.spec(),
        CronListTool.spec(),
        CronCancelTool.spec(),
        SpawnTeammateTool.spec(),
        ShutdownTeammateTool.spec(),
        SendMessageTool.spec(),
        WorktreeCreateTool.spec(),
        WorktreeRemoveTool.spec(),
    ] };
    assert(r.defs().map_values(|d: (Seq<char>, Seq<char>, Seq<char>)| d.0) =~= builtin_names());
    proof {
        lemma_builtin_names_distinct();
    }
    assert forall|a: int, b: int| 0 <= a < b < r.defs().len() implies r.defs()[a].0 != r.defs()[b].0 by {
        assert(r.defs()[a].0 == builtin_names()[a]);
        assert(r.defs()[b].0 == builtin_names()[b]);
    }
    r
}

} // verus!
