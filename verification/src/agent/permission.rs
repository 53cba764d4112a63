//! Permissions: three gates before a tool runs — a hard deny list, rules that
//! ask the user, and the user's answer, remembered per pattern when the user
//! allows always.

use vstd::prelude::*;

use crate::json::{json_str_field, spec_json_str_field};
use crate::agent::ctx::ToolCtx;
use crate::paths::{path_parent, resolved_path, spec_path_parent};
use crate::text::{
    append, first_word, first_word_of, owned, seq_contains, seq_starts_with, spec_to_lowercase,
    str_contains, str_eq, str_starts_with, to_lowercase, trim, trim_str,
};

verus! {

/// The verdict of the permission rules.
#[derive(Debug, Clone)]
pub enum Decision {
    Allow,
    Deny(String),
    /// Ask the user, with this explanation.
    Ask(String),
}

/// The user's answer to an approval request.
#[derive(Debug, Clone, Copy, PartialEq, Eq, Structural)]
pub enum ApprovalDecision {
    AllowOnce,
    AllowAlways,
    Deny,
}

/// Commands refused outright.
pub open spec fn deny_list() -> Seq<Seq<char>> {
    seq![
        "rm -rf /"@,
        "rm -rf c:"@,
        "format c:"@,
        "format d:"@,
        "shutdown /s"@,
        "shutdown -s"@,
        "remove-item -recurse -force c:\\"@,
        "remove-item -recurse -force c:/"@,
        "del /f /s /q c:\\"@,
        "rd /s /q c:\\"@,
        "reg delete hklm"@,
        "vssadmin delete shadows"@,
        "cipher /w"@,
        "diskpart"@,
        "bcdedit"@,
        "mkfs"@,
        ":(){ :|:& };:"@,
    ]
}

/// Command features that need the user's approval.
pub open spec fn ask_patterns() -> Seq<Seq<char>> {
    seq![
        "remove-item"@,
        "del "@,
        "rd /s"@,
        "rmdir"@,
        "rm -rf"@,
        "rm -r"@,
        "git push --force"@,
        "git push -f"@,
        "git reset --hard"@,
        "git clean -fd"@,
        "sudo "@,
        "runas "@,
        "taskkill"@,
        "stop-process"@,
        "stop-service"@,
        "sc delete"@,
        "netsh "@,
        "set-executionpolicy"@,
        "curl "@,
        "invoke-webrequest"@,
        "wget "@,
        "iwr "@,
        "> c:\\windows"@,
        "schtasks"@,
    ]
}

/// Path fragments that make a command or a write sensitive.
pub open spec fn sensitive_path_hints() -> Seq<Seq<char>> {
    seq![
        ".ssh"@,
        ".gnupg"@,
        "credentials"@,
        "id_rsa"@,
        ".env"@,
        "appdata\\local\\laver-agent"@,
    ]
}

/// The views of a list of static texts.
pub open spec fn strs_view(v: Seq<&'static str>) -> Seq<Seq<char>> {
    v.map_values(|s: &'static str| s@)
}

/// The commands refused outright.
pub fn deny_list_exec() -> (r: Vec<&'static str>)
    ensures
        strs_view(r@) == deny_list(),
{
    let r = vec![
        "rm -rf /",
        "rm -rf c:",
        "format c:",
        "format d:",
        "shutdown /s",
        "shutdown -s",
        "remove-item -recurse -force c:\\",
        "remove-item -recurse -force c:/",
        "del /f /s /q c:\\",
        "rd /s /q c:\\",
        "reg delete hklm",
        "vssadmin delete shadows",
        "cipher /w",
        "diskpart",
        "bcdedit",
        "mkfs",
        ":(){ :|:& };:",
    ];
    assert(strs_view(r@) =~= deny_list());
    r
}

/// The command features that need approval.
pub fn ask_patterns_exec() -> (r: Vec<&'static str>)
    ensures
        strs_view(r@) == ask_patterns(),
{
    let r = vec![
        "remove-item",
        "del ",
        "rd /s",
        "rmdir",
        "rm -rf",
        "rm -r",
        "git push --force",
        "git push -f",
        "git reset --hard",
        "git clean -fd",
        "sudo ",
        "runas ",
        "taskkill",
        "stop-process",
        "stop-service",
        "sc delete",
        "netsh ",
        "set-executionpolicy",
        "curl ",
        "invoke-webrequest",
        "wget ",
        "iwr ",
        "> c:\\windows",
        "schtasks",
    ];
    assert(strs_view(r@) =~= ask_patterns());
    r
}

/// The sensitive path fragments.
pub fn sensitive_path_hints_exec() -> (r: Vec<&'static str>)
    ensures
        strs_view(r@) == sensitive_path_hints(),
{
    let r = vec![".ssh", ".gnupg", "credentials", "id_rsa", ".env", "appdata\\local\\laver-agent"];
    assert(strs_view(r@) =~= sensitive_path_hints());
    r
}

/// The position of the first entry of `list`, from `i` on, that occurs in `s`.
pub open spec fn first_hit_from(list: Seq<Seq<char>>, s: Seq<char>, i: int) -> Option<int>
    decreases list.len() - i,
{
    if i < 0 || i >= list.len() {
        None
    } else if seq_contains(s, list[i]) {
        Some(i)
    } else {
        first_hit_from(list, s, i + 1)
    }
}

/// The position of the first entry of `list` that occurs in `s`.
pub open spec fn first_hit(list: Seq<Seq<char>>, s: Seq<char>) -> Option<int> {
    first_hit_from(list, s, 0)
}

proof fn lemma_first_hit_from(list: Seq<Seq<char>>, s: Seq<char>, i: int)
    requires
        0 <= i <= list.len(),
    ensures
        match first_hit_from(list, s, i) {
            Some(k) => i <= k < list.len() && seq_contains(s, list[k]) && forall|q: int|
                i <= q < k ==> !seq_contains(s, #[trigger] list[q]),
            None => forall|q: int| i <= q < list.len() ==> !seq_contains(s, #[trigger] list[q]),
        },
    decreases list.len() - i,
{
    if i < list.len() && !seq_contains(s, list[i]) {
        lemma_first_hit_from(list, s, i + 1);
    }
}

/// The first entry of `list` occurring in `s`.
fn find_first_hit(list: &Vec<&'static str>, s: &str) -> (r: Option<usize>)
    ensures
        match r {
            Some(k) => first_hit(strs_view(list@), s@) == Some(k as int) && k < list@.len(),
            None => first_hit(strs_view(list@), s@) is None,
        },
{
    let ghost lv = strs_view(list@);
    let mut i: usize = 0;
    proof {
        lemma_first_hit_from(lv, s@, 0);
    }
    while i < list.len()
        invariant
            i <= list@.len(),
            lv == strs_view(list@),
            first_hit_from(lv, s@, 0) == first_hit_from(lv, s@, i as int),
        decreases list@.len() - i,
    {
        if str_contains(s, list[i]) {
            return Some(i);
        }
        i += 1;
    }
    None
}

/// The verdict of the rules for a call of `tool` with JSON input `input`.
/// `resolved` is the caller's resolution of the input's `path` field to an
/// absolute path, and `inside` whether that path lies in the workspace or the
/// working directory; they matter for file writes only.
pub open spec fn verdict(tool: Seq<char>, input: Seq<char>, resolved: Seq<char>, inside: bool) -> (
    int,
    Seq<char>,
) {
    if tool == "shell"@ {
        let cmd = spec_to_lowercase(
            match spec_json_str_field(input, "command"@) {
                Some(c) => c,
                None => Seq::empty(),
            },
        );
        match first_hit(deny_list(), cmd) {
            Some(k) => (1, "命中硬拒绝规则: "@ + deny_list()[k]),
            None => match first_hit(ask_patterns(), cmd) {
                Some(k) => (2, "命令包含危险特征 `"@ + trim(ask_patterns()[k]) + "`"@),
                None => match first_hit(sensitive_path_hints(), cmd) {
                    Some(k) => (2, "命令涉及敏感路径 `"@ + sensitive_path_hints()[k] + "`"@),
                    None => (0, Seq::empty()),
                },
            },
        }
    } else if tool == "write_file"@ || tool == "edit_file"@ {
        let lower = spec_to_lowercase(resolved);
        match first_hit(sensitive_path_hints(), lower) {
            Some(k) => (2, "写入敏感路径 `"@ + sensitive_path_hints()[k] + "`"@),
            None => if !inside {
                (2, "在工作区之外写文件: "@ + resolved)
            } else {
                (0, Seq::empty())
            },
        }
    } else if tool == "remove_worktree"@ {
        (2, "删除 git worktree"@)
    } else if seq_starts_with(tool, "mcp__"@) {
        (2, "调用外部 MCP 工具 "@ + tool)
    } else {
        (0, Seq::empty())
    }
}

/// `d` is the decision `(kind, text)`: 0 allow, 1 deny, 2 ask.
pub open spec fn decision_is(d: Decision, v: (int, Seq<char>)) -> bool {
    match d {
        Decision::Allow => v.0 == 0,
        Decision::Deny(m) => v.0 == 1 && m@ == v.1,
        Decision::Ask(m) => v.0 == 2 && m@ == v.1,
    }
}

/// The verdict of the rules for a call made in `ctx`: a file write's `path`
/// (empty when missing) is resolved against the call's directories.
pub open spec fn call_verdict(tool: Seq<char>, input: Seq<char>, workspace: Seq<char>, cwd: Seq<char>) -> (
    int,
    Seq<char>,
) {
    let path = match spec_json_str_field(input, "path"@) {
        Some(p) => p,
        None => Seq::empty(),
    };
    let r = resolved_path(workspace, cwd, path);
    verdict(tool, input, r.0, r.1)
}

/// Evaluates a tool call made in `ctx` against the deny list and the approval
/// rules (the user's remembered approvals are checked by `resolve_ask`).
pub fn evaluate(tool: &str, input: &str, ctx: &ToolCtx) -> (r: Decision)
    ensures
        decision_is(r, call_verdict(tool@, input@, ctx.workspace@, ctx.cwd@)),
{
    if str_eq(tool, "write_file") || str_eq(tool, "edit_file") {
        let path = match json_str_field(input, "path") {
            Some(p) => p,
            None => String::new(),
        };
        let (abs, inside) = ctx.resolve_path(path.as_str());
        evaluate_resolved(tool, input, abs.as_str(), inside)
    } else {
        evaluate_resolved(tool, input, "", true)
    }
}

/// Evaluates a tool call whose file path, if it writes one, was resolved to
/// `resolved`, `inside` telling whether that lies in the allowed directories.
pub fn evaluate_resolved(tool: &str, input: &str, resolved: &str, inside: bool) -> (r: Decision)
    ensures
        decision_is(r, verdict(tool@, input@, resolved@, inside)),
{
    if str_eq(tool, "shell") {
        let raw = match json_str_field(input, "command") {
            Some(c) => c,
            None => String::new(),
        };
        let cmd = to_lowercase(raw.as_str());
        let deny = deny_list_exec();
        match find_first_hit(&deny, cmd.as_str()) {
            Some(k) => {
                let mut m = owned("命中硬拒绝规则: ");
                append(&mut m, deny[k]);
                return Decision::Deny(m);
            },
            None => {},
        }
        let ask = ask_patterns_exec();
        match find_first_hit(&ask, cmd.as_str()) {
            Some(k) => {
                let mut m = owned("命令包含危险特征 `");
                let p = trim_str(ask[k]);
                append(&mut m, p.as_str());
                append(&mut m, "`");
                return Decision::Ask(m);
            },
            None => {},
        }
        let hints = sensitive_path_hints_exec();
        match find_first_hit(&hints, cmd.as_str()) {
            Some(k) => {
                let mut m = owned("命令涉及敏感路径 `");
                append(&mut m, hints[k]);
                append(&mut m, "`");
                return Decision::Ask(m);
            },
            None => {},
        }
        return Decision::Allow;
    }
    if str_eq(tool, "write_file") || str_eq(tool, "edit_file") {
        let lower = to_lowercase(resolved);
        let hints = sensitive_path_hints_exec();
        match find_first_hit(&hints, lower.as_str()) {
            Some(k) => {
                let mut m = owned("写入敏感路径 `");
                append(&mut m, hints[k]);
                append(&mut m, "`");
                return Decision::Ask(m);
            },
            None => {},
        }
        if !inside {
            let mut m = owned("在工作区之外写文件: ");
            append(&mut m, resolved);
            return Decision::Ask(m);
        }
        return Decision::Allow;
    }
    if str_eq(tool, "remove_worktree") {
        return Decision::Ask(owned("删除 git worktree"));
    }
    if str_starts_with(tool, "mcp__") {
        let mut m = owned("调用外部 MCP 工具 ");
        append(&mut m, tool);
        return Decision::Ask(m);
    }
    Decision::Allow
}

// ---------------------------------------------------------------------------
// Approval memory
// ---------------------------------------------------------------------------

/// The memory key of a shell command: `shell:` and its first word lower-cased
/// (`*` when there is none).
pub open spec fn shell_pattern(input: Seq<char>) -> Seq<char> {
    let cmd = match spec_json_str_field(input, "command"@) {
        Some(c) => c,
        None => Seq::empty(),
    };
    "shell:"@ + spec_to_lowercase(
        match first_word(cmd) {
            Some(w) => w,
            None => "*"@,
        },
    )
}

/// The directory part of a file tool's key: the lower-cased parent of its
/// `path` (`*` for a path without parent, and when there is no path).
pub open spec fn file_pattern(input: Seq<char>) -> Seq<char> {
    let path = match spec_json_str_field(input, "path"@) {
        Some(p) => p,
        None => "*"@,
    };
    match spec_path_parent(path) {
        Some(p) => spec_to_lowercase(p),
        None => "*"@,
    }
}

/// The memory key under which an "always allow" is remembered: shell commands
/// by their program (first word), file writes by their parent directory, other
/// tools by their name.
pub fn pattern_for(tool: &str, input: &str) -> (r: String)
    ensures
        tool@ == "shell"@ ==> r@ == shell_pattern(input@),
        (tool@ == "write_file"@ || tool@ == "edit_file"@) ==> r@ == tool@ + ":"@ + file_pattern(input@),
        !(tool@ == "shell"@ || tool@ == "write_file"@ || tool@ == "edit_file"@) ==> r@ == tool@,
{
    proof {
        reveal_strlit("shell");
        reveal_strlit("write_file");
        reveal_strlit("edit_file");
    }
    if str_eq(tool, "shell") {
        let cmd = match json_str_field(input, "command") {
            Some(c) => c,
            None => String::new(),
        };
        let first = match first_word_of(cmd.as_str()) {
            Some(w) => w,
            None => owned("*"),
        };
        let mut r = owned("shell:");
        let low = to_lowercase(first.as_str());
        append(&mut r, low.as_str());
        return r;
    }
    if str_eq(tool, "write_file") || str_eq(tool, "edit_file") {
        let path = match json_str_field(input, "path") {
            Some(c) => c,
            None => owned("*"),
        };
        let parent = match path_parent(path.as_str()) {
            Some(p) => to_lowercase(p.as_str()),
            None => owned("*"),
        };
        let mut r = owned(tool);
        append(&mut r, ":");
        let ghost pre = r@;
        append(&mut r, parent.as_str());
        assert(r@.subrange(0, pre.len() as int) =~= pre);
        return r;
    }
    owned(tool)
}

/// The memory key recorded when the user allows a call always.
pub fn approval_key(tool: &str, input: &str) -> (r: String)
    ensures
        tool@ == "shell"@ ==> r@ == shell_pattern(input@),
        (tool@ == "write_file"@ || tool@ == "edit_file"@) ==> r@ == tool@ + ":"@ + file_pattern(input@),
        !(tool@ == "shell"@ || tool@ == "write_file"@ || tool@ == "edit_file"@) ==> r@ == tool@,
{
    pattern_for(tool, input)
}

/// The keys the user allowed always in one session.
pub struct ApprovalMemory {
    pub keys: Vec<String>,
}

impl ApprovalMemory {
    /// The remembered keys.
    pub open spec fn key_set(&self) -> Set<Seq<char>> {
        crate::text::views(self.keys@).to_set()
    }

    /// An empty memory.
    pub fn new() -> (r: ApprovalMemory)
        ensures
            r.key_set() == Set::<Seq<char>>::empty(),
    {
        let r = ApprovalMemory { keys: Vec::new() };
        assert(r.key_set() =~= Set::<Seq<char>>::empty());
        r
    }

    /// Whether `key` is remembered.
    pub fn contains(&self, key: &str) -> (r: bool)
        ensures
            r == self.key_set().contains(key@),
    {
        let mut i: usize = 0;
        while i < self.keys.len()
            invariant
                i <= self.keys@.len(),
                forall|q: int| 0 <= q < i ==> #[trigger] self.keys@[q]@ != key@,
            decreases self.keys@.len() - i,
        {
            if str_eq(self.keys[i].as_str(), key) {
                assert(crate::text::views(self.keys@)[i as int] == key@);
                return true;
            }
            i += 1;
        }
        proof {
            if self.key_set().contains(key@) {
                let q = choose|q: int|
                    0 <= q < self.keys@.len() && #[trigger] crate::text::views(self.keys@)[q]
                        == key@;
                assert(self.keys@[q]@ == key@);
            }
        }
        false
    }

    /// Remembers `key`.
    pub fn insert(&mut self, key: String)
        ensures
            final(self).key_set() == old(self).key_set().insert(key@),
    {
        let ghost k = key@;
        self.keys.push(key);
        let ghost v0 = crate::text::views(old(self).keys@);
        let ghost v1 = crate::text::views(self.keys@);
        assert(v1 =~= v0.push(k));
        assert forall|x: Seq<char>| v1.to_set().contains(x) <==> v0.to_set().insert(k).contains(
            x,
        ) by {
            if v1.contains(x) {
                let i = choose|i: int| 0 <= i < v1.len() && v1[i] == x;
                if i < v0.len() {
                    assert(v0[i] == x);
                    assert(v0.contains(x));
                }
            }
            if v0.contains(x) {
                let i = choose|i: int| 0 <= i < v0.len() && v0[i] == x;
                assert(v1[i] == x);
            }
            if x == k {
                assert(v1[v0.len() as int] == x);
            }
        }
        assert(self.key_set() =~= old(self).key_set().insert(k));
    }
}

/// The outcome of asking about a call with memory key `key`: whether it is
/// allowed, and the remembered keys afterwards. A remembered key is allowed
/// without regard to the answer; otherwise the answer decides, and "allow
/// always" remembers the key.
pub open spec fn ask_outcome(keys: Set<Seq<char>>, key: Seq<char>, answer: ApprovalDecision) -> (
    bool,
    Set<Seq<char>>,
) {
    if keys.contains(key) {
        (true, keys)
    } else {
        match answer {
            ApprovalDecision::AllowOnce => (true, keys),
            ApprovalDecision::AllowAlways => (true, keys.insert(key)),
            ApprovalDecision::Deny => (false, keys),
        }
    }
}

/// The final verdict of a call the rules want to ask about, given the user's
/// answer `answer` (unused when the key is remembered).
pub fn resolve_ask(memory: &mut ApprovalMemory, key: String, answer: ApprovalDecision) -> (r:
    Decision)
    ensures
        final(memory).key_set() == ask_outcome(old(memory).key_set(), key@, answer).1,
        ask_outcome(old(memory).key_set(), key@, answer).0 ==> r is Allow,
        !ask_outcome(old(memory).key_set(), key@, answer).0 ==> (r matches Decision::Deny(m)
            && m@ == "用户拒绝"@),
{
    if memory.contains(key.as_str()) {
        return Decision::Allow;
    }
    match answer {
        ApprovalDecision::AllowOnce => Decision::Allow,
        ApprovalDecision::AllowAlways => {
            memory.insert(key);
            Decision::Allow
        },
        ApprovalDecision::Deny => Decision::Deny(owned("用户拒绝")),
    }
}

/// Once the user allows a key always, every later call with that key is
/// allowed without asking, whatever would be answered, and the memory only
/// grows.
pub proof fn law_always_is_remembered(
    keys: Set<Seq<char>>,
    key: Seq<char>,
    later: ApprovalDecision,
)
    ensures
        ({
            let after = ask_outcome(keys, key, ApprovalDecision::AllowAlways).1;
            &&& ask_outcome(after, key, later).0
            &&& ask_outcome(after, key, later).1 == after
            &&& keys.subset_of(after)
        }),
{
}

} // verus!
