//! Worktree isolation: `git worktree add` gives a parallel task its own
//! directory and branch. Names are checked so that they cannot leave the
//! worktrees directory; the commands and the refusal to drop uncommitted work
//! are decided here, the shell runs them.

use regex::Regex;
use vstd::prelude::*;

use crate::paths::{path_exists, path_join, spec_path_join};

use crate::text::{all_ws, append, is_blank, owned, replace_chars_of, replace_chars, str_eq};

verus! {

/// The pattern a worktree name must match.
pub const WORKTREE_NAME_RE: &'static str = "^[A-Za-z0-9._-]{1,64}$";

/// A character allowed in a worktree name: an ASCII letter or digit, `.`, `_`
/// or `-`.
pub open spec fn name_char_ok(c: char) -> bool {
    ||| 'A' <= c <= 'Z'
    ||| 'a' <= c <= 'z'
    ||| '0' <= c <= '9'
    ||| c == '.'
    ||| c == '_'
    ||| c == '-'
}

/// A text that `WORKTREE_NAME_RE` matches: 1 to 64 allowed characters.
pub open spec fn matches_name_pattern(s: Seq<char>) -> bool {
    &&& 1 <= s.len() <= 64
    &&& forall|i: int| 0 <= i < s.len() ==> name_char_ok(#[trigger] s[i])
}

/// A valid worktree name: it matches the pattern and is neither `.` nor
/// `..`, so `.worktrees/<name>` is a directory strictly inside `.worktrees`.
pub open spec fn valid_worktree_name(s: Seq<char>) -> bool {
    &&& matches_name_pattern(s)
    &&& s != seq!['.']
    &&& s != seq!['.', '.']
}

/// `regex` `Regex::new(WORKTREE_NAME_RE)` then `Regex::is_match(name)`.
/// By the regex syntax the crate documents, the anchored pattern matches
/// exactly the texts of 1 to 64 characters taken from the ASCII class
/// `[A-Za-z0-9._-]` (`$` without multi-line mode matches only at the end of
/// the text); the pattern is valid, so `new` succeeds.
#[verifier::external_body]
fn name_matches_pattern(name: &str) -> (r: bool)
    ensures
        r == matches_name_pattern(name@),
{
    match Regex::new(WORKTREE_NAME_RE) {
        Ok(re) => re.is_match(name),
        Err(_) => false,
    }
}

/// Whether `name` is a valid worktree name.
pub fn is_valid_worktree_name(name: &str) -> (r: bool)
    ensures
        r == valid_worktree_name(name@),
{
    proof {
        reveal_strlit(".");
        reveal_strlit("..");
        assert("."@ =~= seq!['.']);
        assert(".."@ =~= seq!['.', '.']);
    }
    let m = name_matches_pattern(name);
    let one = str_eq(name, ".");
    let two = str_eq(name, "..");
    m && !one && !two
}

/// Creates and removes worktrees under `<workspace>/.worktrees`.
pub struct WorktreeManager {
    pub workspace: String,
}

/// `git worktree add "<path>" -b wt/<name>`.
pub open spec fn create_command_text(path: Seq<char>, name: Seq<char>) -> Seq<char> {
    "git worktree add \""@ + path + "\" -b wt/"@ + name
}

/// `git -C "<path>" status --porcelain`.
pub open spec fn status_command_text(path: Seq<char>) -> Seq<char> {
    "git -C \""@ + path + "\" status --porcelain"@
}

/// `git worktree remove <--force or nothing> "<path>"`.
pub open spec fn remove_command_text(path: Seq<char>, discard: bool) -> Seq<char> {
    "git worktree remove "@ + (if discard {
        "--force"@
    } else {
        ""@
    }) + " \""@ + path + "\""@
}

/// The refusal to drop uncommitted changes.
pub open spec fn dirty_refusal_text(name: Seq<char>, status: Seq<char>) -> Seq<char> {
    "worktree "@ + name + " 存在未提交改动，拒绝删除 (如需强制请设 discard_changes=true):\n"@
        + status
}

/// The rejection of an invalid name.
pub open spec fn invalid_name_text(name: Seq<char>) -> Seq<char> {
    "非法 worktree 名称: "@ + name
}

/// One audit line: `{"ts":"<ts>","event":"<event with " as '>"}`.
pub open spec fn audit_line_text(ts: Seq<char>, event: Seq<char>) -> Seq<char> {
    "{\"ts\":\""@ + ts + "\",\"event\":\""@ + replace_chars(event, seq!['"'], '\'') + "\"}"@
}

impl WorktreeManager {
    /// A manager for the worktrees of `workspace`.
    pub fn new(workspace: String) -> (r: WorktreeManager)
        ensures
            r.workspace == workspace,
    {
        WorktreeManager { workspace }
    }

    /// The directory that holds the worktrees.
    pub fn worktrees_dir(&self) -> (r: String)
        ensures
            r@ == spec_path_join(self.workspace@, ".worktrees"@),
    {
        path_join(self.workspace.as_str(), ".worktrees")
    }

    /// The path of an existing worktree: `None` for an invalid name, whatever is
    /// on disk.
    pub fn path_of(&self, name: &str) -> (r: Option<String>)
        ensures
            !valid_worktree_name(name@) ==> r is None,
            r matches Some(p) ==> p@ == spec_path_join(spec_path_join(self.workspace@, ".worktrees"@), name@),
    {
        if !is_valid_worktree_name(name) {
            return None;
        }
        let dir = self.worktrees_dir();
        let p = path_join(dir.as_str(), name);
        if path_exists(p.as_str()) {
            Some(p)
        } else {
            None
        }
    }

    /// The command that creates worktree `name` at `path`, or the rejection of
    /// an invalid name.
    pub fn create_command(&self, name: &str, path: &str) -> (r: Result<String, String>)
        ensures
            valid_worktree_name(name@) ==> (r matches Ok(c) && c@ == create_command_text(
                path@,
                name@,
            )),
            !valid_worktree_name(name@) ==> (r matches Err(e) && e@ == invalid_name_text(name@)),
    {
        if !is_valid_worktree_name(name) {
            let mut e = owned("非法 worktree 名称: ");
            append(&mut e, name);
            return Err(e);
        }
        let mut c = owned("git worktree add \"");
        append(&mut c, path);
        append(&mut c, "\" -b wt/");
        append(&mut c, name);
        Ok(c)
    }

    /// The command that lists the uncommitted changes of the worktree at `path`.
    pub fn status_command(&self, path: &str) -> (r: String)
        ensures
            r@ == status_command_text(path@),
    {
        let mut c = owned("git -C \"");
        append(&mut c, path);
        append(&mut c, "\" status --porcelain");
        c
    }

    /// The removal of worktree `name` at `path`, given the output of the status
    /// command: refused for an invalid name, refused when there are uncommitted
    /// changes and `discard` is off, else the removal command (forced when
    /// `discard` is on).
    pub fn remove_command(&self, name: &str, path: &str, status_out: &str, discard: bool) -> (r:
        Result<String, String>)
        ensures
            !valid_worktree_name(name@) ==> (r matches Err(e) && e@ == invalid_name_text(name@)),
            valid_worktree_name(name@) && !all_ws(status_out@) && !discard ==> (r matches Err(e)
                && e@ == dirty_refusal_text(name@, status_out@)),
            valid_worktree_name(name@) && (all_ws(status_out@) || discard) ==> (r matches Ok(c)
                && c@ == remove_command_text(path@, discard)),
    {
        if !is_valid_worktree_name(name) {
            let mut e = owned("非法 worktree 名称: ");
            append(&mut e, name);
            return Err(e);
        }
        if !is_blank(status_out) && !discard {
            let mut e = owned("worktree ");
            append(&mut e, name);
            append(&mut e, " 存在未提交改动，拒绝删除 (如需强制请设 discard_changes=true):\n");
            append(&mut e, status_out);
            return Err(e);
        }
        let mut c = owned("git worktree remove ");
        if discard {
            append(&mut c, "--force");
        } else {
            append(&mut c, "");
        }
        append(&mut c, " \"");
        append(&mut c, path);
        append(&mut c, "\"");
        Ok(c)
    }

    /// The audit line recording `event` at time `ts`; double quotes in the event
    /// become single quotes.
    pub fn audit_line(&self, ts: &str, event: &str) -> (r: String)
        ensures
            r@ == audit_line_text(ts@, event@),
    {
        let mut c = owned("{\"ts\":\"");
        append(&mut c, ts);
        append(&mut c, "\",\"event\":\"");
        let quote = vec!['"'];
        let cleaned = replace_chars_of(event, &quote, '\'');
        assert(quote@ =~= seq!['"']);
        append(&mut c, cleaned.as_str());
        append(&mut c, "\"}");
        c
    }
}

/// The answer to a worktree creation, from the output of the create command
/// and whether it succeeded.
pub fn created_result(path: &str, out: &str, ok: bool) -> (r: Result<String, String>)
    ensures
        ok ==> (r matches Ok(m) && m@ == "已创建 worktree: "@ + path@),
        !ok ==> (r matches Err(m) && m@ == "创建 worktree 失败: "@ + out@),
{
    if ok {
        let mut m = owned("已创建 worktree: ");
        append(&mut m, path);
        Ok(m)
    } else {
        let mut m = owned("创建 worktree 失败: ");
        append(&mut m, out);
        Err(m)
    }
}

/// The answer to a worktree removal, from the output of the remove command
/// and whether it succeeded.
pub fn removed_result(name: &str, out: &str, ok: bool) -> (r: Result<String, String>)
    ensures
        ok ==> (r matches Ok(m) && m@ == "已删除 worktree "@ + name@),
        !ok ==> (r matches Err(m) && m@ == "删除 worktree 失败: "@ + out@),
{
    if ok {
        let mut m = owned("已删除 worktree ");
        append(&mut m, name);
        Ok(m)
    } else {
        let mut m = owned("删除 worktree 失败: ");
        append(&mut m, out);
        Err(m)
    }
}

} // verus!
