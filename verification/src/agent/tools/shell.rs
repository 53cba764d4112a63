//! What the shell tool makes of a finished command: its two outputs, success
//! and exit code merged into one text, cut to a limit.

use vstd::prelude::*;

use crate::constants::SHELL_OUTPUT_LIMIT;
use crate::llm::stream::{spec_utf8_lossy, utf8_lossy};
use crate::json::{json_str_field, spec_json_str_field};
use crate::text::{all_ws, append, int_string, is_blank, owned, signed_decimal, take_chars_of, trim, trim_str};

verus! {

/// The stdout and stderr that are not blank, stderr after a `[stderr]`
/// line when both are there.
pub open spec fn merged_streams(stdout: Seq<char>, stderr: Seq<char>) -> Seq<char> {
    let out = if all_ws(stdout) {
        Seq::empty()
    } else {
        stdout
    };
    if all_ws(stderr) {
        out
    } else if out.len() > 0 {
        out + "\n[stderr]\n"@ + stderr
    } else {
        stderr
    }
}

/// The text the shell tool gives back for a finished command: the merged
/// streams, after an `[exit code: …]` line when it failed (`-1` without a
/// code), cut after the limit with a note, and a fixed note when nothing is
/// left.
pub open spec fn command_output(stdout: Seq<char>, stderr: Seq<char>, success: bool, code: Option<i32>) -> Seq<char> {
    let merged = merged_streams(stdout, stderr);
    let marked = if success {
        merged
    } else {
        "[exit code: "@ + signed_decimal(
            match code {
                Some(c) => c as int,
                None => -1,
            },
        ) + "]\n"@ + merged
    };
    let cut = if marked.len() > SHELL_OUTPUT_LIMIT {
        marked.take(SHELL_OUTPUT_LIMIT as int) + "\n... [输出超过 30000 字符已截断]"@
    } else {
        marked
    };
    if all_ws(cut) {
        "(命令执行完成，无输出)"@
    } else {
        cut
    }
}

/// The text the tool gives back for the raw outputs of a finished command:
/// each decoded as UTF-8 (invalid sequences replaced), then merged.
pub fn process_output(stdout: &Vec<u8>, stderr: &Vec<u8>, success: bool, code: Option<i32>) -> (r: String)
    ensures
        r@ == command_output(spec_utf8_lossy(stdout@), spec_utf8_lossy(stderr@), success, code),
{
    let out = utf8_lossy(stdout);
    let err = utf8_lossy(stderr);
    combine_output(out.as_str(), err.as_str(), success, code)
}

/// Merges the outputs of a finished command into the text the tool gives
/// back.
pub fn combine_output(stdout: &str, stderr: &str, success: bool, code: Option<i32>) -> (r: String)
    ensures
        r@ == command_output(stdout@, stderr@, success, code),
{
    let mut combined = String::new();
    if !is_blank(stdout) {
        append(&mut combined, stdout);
    }
    if !is_blank(stderr) {
        if combined.unicode_len() > 0 {
            append(&mut combined, "\n[stderr]\n");
        }
        append(&mut combined, stderr);
    }
    assert(combined@ == merged_streams(stdout@, stderr@));
    if !success {
        let c: i64 = match code {
            Some(c) => c as i64,
            None => -1,
        };
        let mut m = owned("[exit code: ");
        let d = int_string(c);
        append(&mut m, d.as_str());
        append(&mut m, "]\n");
        append(&mut m, combined.as_str());
        combined = m;
    }
    if combined.unicode_len() > SHELL_OUTPUT_LIMIT {
        let mut t = take_chars_of(combined.as_str(), SHELL_OUTPUT_LIMIT);
        append(&mut t, "\n... [输出超过 30000 字符已截断]");
        combined = t;
    }
    if is_blank(combined.as_str()) {
        combined = owned("(命令执行完成，无输出)");
    }
    combined
}

/// The note for a command that ran past the time limit.
pub fn timeout_note() -> (r: String)
    ensures
        r@ == "命令超时 (120s) 已终止"@,
{
    owned("命令超时 (120s) 已终止")
}

/// The command of a shell call: its `command` field, trimmed; an empty one is
/// refused.
pub fn shell_command(input: &str) -> (r: Result<String, String>)
    ensures
        ({
            let c = trim(
                match spec_json_str_field(input@, "command"@) {
                    Some(c) => c,
                    None => Seq::empty(),
                },
            );
            if c.len() == 0 {
                r matches Err(m) && m@ == "command 不能为空"@
            } else {
                r matches Ok(x) && x@ == c
            }
        }),
{
    let raw = match json_str_field(input, "command") {
        Some(c) => c,
        None => String::new(),
    };
    let c = trim_str(raw.as_str());
    if c.unicode_len() == 0 {
        return Err(owned("command 不能为空"));
    }
    Ok(c)
}

} // verus!
