//! What the file tools compute around their reads and writes: the size limit
//! of a read, the single-match edit, and the reports they give back.

use vstd::prelude::*;

use crate::paths::{path_is_absolute, spec_is_absolute, spec_path_join};
use crate::text::{append, byte_len, chars_of, decimal, decimal_string, find_chars, first_match, join, join_strings, lemma_first_match, matches_at, matches_at_exec, owned, seq_contains, str_byte_len, string_of_range, take_chars_of, views};

verus! {

/// The most characters a read gives back.
pub const READ_LIMIT_CHARS: usize = 60_000;

/// The most paths a glob lists.
pub const GLOB_MATCH_LIMIT: usize = 500;

/// What a read gives back of a file's text: the text, or its first
/// characters with a note when it is too long.
pub open spec fn limited_text(text: Seq<char>) -> Seq<char> {
    if text.len() > READ_LIMIT_CHARS {
        text.take(READ_LIMIT_CHARS as int) + "\n... [文件过大已截断]"@
    } else {
        text
    }
}

/// What a read gives back of a file's text.
pub fn limit_file_text(text: &str) -> (r: String)
    ensures
        r@ == limited_text(text@),
{
    if text.unicode_len() > READ_LIMIT_CHARS {
        let mut s = take_chars_of(text, READ_LIMIT_CHARS);
        append(&mut s, "\n... [文件过大已截断]");
        s
    } else {
        owned(text)
    }
}

/// The report of a write of `content` to `path`.
pub fn write_report(path: &str, content: &str) -> (r: String)
    ensures
        r@ == "已写入 "@ + path@ + " ("@ + decimal(byte_len(content@)) + " 字节)"@,
{
    let mut s = owned("已写入 ");
    append(&mut s, path);
    append(&mut s, " (");
    let n = str_byte_len(content);
    let d = decimal_string(n as u64);
    append(&mut s, d.as_str());
    append(&mut s, " 字节)");
    s
}

/// The report of an edit of `path`.
pub fn edit_report(path: &str) -> (r: String)
    ensures
        r@ == "已编辑 "@ + path@,
{
    let mut s = owned("已编辑 ");
    append(&mut s, path);
    s
}

/// The number of non-overlapping occurrences of `pat` in `hay`, found from
/// the left (std `str::matches(pat).count()`).
pub open spec fn count_matches(hay: Seq<char>, pat: Seq<char>) -> nat
    recommends
        pat.len() > 0,
    decreases hay.len(),
{
    if pat.len() == 0 || hay.len() < pat.len() {
        0
    } else if matches_at(hay, pat, 0) {
        1 + count_matches(hay.skip(pat.len() as int), pat)
    } else {
        count_matches(hay.drop_first(), pat)
    }
}

/// Occurrences are counted only where `pat` occurs.
pub proof fn lemma_count_matches(hay: Seq<char>, pat: Seq<char>)
    requires
        pat.len() > 0,
    ensures
        count_matches(hay, pat) > 0 <==> seq_contains(hay, pat),
    decreases hay.len(),
{
    if hay.len() < pat.len() {
        assert forall|i: int| !#[trigger] matches_at(hay, pat, i) by {}
    } else if matches_at(hay, pat, 0) {
    } else {
        lemma_count_matches(hay.drop_first(), pat);
        if seq_contains(hay, pat) {
            let i = choose|i: int| #[trigger] matches_at(hay, pat, i);
            assert(i > 0);
            assert(hay.drop_first().subrange(i - 1, i - 1 + pat.len()) =~= hay.subrange(i, i + pat.len()));
            assert(matches_at(hay.drop_first(), pat, i - 1));
        }
        if seq_contains(hay.drop_first(), pat) {
            let i = choose|i: int| #[trigger] matches_at(hay.drop_first(), pat, i);
            assert(hay.drop_first().subrange(i, i + pat.len()) =~= hay.subrange(i + 1, i + 1 + pat.len()));
            assert(matches_at(hay, pat, i + 1));
        }
    }
}

fn count_occurrences(hay: &Vec<char>, pat: &Vec<char>) -> (r: usize)
    requires
        pat@.len() > 0,
    ensures
        r == count_matches(hay@, pat@),
{
    let mut i: usize = 0;
    let mut c: usize = 0;
    assert(hay@.skip(0) =~= hay@);
    while pat.len() <= hay.len() - i
        invariant
            i <= hay@.len(),
            pat@.len() > 0,
            c <= i,
            count_matches(hay@, pat@) == c + count_matches(hay@.skip(i as int), pat@),
        decreases hay@.len() - i,
    {
        let ghost rest = hay@.skip(i as int);
        if matches_at_exec(hay, pat, i) {
            assert(rest.subrange(0, pat@.len() as int) =~= hay@.subrange(i as int, i + pat@.len()));
            assert(rest.skip(pat@.len() as int) =~= hay@.skip(i + pat@.len()));
            c += 1;
            i += pat.len();
        } else {
            assert(rest.subrange(0, pat@.len() as int) =~= hay@.subrange(i as int, i + pat@.len()));
            assert(rest.drop_first() =~= hay@.skip(i + 1));
            i += 1;
        }
    }
    c
}

/// The text of a file after replacing `old` by `new` where it occurs once;
/// otherwise the reason nothing was changed.
pub open spec fn edited(content: Seq<char>, old: Seq<char>, new: Seq<char>) -> Result<Seq<char>, Seq<char>> {
    let n = count_matches(content, old);
    if n == 0 {
        Err("未找到 old_string，未做修改"@)
    } else if n > 1 {
        Err("old_string 匹配到 "@ + decimal(n) + " 处，需提供更唯一的上下文"@)
    } else {
        let i = first_match(content, old);
        Ok(content.take(i) + new + content.skip(i + old.len()))
    }
}

/// An edit needs a non-empty text to replace.
pub fn check_old_string(old: &str) -> (r: Result<(), String>)
    ensures
        old@.len() == 0 ==> (r matches Err(m) && m@ == "old_string 不能为空"@),
        old@.len() > 0 ==> r is Ok,
{
    if old.unicode_len() == 0 {
        Err(owned("old_string 不能为空"))
    } else {
        Ok(())
    }
}

/// Replaces the single occurrence of `old` in `content` by `new`.
pub fn edit_content(content: &str, old: &str, new: &str) -> (r: Result<String, String>)
    requires
        old@.len() > 0,
    ensures
        match edited(content@, old@, new@) {
            Ok(t) => r matches Ok(x) && x@ == t,
            Err(m) => r matches Err(x) && x@ == m,
        },
{
    let hay = chars_of(content);
    let pat = chars_of(old);
    let n = count_occurrences(&hay, &pat);
    if n == 0 {
        return Err(owned("未找到 old_string，未做修改"));
    }
    if n > 1 {
        let mut m = owned("old_string 匹配到 ");
        let d = decimal_string(n as u64);
        append(&mut m, d.as_str());
        append(&mut m, " 处，需提供更唯一的上下文");
        return Err(m);
    }
    proof {
        lemma_count_matches(hay@, pat@);
    }
    match find_chars(&hay, &pat) {
        Some(i) => {
            proof {
                lemma_first_match(hay@, pat@, i as int);
            }
            let hl = hay.len();
            assert(i + pat@.len() <= hl);
            let end = i + pat.len();
            let mut out = string_of_range(&hay, 0, i);
            append(&mut out, new);
            let tail = string_of_range(&hay, end, hay.len());
            append(&mut out, tail.as_str());
            assert(hay@.subrange(0, i as int) =~= content@.take(i as int));
            assert(hay@.subrange(i + pat@.len(), hay@.len() as int) =~= content@.skip(i + old@.len()));
            Ok(out)
        },
        None => Err(owned("未找到 old_string，未做修改")),
    }
}

/// The pattern a glob walks: an absolute pattern as it is, a relative one
/// under `cwd`; an empty pattern is refused.
pub fn glob_pattern(pattern: &str, cwd: &str) -> (r: Result<String, String>)
    ensures
        pattern@.len() == 0 ==> (r matches Err(m) && m@ == "pattern 不能为空"@),
        pattern@.len() > 0 && spec_is_absolute(pattern@) ==> (r matches Ok(p) && p@ == pattern@),
        pattern@.len() > 0 && !spec_is_absolute(pattern@) ==> (r matches Ok(p) && p@ == spec_path_join(
            cwd@,
            pattern@,
        )),
{
    if pattern.unicode_len() == 0 {
        return Err(owned("pattern 不能为空"));
    }
    if path_is_absolute(pattern) {
        Ok(owned(pattern))
    } else {
        Ok(crate::paths::path_join(cwd, pattern))
    }
}

/// The report of a glob: the paths found, one per line, or a note that
/// there were none.
pub fn glob_report(found: &Vec<String>) -> (r: String)
    ensures
        found@.len() == 0 ==> r@ == "(无匹配文件)"@,
        found@.len() > 0 ==> r@ == join(views(found@), "\n"@),
{
    if found.len() == 0 {
        owned("(无匹配文件)")
    } else {
        join_strings(found, "\n")
    }
}

} // verus!
