//! Long-term memory: items kept across sessions, their index in the system
//! prompt, the choice of items relevant to a prompt (by the model, or by
//! keywords when it fails), and the texts the store writes.

use vstd::prelude::*;

use crate::constants::{MEMORY_CONSOLIDATE_THRESHOLD, MEMORY_INJECT_MAX};
use crate::json::{get_str, json_at, json_len, spec_json_at, spec_json_len, str_at_key};
use crate::llm::types::{blocks_view, join_texts, text_parts, ChatRequest, ContentBlock, Message, ThinkingLevel};
use crate::text::{
    append, join, join_strings, owned, replace_chars, replace_chars_of, seq_contains, spec_to_lowercase,
    split_words, str_contains, to_lowercase, trim, trim_str, views, words,
};

verus! {

/// A remembered fact.
#[derive(Debug, Clone)]
pub struct MemoryItem {
    pub name: String,
    pub description: String,
    /// `user`, `feedback`, `project` or `reference`.
    pub mtype: String,
    pub content: String,
}

/// The value of a remembered fact.
pub struct MemView {
    pub name: Seq<char>,
    pub description: Seq<char>,
    pub mtype: Seq<char>,
    pub content: Seq<char>,
}

impl View for MemoryItem {
    type V = MemView;

    open spec fn view(&self) -> MemView {
        MemView { name: self.name@, description: self.description@, mtype: self.mtype@, content: self.content@ }
    }
}

/// The values of a list of items.
pub open spec fn mems_view(v: Seq<MemoryItem>) -> Seq<MemView> {
    v.map_values(|m: MemoryItem| m@)
}

impl MemoryItem {
    /// A copy.
    pub fn duplicate(&self) -> (r: MemoryItem)
        ensures
            r@ == self@,
    {
        MemoryItem {
            name: self.name.clone(),
            description: self.description.clone(),
            mtype: self.mtype.clone(),
            content: self.content.clone(),
        }
    }
}

/// The index line of an item.
pub open spec fn index_line(m: MemView) -> Seq<char> {
    "- ["@ + m.mtype + "] "@ + m.name + ": "@ + m.description
}

/// The memory index for the system prompt: nothing without items, else a
/// heading and one line per item.
pub open spec fn index_text(items: Seq<MemView>) -> Seq<char> {
    if items.len() == 0 {
        Seq::empty()
    } else {
        join(seq!["已保存的长期记忆 (需要时可参考):"@] + items.map_values(|m: MemView| index_line(m)), "\n"@)
    }
}

/// The memory index for the system prompt.
pub fn index_block(items: &Vec<MemoryItem>) -> (r: String)
    ensures
        r@ == index_text(mems_view(items@)),
{
    if items.len() == 0 {
        return String::new();
    }
    let mut lines: Vec<String> = Vec::new();
    lines.push(owned("已保存的长期记忆 (需要时可参考):"));
    let ghost mv = mems_view(items@);
    let mut i: usize = 0;
    while i < items.len()
        invariant
            i <= items@.len(),
            mv == mems_view(items@),
            views(lines@) == seq!["已保存的长期记忆 (需要时可参考):"@] + mv.take(i as int).map_values(|m: MemView| index_line(m)),
        decreases items@.len() - i,
    {
        let m = &items[i];
        let mut l = owned("- [");
        append(&mut l, m.mtype.as_str());
        append(&mut l, "] ");
        append(&mut l, m.name.as_str());
        append(&mut l, ": ");
        append(&mut l, m.description.as_str());
        let ghost prev = lines@;
        lines.push(l);
        assert(views(lines@) =~= views(prev).push(index_line(mv[i as int])));
        assert(views(lines@) =~= seq!["已保存的长期记忆 (需要时可参考):"@] + mv.take(i + 1).map_values(|m: MemView| index_line(m)));
        i += 1;
    }
    assert(mv.take(items@.len() as int) =~= mv);
    join_strings(&lines, "\n")
}

// ---------------------------------------------------------------------------
// Choosing by keywords
// ---------------------------------------------------------------------------

/// How many of `ws` (counted with repeats) occur in `hay`.
pub open spec fn hits(ws: Seq<Seq<char>>, hay: Seq<char>) -> nat
    decreases ws.len(),
{
    if ws.len() == 0 {
        0
    } else {
        hits(ws.drop_last(), hay) + if seq_contains(hay, ws.last()) {
            1nat
        } else {
            0nat
        }
    }
}

/// The score of an item for a query: how many of the query's lower-cased
/// words occur in its lower-cased name, description and content.
pub open spec fn score(m: MemView, query: Seq<char>) -> nat {
    hits(
        words(spec_to_lowercase(query)),
        spec_to_lowercase(m.name + " "@ + m.description + " "@ + m.content),
    )
}

/// Puts a scored item into a list ordered by decreasing score, after every
/// item scoring at least as much (so equal scores keep their order).
pub open spec fn insert_by_score(s: Seq<(nat, MemView)>, x: (nat, MemView)) -> Seq<(nat, MemView)>
    decreases s.len(),
{
    if s.len() == 0 {
        seq![x]
    } else if s[0].0 >= x.0 {
        seq![s[0]] + insert_by_score(s.drop_first(), x)
    } else {
        seq![x] + s
    }
}

/// The scored items in decreasing score, a stable sort.
pub open spec fn ranked(s: Seq<(nat, MemView)>) -> Seq<(nat, MemView)>
    decreases s.len(),
{
    if s.len() == 0 {
        Seq::empty()
    } else {
        insert_by_score(ranked(s.drop_last()), s.last())
    }
}

/// The items with a positive score, with their scores, in order.
pub open spec fn scored(items: Seq<MemView>, query: Seq<char>) -> Seq<(nat, MemView)>
    decreases items.len(),
{
    if items.len() == 0 {
        Seq::empty()
    } else {
        let rest = scored(items.drop_last(), query);
        let s = score(items.last(), query);
        if s > 0 {
            rest.push((s, items.last()))
        } else {
            rest
        }
    }
}

/// The items chosen by keywords: the best-scoring ones (positive scores,
/// equal scores in their order), at most `MEMORY_INJECT_MAX`.
pub open spec fn keyword_choice(items: Seq<MemView>, query: Seq<char>) -> Seq<MemView> {
    let r = ranked(scored(items, query));
    let k = if r.len() > MEMORY_INJECT_MAX {
        MEMORY_INJECT_MAX as int
    } else {
        r.len() as int
    };
    r.take(k).map_values(|p: (nat, MemView)| p.1)
}

fn count_hits(ws: &Vec<String>, hay: &str) -> (r: usize)
    ensures
        r == hits(views(ws@), hay@),
{
    let mut n: usize = 0;
    let mut i: usize = 0;
    while i < ws.len()
        invariant
            i <= ws@.len(),
            n <= i,
            n == hits(views(ws@).take(i as int), hay@),
        decreases ws@.len() - i,
    {
        assert(views(ws@).take(i + 1).drop_last() =~= views(ws@).take(i as int));
        if str_contains(hay, ws[i].as_str()) {
            n += 1;
        }
        i += 1;
    }
    assert(views(ws@).take(ws@.len() as int) =~= views(ws@));
    n
}

/// The values of scored items.
pub open spec fn scored_view(v: Seq<(usize, MemoryItem)>) -> Seq<(nat, MemView)> {
    v.map_values(|p: (usize, MemoryItem)| (p.0 as nat, p.1@))
}

fn insert_scored(v: &mut Vec<(usize, MemoryItem)>, x: (usize, MemoryItem))
    ensures
        scored_view(final(v)@) == insert_by_score(scored_view(old(v)@), (x.0 as nat, x.1@)),
{
    let ghost xv = (x.0 as nat, x.1@);
    let ghost o = scored_view(v@);
    let mut p: usize = 0;
    assert(o.skip(0) =~= o);
    assert(o.take(0) =~= Seq::<(nat, MemView)>::empty());
    while p < v.len() && v[p].0 >= x.0
        invariant
            p <= v@.len(),
            o == scored_view(v@),
            xv == (x.0 as nat, x.1@),
            forall|k: int| 0 <= k < p ==> (#[trigger] o[k]).0 >= xv.0,
            insert_by_score(o, xv) == o.take(p as int) + insert_by_score(o.skip(p as int), xv),
        decreases v@.len() - p,
    {
        proof {
            let t = o.skip(p as int);
            assert(o[p as int].0 == v@[p as int].0 as nat);
            assert(t[0] == o[p as int]);
            assert(t[0].0 >= xv.0);
            assert(insert_by_score(t, xv) == seq![t[0]] + insert_by_score(t.drop_first(), xv));
            assert(t.drop_first() =~= o.skip(p + 1));
            assert(o.take(p + 1) =~= o.take(p as int) + seq![t[0]]);
            assert(o.take(p as int) + (seq![t[0]] + insert_by_score(t.drop_first(), xv)) =~= o.take(p + 1)
                + insert_by_score(o.skip(p + 1), xv));
        }
        p += 1;
    }
    proof {
        let t = o.skip(p as int);
        if p < o.len() {
            assert(o[p as int].0 == v@[p as int].0 as nat);
            assert(t[0] == o[p as int]);
            assert(insert_by_score(t, xv) == seq![xv] + t);
        } else {
            assert(t =~= Seq::<(nat, MemView)>::empty());
        }
    }
    v.insert(p, x);
    assert(scored_view(v@) =~= o.take(p as int) + (seq![xv] + o.skip(p as int)));
}

/// The items chosen for a prompt by keywords.
pub fn select_by_keywords(items: &Vec<MemoryItem>, query: &str) -> (r: Vec<MemoryItem>)
    ensures
        mems_view(r@) == keyword_choice(mems_view(items@), query@),
{
    let q = to_lowercase(query);
    let ws = split_words(q.as_str());
    let ghost mv = mems_view(items@);
    let mut sorted: Vec<(usize, MemoryItem)> = Vec::new();
    let mut i: usize = 0;
    while i < items.len()
        invariant
            i <= items@.len(),
            mv == mems_view(items@),
            views(ws@) == words(spec_to_lowercase(query@)),
            scored_view(sorted@) == ranked(scored(mv.take(i as int), query@)),
        decreases items@.len() - i,
    {
        let m = &items[i];
        let mut hay = owned(m.name.as_str());
        append(&mut hay, " ");
        append(&mut hay, m.description.as_str());
        append(&mut hay, " ");
        append(&mut hay, m.content.as_str());
        let low = to_lowercase(hay.as_str());
        let s = count_hits(&ws, low.as_str());
        proof {
            assert(mv.take(i + 1).drop_last() =~= mv.take(i as int));
            assert(mv.take(i + 1).last() == m@);
        }
        proof {
            assert(s == score(m@, query@));
            let prev = scored(mv.take(i as int), query@);
            if s > 0 {
                assert(scored(mv.take(i + 1), query@) == prev.push((s as nat, m@)));
                assert(prev.push((s as nat, m@)).drop_last() =~= prev);
            } else {
                assert(scored(mv.take(i + 1), query@) == prev);
            }
        }
        if s > 0 {
            let d = m.duplicate();
            insert_scored(&mut sorted, (s, d));
        }
        i += 1;
    }
    assert(mv.take(items@.len() as int) =~= mv);
    let ghost rk = ranked(scored(mv, query@));
    let k = if sorted.len() > MEMORY_INJECT_MAX {
        MEMORY_INJECT_MAX
    } else {
        sorted.len()
    };
    let mut out: Vec<MemoryItem> = Vec::new();
    let mut j: usize = 0;
    while j < k
        invariant
            j <= k <= sorted@.len(),
            scored_view(sorted@) == rk,
            mems_view(out@) == rk.take(j as int).map_values(|p: (nat, MemView)| p.1),
        decreases k - j,
    {
        let ghost prev = out@;
        out.push(sorted[j].1.duplicate());
        assert(mems_view(out@) =~= mems_view(prev).push(rk[j as int].1));
        assert(mems_view(out@) =~= rk.take(j + 1).map_values(|p: (nat, MemView)| p.1));
        j += 1;
    }
    out
}

} // verus!

verus! {

/// The block of relevant memories put before a prompt: none without items.
pub open spec fn injection_text(items: Seq<MemView>) -> Option<Seq<char>> {
    if items.len() == 0 {
        None
    } else {
        Some(join(seq!["[相关长期记忆]"@] + items.map_values(|m: MemView| "## "@ + m.name + "\n"@ + m.content), "\n\n"@))
    }
}

/// The block of relevant memories put before a prompt.
pub fn render_injection(items: &Vec<MemoryItem>) -> (r: Option<String>)
    ensures
        match injection_text(mems_view(items@)) {
            Some(t) => r matches Some(x) && x@ == t,
            None => r is None,
        },
{
    if items.len() == 0 {
        return None;
    }
    let ghost mv = mems_view(items@);
    let mut parts: Vec<String> = Vec::new();
    parts.push(owned("[相关长期记忆]"));
    let mut i: usize = 0;
    while i < items.len()
        invariant
            i <= items@.len(),
            mv == mems_view(items@),
            views(parts@) == seq!["[相关长期记忆]"@] + mv.take(i as int).map_values(
                |m: MemView| "## "@ + m.name + "\n"@ + m.content,
            ),
        decreases items@.len() - i,
    {
        let m = &items[i];
        let mut p = owned("## ");
        append(&mut p, m.name.as_str());
        append(&mut p, "\n");
        append(&mut p, m.content.as_str());
        let ghost prev = parts@;
        parts.push(p);
        assert(views(parts@) =~= views(prev).push("## "@ + mv[i as int].name + "\n"@ + mv[i as int].content));
        assert(views(parts@) =~= seq!["[相关长期记忆]"@] + mv.take(i + 1).map_values(
            |m: MemView| "## "@ + m.name + "\n"@ + m.content,
        ));
        i += 1;
    }
    assert(mv.take(items@.len() as int) =~= mv);
    Some(join_strings(&parts, "\n\n"))
}

/// A name usable as a file name: `/`, `\` and spaces become `_`.
pub open spec fn safe_file_name(name: Seq<char>) -> Seq<char> {
    replace_chars(name, seq!['/', '\\', ' '], '_')
}

/// A name usable as a file name.
pub fn safe_name(name: &str) -> (r: String)
    ensures
        r@ == safe_file_name(name@),
{
    let bad: Vec<char> = vec!['/', '\\', ' '];
    assert(bad@ =~= seq!['/', '\\', ' ']);
    replace_chars_of(name, &bad, '_')
}

/// The markdown file of an item.
pub fn memory_file_name(name: &str) -> (r: String)
    ensures
        r@ == safe_file_name(name@) + ".md"@,
{
    let mut s = safe_name(name);
    append(&mut s, ".md");
    s
}

/// The markdown copy of an item: front matter, then its content.
pub fn memory_markdown(m: &MemoryItem) -> (r: String)
    ensures
        r@ == "---\nname: "@ + m.name@ + "\ndescription: "@ + m.description@ + "\ntype: "@ + m.mtype@ + "\n---\n"@
            + m.content@ + "\n"@,
{
    let mut s = owned("---\nname: ");
    append(&mut s, m.name.as_str());
    append(&mut s, "\ndescription: ");
    append(&mut s, m.description.as_str());
    append(&mut s, "\ntype: ");
    append(&mut s, m.mtype.as_str());
    append(&mut s, "\n---\n");
    append(&mut s, m.content.as_str());
    append(&mut s, "\n");
    s
}

/// The lines of the index file, one per item.
pub open spec fn index_file_lines(items: Seq<MemView>) -> Seq<char>
    decreases items.len(),
{
    if items.len() == 0 {
        Seq::empty()
    } else {
        let m = items.last();
        index_file_lines(items.drop_last()) + "- ["@ + m.name + "]("@ + safe_file_name(m.name) + ".md) — "@
            + m.description + "\n"@
    }
}

/// The index file of the memory folder.
pub fn index_file_text(items: &Vec<MemoryItem>) -> (r: String)
    ensures
        r@ == "# 记忆索引\n\n"@ + index_file_lines(mems_view(items@)),
{
    let ghost mv = mems_view(items@);
    let mut s = owned("# 记忆索引\n\n");
    let mut i: usize = 0;
    while i < items.len()
        invariant
            i <= items@.len(),
            mv == mems_view(items@),
            s@ == "# 记忆索引\n\n"@ + index_file_lines(mv.take(i as int)),
        decreases items@.len() - i,
    {
        let m = &items[i];
        assert(mv.take(i + 1).drop_last() =~= mv.take(i as int));
        append(&mut s, "- [");
        append(&mut s, m.name.as_str());
        append(&mut s, "](");
        let f = safe_name(m.name.as_str());
        append(&mut s, f.as_str());
        append(&mut s, ".md) — ");
        append(&mut s, m.description.as_str());
        append(&mut s, "\n");
        i += 1;
    }
    assert(mv.take(items@.len() as int) =~= mv);
    s
}

/// Whether there are enough items to merge them.
pub fn needs_consolidation(count: usize) -> (r: bool)
    ensures
        r == (count >= MEMORY_CONSOLIDATE_THRESHOLD),
{
    count >= MEMORY_CONSOLIDATE_THRESHOLD
}

/// The position of the last `c` in `s`, if any.
pub open spec fn last_index_of(s: Seq<char>, c: char) -> Option<int>
    decreases s.len(),
{
    if s.len() == 0 {
        None
    } else if s.last() == c {
        Some(s.len() - 1)
    } else {
        last_index_of(s.drop_last(), c)
    }
}

/// The position of the first `c` in `s`, if any.
pub open spec fn first_index_of(s: Seq<char>, c: char) -> Option<int>
    decreases s.len(),
{
    if s.len() == 0 {
        None
    } else {
        match first_index_of(s.drop_last(), c) {
            Some(i) => Some(i),
            None => if s.last() == c {
                Some(s.len() - 1)
            } else {
                None
            },
        }
    }
}

/// The JSON array in a model's answer: from the first `[` to the last `]`,
/// or `[]`.
pub open spec fn json_array_in(text: Seq<char>) -> Seq<char> {
    match (first_index_of(text, '['), last_index_of(text, ']')) {
        (Some(a), Some(b)) => if b > a {
            text.subrange(a, b + 1)
        } else {
            "[]"@
        },
        _ => "[]"@,
    }
}

proof fn lemma_index_of_bounds(s: Seq<char>, c: char)
    ensures
        first_index_of(s, c) matches Some(i) ==> 0 <= i < s.len(),
        last_index_of(s, c) matches Some(i) ==> 0 <= i < s.len(),
    decreases s.len(),
{
    if s.len() > 0 {
        lemma_index_of_bounds(s.drop_last(), c);
    }
}

/// The JSON array in a model's answer.
pub fn extract_json_array(text: &str) -> (r: String)
    ensures
        r@ == json_array_in(text@),
{
    let v = crate::text::chars_of(text);
    proof {
        lemma_index_of_bounds(text@, '[');
        lemma_index_of_bounds(text@, ']');
    }
    let mut first: Option<usize> = None;
    let mut i: usize = 0;
    while i < v.len()
        invariant
            i <= v@.len(),
            v@ == text@,
            match first {
                Some(k) => first_index_of(text@.take(i as int), '[') == Some(k as int),
                None => first_index_of(text@.take(i as int), '[') is None,
            },
        decreases v@.len() - i,
    {
        assert(text@.take(i + 1).drop_last() =~= text@.take(i as int));
        if first.is_none() && v[i] == '[' {
            first = Some(i);
        }
        i += 1;
    }
    assert(text@.take(v@.len() as int) =~= text@);
    let mut last: Option<usize> = None;
    let mut j: usize = v.len();
    while j > 0
        invariant
            j <= v@.len(),
            v@ == text@,
            last_index_of(text@, ']') == match last {
                Some(k) => Some(k as int),
                None => last_index_of(text@.take(j as int), ']'),
            },
            last is Some ==> last->0 < v@.len(),
        decreases j,
    {
        assert(text@.take(j as int).drop_last() =~= text@.take(j - 1));
        if last.is_none() && v[j - 1] == ']' {
            last = Some(j - 1);
        }
        j -= 1;
    }
    match (first, last) {
        (Some(a), Some(b)) => {
            if b > a {
                let r = crate::text::string_of_range(&v, a, b + 1);
                r
            } else {
                owned("[]")
            }
        },
        _ => owned("[]"),
    }
}

/// The item an element of an extracted array gives: none without a name
/// (after trimming); description and content default to empty, the type to
/// `reference`.
pub open spec fn item_of(elem: Seq<char>) -> Option<MemView> {
    let name = trim(
        match str_at_key(elem, "name"@) {
            Some(n) => n,
            None => Seq::empty(),
        },
    );
    if name.len() == 0 {
        None
    } else {
        Some(
            MemView {
                name,
                description: match str_at_key(elem, "description"@) {
                    Some(d) => d,
                    None => Seq::empty(),
                },
                mtype: match str_at_key(elem, "type"@) {
                    Some(t) => t,
                    None => "reference"@,
                },
                content: match str_at_key(elem, "content"@) {
                    Some(c) => c,
                    None => Seq::empty(),
                },
            },
        )
    }
}

/// The items of the first `k` elements of an extracted array.
pub open spec fn items_of(arr: Seq<char>, k: nat) -> Seq<MemView>
    decreases k,
{
    if k == 0 {
        Seq::empty()
    } else {
        let rest = items_of(arr, (k - 1) as nat);
        match spec_json_at(arr, k - 1) {
            Some(e) => match item_of(e) {
                Some(m) => rest.push(m),
                None => rest,
            },
            None => rest,
        }
    }
}

fn str_or(o: Option<String>, d: &str) -> (r: String)
    ensures
        r@ == match o {
            Some(s) => s@,
            None => d@,
        },
{
    match o {
        Some(s) => s,
        None => owned(d),
    }
}

/// The items of an extracted JSON array, or none when it is not one.
pub fn parse_memory_items(json: &str) -> (r: Option<Vec<MemoryItem>>)
    ensures
        match spec_json_len(json@) {
            None => r is None,
            Some(n) => r matches Some(v) && mems_view(v@) == items_of(json@, n),
        },
{
    let n = match json_len(json) {
        Some(n) => n,
        None => return None,
    };
    proof {
        reveal_strlit("");
    }
    let mut out: Vec<MemoryItem> = Vec::new();
    let mut i: usize = 0;
    while i < n
        invariant
            i <= n,
            ""@ == Seq::<char>::empty(),
            mems_view(out@) == items_of(json@, i as nat),
        decreases n - i,
    {
        match json_at(json, i) {
            Some(e) => {
                let name = trim_str(str_or(get_str(e.as_str(), "name"), "").as_str());
                if name.unicode_len() > 0 {
                    let m = MemoryItem {
                        name,
                        description: str_or(get_str(e.as_str(), "description"), ""),
                        mtype: str_or(get_str(e.as_str(), "type"), "reference"),
                        content: str_or(get_str(e.as_str(), "content"), ""),
                    };
                    let ghost prev = out@;
                    out.push(m);
                    assert(mems_view(out@) =~= mems_view(prev).push(item_of(e@)->0));
                }
            },
            None => {},
        }
        i += 1;
    }
    Some(out)
}

} // verus!

verus! {

// ---------------------------------------------------------------------------
// Choosing with the model, extracting and merging
// ---------------------------------------------------------------------------

/// The instructions of the query that picks relevant memories.
pub const SELECT_SYSTEM: &'static str = "根据用户当前输入，从记忆目录中挑选最相关的条目 (最多 5 个)。只返回名称，每行一个，不要解释。无相关则返回空。";

/// The instructions of the query that extracts memories from a conversation.
pub const EXTRACT_SYSTEM: &'static str = "你是记忆提取器。从对话中找出值得跨会话长期保存的事实，例如: 用户偏好、项目约定、稳定的环境信息、重要反馈。
只提取明确、稳定、可复用的信息，不要提取一次性的临时内容。
以 JSON 数组返回，每项为 {\"name\",\"description\",\"type\",\"content\"}，type 取值 user/feedback/project/reference。
若无值得保存的内容，返回 []。不要输出多余文字。";

/// The instructions of the query that merges memories.
pub const CONSOLIDATE_SYSTEM: &'static str = "你是记忆整理器。下面是现有记忆 (格式: name|type|description|content)。
合并语义重复的条目，删除过时或矛盾的信息，保持每条聚焦单一主题。
以 JSON 数组返回整理后的完整记忆集合，每项 {\"name\",\"description\",\"type\",\"content\"}。不要输出多余文字。";

/// A character with ASCII upper case folded to lower case.
pub open spec fn ascii_lower(c: char) -> char {
    if 'A' <= c && c <= 'Z' {
        ((c as u32) + 32) as char
    } else {
        c
    }
}

/// The character with ASCII upper case folded to lower case (as std
/// `char::to_ascii_lowercase`).
fn ascii_lower_char(c: char) -> (r: char)
    ensures
        r == ascii_lower(c),
{
    if 'A' <= c && c <= 'Z' {
        let b: u8 = (c as u8) + 32;
        assert(b == (c as u32) + 32);
        b as char
    } else {
        c
    }
}

/// The texts are equal up to ASCII case (std `eq_ignore_ascii_case`).
pub open spec fn eq_ignore_case(a: Seq<char>, b: Seq<char>) -> bool {
    a.len() == b.len() && forall|i: int| 0 <= i < a.len() ==> ascii_lower(#[trigger] a[i]) == ascii_lower(b[i])
}

fn eq_ignore_case_exec(a: &str, b: &str) -> (r: bool)
    ensures
        r == eq_ignore_case(a@, b@),
{
    let av = crate::text::chars_of(a);
    let bv = crate::text::chars_of(b);
    if av.len() != bv.len() {
        return false;
    }
    let mut i: usize = 0;
    while i < av.len()
        invariant
            i <= av@.len(),
            av@ == a@,
            bv@ == b@,
            av@.len() == bv@.len(),
            forall|k: int| 0 <= k < i ==> ascii_lower(#[trigger] a@[k]) == ascii_lower(b@[k]),
        decreases av@.len() - i,
    {
        if ascii_lower_char(av[i]) != ascii_lower_char(bv[i]) {
            return false;
        }
        i += 1;
    }
    true
}

/// The catalogue line of an item for the choosing query.
pub open spec fn catalog_entry(m: MemView) -> Seq<char> {
    m.name + ": "@ + m.description
}

/// The prompt of the choosing query.
pub open spec fn selection_prompt(items: Seq<MemView>, query: Seq<char>) -> Seq<char> {
    "记忆目录:\n"@ + join(items.map_values(|m: MemView| catalog_entry(m)), "\n"@) + "\n\n用户输入:\n"@ + query
}

/// The query that asks the model which memories are relevant to `query`;
/// none without memories.
pub fn selection_request(items: &Vec<MemoryItem>, model: &str, query: &str) -> (r: Option<ChatRequest>)
    ensures
        items@.len() == 0 ==> r is None,
        items@.len() > 0 ==> (r matches Some(req) && req.model@ == model@ && req.system@ == SELECT_SYSTEM@
            && req.messages@.len() == 1 && req.messages@[0]@ == Message::user_text_spec(
            selection_prompt(mems_view(items@), query@),
        ) && req.tools@.len() == 0 && req.max_tokens == 512 && req.thinking == ThinkingLevel::Off),
{
    if items.len() == 0 {
        return None;
    }
    let ghost mv = mems_view(items@);
    let mut lines: Vec<String> = Vec::new();
    let mut i: usize = 0;
    while i < items.len()
        invariant
            i <= items@.len(),
            mv == mems_view(items@),
            views(lines@) == mv.take(i as int).map_values(|m: MemView| catalog_entry(m)),
        decreases items@.len() - i,
    {
        let mut l = owned(items[i].name.as_str());
        append(&mut l, ": ");
        append(&mut l, items[i].description.as_str());
        let ghost prev = lines@;
        lines.push(l);
        assert(views(lines@) =~= views(prev).push(catalog_entry(mv[i as int])));
        assert(views(lines@) =~= mv.take(i + 1).map_values(|m: MemView| catalog_entry(m)));
        i += 1;
    }
    assert(mv.take(items@.len() as int) =~= mv);
    let catalog = join_strings(&lines, "\n");
    let mut p = owned("记忆目录:\n");
    append(&mut p, catalog.as_str());
    append(&mut p, "\n\n用户输入:\n");
    append(&mut p, query);
    let msg = Message::user_text(p);
    Some(ChatRequest {
        model: owned(model),
        system: owned(SELECT_SYSTEM),
        messages: vec![msg],
        tools: Vec::new(),
        max_tokens: 512,
        thinking: ThinkingLevel::Off,
    })
}

/// The names in the model's answer: its lines trimmed, leading `-` removed
/// and trimmed again, empty ones dropped.
pub open spec fn reply_names(lines: Seq<Seq<char>>) -> Seq<Seq<char>>
    decreases lines.len(),
{
    if lines.len() == 0 {
        Seq::empty()
    } else {
        let rest = reply_names(lines.drop_last());
        let n = trim(crate::text::strip_leading(trim(lines.last()), seq!['-']));
        if n.len() > 0 {
            rest.push(n)
        } else {
            rest
        }
    }
}

/// The names in the model's answer.
pub fn names_in_reply(text: &str) -> (r: Vec<String>)
    ensures
        views(r@) == reply_names(crate::text::text_lines(text@)),
{
    let lines = crate::text::lines_of(text);
    let ghost lv = views(lines@);
    let dash: Vec<char> = vec!['-'];
    assert(dash@ =~= seq!['-']);
    let mut out: Vec<String> = Vec::new();
    let mut i: usize = 0;
    while i < lines.len()
        invariant
            i <= lines@.len(),
            lv == views(lines@),
            dash@ == seq!['-'],
            views(out@) == reply_names(lv.take(i as int)),
        decreases lines@.len() - i,
    {
        proof {
            assert(lv.take(i + 1).drop_last() =~= lv.take(i as int));
            assert(lv.take(i + 1).last() == lines@[i as int]@);
        }
        let t = trim_str(lines[i].as_str());
        let s = crate::text::strip_leading_of(t.as_str(), &dash);
        let n = trim_str(s.as_str());
        if n.unicode_len() > 0 {
            let ghost prev = out@;
            out.push(n);
            assert(views(out@) =~= views(prev).push(n@));
        }
        i += 1;
    }
    assert(lv.take(lines@.len() as int) =~= lv);
    out
}

/// Whether one of `names` is `n` up to ASCII case.
pub open spec fn named_in(names: Seq<Seq<char>>, n: Seq<char>) -> bool {
    exists|i: int| 0 <= i < names.len() && eq_ignore_case(#[trigger] names[i], n)
}

/// The items the model named, in their order.
pub open spec fn named_items(items: Seq<MemView>, names: Seq<Seq<char>>) -> Seq<MemView> {
    items.filter(|m: MemView| named_in(names, m.name))
}

/// The items chosen from the model's answer: those it named (at most
/// `MEMORY_INJECT_MAX`), or, when it named none, those chosen by keywords.
pub open spec fn model_choice(items: Seq<MemView>, names: Seq<Seq<char>>, query: Seq<char>) -> Seq<MemView> {
    let sel = named_items(items, names);
    if sel.len() == 0 {
        keyword_choice(items, query)
    } else if sel.len() > MEMORY_INJECT_MAX {
        sel.take(MEMORY_INJECT_MAX as int)
    } else {
        sel
    }
}

fn is_named(names: &Vec<String>, n: &str) -> (r: bool)
    ensures
        r == named_in(views(names@), n@),
{
    let mut i: usize = 0;
    while i < names.len()
        invariant
            i <= names@.len(),
            forall|k: int| 0 <= k < i ==> !eq_ignore_case(#[trigger] views(names@)[k], n@),
        decreases names@.len() - i,
    {
        if eq_ignore_case_exec(names[i].as_str(), n) {
            assert(eq_ignore_case(views(names@)[i as int], n@));
            return true;
        }
        i += 1;
    }
    false
}

/// The items chosen from the names in the model's answer.
pub fn select_named(items: &Vec<MemoryItem>, names: &Vec<String>, query: &str) -> (r: Vec<MemoryItem>)
    ensures
        mems_view(r@) == model_choice(mems_view(items@), views(names@), query@),
{
    let ghost mv = mems_view(items@);
    let ghost pred = |m: MemView| named_in(views(names@), m.name);
    let mut sel: Vec<MemoryItem> = Vec::new();
    let mut i: usize = 0;
    while i < items.len()
        invariant
            i <= items@.len(),
            mv == mems_view(items@),
            pred == (|m: MemView| named_in(views(names@), m.name)),
            mems_view(sel@) == mv.take(i as int).filter(pred),
        decreases items@.len() - i,
    {
        let ghost prev = sel@;
        if is_named(names, items[i].name.as_str()) {
            sel.push(items[i].duplicate());
            assert(mems_view(sel@) =~= mems_view(prev).push(mv[i as int]));
        }
        proof {
            assert(mv.take(i + 1).drop_last() =~= mv.take(i as int));
            reveal(Seq::filter);
        }
        i += 1;
    }
    assert(mv.take(items@.len() as int) =~= mv);
    if sel.len() == 0 {
        return select_by_keywords(items, query);
    }
    if sel.len() > MEMORY_INJECT_MAX {
        let ghost sv = mems_view(sel@);
        sel.truncate(MEMORY_INJECT_MAX);
        assert(mems_view(sel@) =~= sv.take(MEMORY_INJECT_MAX as int));
    }
    sel
}

/// The prompt of the extracting query.
pub open spec fn extraction_prompt(items: Seq<MemView>, recent: Seq<char>) -> Seq<char> {
    "已存在的记忆名称: ["@ + join(items.map_values(|m: MemView| m.name), ", "@) + "]\n\n最近对话:\n"@ + recent
}

/// The query that asks the model for new memories in `recent`, naming the
/// existing ones.
pub fn extraction_request(items: &Vec<MemoryItem>, model: &str, recent: &str) -> (r: ChatRequest)
    ensures
        r.model@ == model@,
        r.system@ == EXTRACT_SYSTEM@,
        r.messages@.len() == 1,
        r.messages@[0]@ == Message::user_text_spec(extraction_prompt(mems_view(items@), recent@)),
        r.tools@.len() == 0,
        r.max_tokens == 1024,
        r.thinking == ThinkingLevel::Off,
{
    let ghost mv = mems_view(items@);
    let mut names: Vec<String> = Vec::new();
    let mut i: usize = 0;
    while i < items.len()
        invariant
            i <= items@.len(),
            mv == mems_view(items@),
            views(names@) == mv.take(i as int).map_values(|m: MemView| m.name),
        decreases items@.len() - i,
    {
        let ghost prev = names@;
        names.push(items[i].name.clone());
        assert(views(names@) =~= views(prev).push(mv[i as int].name));
        assert(views(names@) =~= mv.take(i + 1).map_values(|m: MemView| m.name));
        i += 1;
    }
    assert(mv.take(items@.len() as int) =~= mv);
    let existing = join_strings(&names, ", ");
    let mut p = owned("已存在的记忆名称: [");
    append(&mut p, existing.as_str());
    append(&mut p, "]\n\n最近对话:\n");
    append(&mut p, recent);
    ChatRequest {
        model: owned(model),
        system: owned(EXTRACT_SYSTEM),
        messages: vec![Message::user_text(p)],
        tools: Vec::new(),
        max_tokens: 1024,
        thinking: ThinkingLevel::Off,
    }
}

/// The dump line of an item for the merging query.
pub open spec fn dump_line(m: MemView) -> Seq<char> {
    m.name + "|"@ + m.mtype + "|"@ + m.description + "|"@ + m.content
}

/// The query that asks the model to merge the memories; none below the
/// threshold.
pub fn consolidation_request(items: &Vec<MemoryItem>, model: &str) -> (r: Option<ChatRequest>)
    ensures
        items@.len() < MEMORY_CONSOLIDATE_THRESHOLD ==> r is None,
        items@.len() >= MEMORY_CONSOLIDATE_THRESHOLD ==> (r matches Some(req) && req.model@ == model@
            && req.system@ == CONSOLIDATE_SYSTEM@ && req.messages@.len() == 1 && req.messages@[0]@
            == Message::user_text_spec(join(mems_view(items@).map_values(|m: MemView| dump_line(m)), "\n"@))
            && req.tools@.len() == 0 && req.max_tokens == 4096 && req.thinking == ThinkingLevel::Off),
{
    if items.len() < MEMORY_CONSOLIDATE_THRESHOLD {
        return None;
    }
    let ghost mv = mems_view(items@);
    let mut lines: Vec<String> = Vec::new();
    let mut i: usize = 0;
    while i < items.len()
        invariant
            i <= items@.len(),
            mv == mems_view(items@),
            views(lines@) == mv.take(i as int).map_values(|m: MemView| dump_line(m)),
        decreases items@.len() - i,
    {
        let m = &items[i];
        let mut l = owned(m.name.as_str());
        append(&mut l, "|");
        append(&mut l, m.mtype.as_str());
        append(&mut l, "|");
        append(&mut l, m.description.as_str());
        append(&mut l, "|");
        append(&mut l, m.content.as_str());
        let ghost prev = lines@;
        lines.push(l);
        assert(views(lines@) =~= views(prev).push(dump_line(mv[i as int])));
        assert(views(lines@) =~= mv.take(i + 1).map_values(|m: MemView| dump_line(m)));
        i += 1;
    }
    assert(mv.take(items@.len() as int) =~= mv);
    let dump = join_strings(&lines, "\n");
    Some(ChatRequest {
        model: owned(model),
        system: owned(CONSOLIDATE_SYSTEM),
        messages: vec![Message::user_text(dump)],
        tools: Vec::new(),
        max_tokens: 4096,
        thinking: ThinkingLevel::Off,
    })
}

/// The text of a model's reply: its text blocks joined by newlines.
pub open spec fn reply_text(reply: Seq<ContentBlock>) -> Seq<char> {
    join(text_parts(blocks_view(reply)), seq!['\n'])
}

/// The memories relevant to `query`, from the model's reply to the choosing
/// query, or, when the query failed (`None`), by keywords.
pub fn choose_relevant(items: &Vec<MemoryItem>, reply: Option<&Vec<ContentBlock>>, query: &str) -> (r: Vec<MemoryItem>)
    ensures
        match reply {
            Some(b) => mems_view(r@) == model_choice(
                mems_view(items@),
                reply_names(crate::text::text_lines(reply_text(b@))),
                query@,
            ),
            None => mems_view(r@) == keyword_choice(mems_view(items@), query@),
        },
{
    match reply {
        Some(b) => {
            let text = join_texts(b);
            let names = names_in_reply(text.as_str());
            select_named(items, &names, query)
        },
        None => select_by_keywords(items, query),
    }
}

/// The memories in a reply to the extracting or merging query: the items of
/// the JSON array in its text, none when that is not an array.
pub fn reply_items(reply: &Vec<ContentBlock>) -> (r: Option<Vec<MemoryItem>>)
    ensures
        match spec_json_len(json_array_in(reply_text(reply@))) {
            None => r is None,
            Some(n) => r matches Some(v) && mems_view(v@) == items_of(json_array_in(reply_text(reply@)), n),
        },
{
    let text = join_texts(reply);
    let arr = extract_json_array(text.as_str());
    parse_memory_items(arr.as_str())
}

/// What a reply does to the stored memories.
#[derive(Debug)]
pub enum MemoryUpdate {
    /// Nothing changes.
    Keep,
    /// These items are stored (each replacing one of its name).
    Add(Vec<MemoryItem>),
    /// All memories are cleared, then these items are stored.
    Replace(Vec<MemoryItem>),
}

/// The memories of a reply, as the spec of `reply_items` gives them.
pub open spec fn reply_mems(reply: Seq<ContentBlock>) -> Option<Seq<MemView>> {
    match spec_json_len(json_array_in(reply_text(reply))) {
        None => None,
        Some(n) => Some(items_of(json_array_in(reply_text(reply)), n)),
    }
}

/// After a turn, the extracting reply adds the items it lists (none when its
/// text holds no `[...]`); a bracketed text that is not a JSON array changes
/// nothing.
pub fn extraction_update(reply: &Vec<ContentBlock>) -> (r: MemoryUpdate)
    ensures
        match reply_mems(reply@) {
            None => r is Keep,
            Some(items) => r matches MemoryUpdate::Add(v) && mems_view(v@) == items,
        },
{
    match reply_items(reply) {
        None => MemoryUpdate::Keep,
        Some(items) => MemoryUpdate::Add(items),
    }
}

/// The merging reply replaces all memories with the items it lists; a reply
/// that lists none, or whose bracketed text is not a JSON array, keeps the
/// memories as they are.
pub fn consolidation_update(reply: &Vec<ContentBlock>) -> (r: MemoryUpdate)
    ensures
        match reply_mems(reply@) {
            Some(items) if items.len() > 0 => r matches MemoryUpdate::Replace(v) && mems_view(v@) == items,
            _ => r is Keep,
        },
{
    match reply_items(reply) {
        None => MemoryUpdate::Keep,
        Some(items) => {
            if items.len() == 0 {
                MemoryUpdate::Keep
            } else {
                MemoryUpdate::Replace(items)
            }
        },
    }
}

/// Every element of an extracted array that has a non-blank `name` gives
/// an item: named by the trimmed name, and keeping exactly the element's
/// `description`, `content` and `type` strings when it has them.
pub proof fn law_extracted_items_keep_their_fields(arr: Seq<char>, n: nat, k: int, e: Seq<char>, name: Seq<char>)
    requires
        0 <= k < n,
        spec_json_at(arr, k) == Some(e),
        str_at_key(e, "name"@) == Some(name),
        trim(name).len() > 0,
    ensures
        exists|j: int|
            0 <= j < items_of(arr, n).len() && #[trigger] items_of(arr, n)[j].name == trim(name) && (str_at_key(
                e,
                "description"@,
            ) matches Some(d) ==> items_of(arr, n)[j].description == d) && (str_at_key(e, "content"@) matches Some(c)
                ==> items_of(arr, n)[j].content == c) && (str_at_key(e, "type"@) matches Some(ty) ==> items_of(
                arr,
                n,
            )[j].mtype == ty),
    decreases n,
{
    let n1 = (n - 1) as nat;
    let rest = items_of(arr, n1);
    if k < n1 {
        law_extracted_items_keep_their_fields(arr, n1, k, e, name);
        let j = choose|j: int|
            0 <= j < rest.len() && #[trigger] rest[j].name == trim(name) && (str_at_key(e, "description"@) matches Some(
                d,
            ) ==> rest[j].description == d) && (str_at_key(e, "content"@) matches Some(c) ==> rest[j].content == c)
                && (str_at_key(e, "type"@) matches Some(ty) ==> rest[j].mtype == ty);
        assert(items_of(arr, n)[j] == rest[j]);
        assert(items_of(arr, n).len() >= rest.len());
        assert(items_of(arr, n)[j].name == trim(name));
    } else {
        assert(item_of(e) is Some);
        let j = rest.len() as int;
        assert(items_of(arr, n) == rest.push(item_of(e)->0));
        assert(items_of(arr, n)[j] == item_of(e)->0);
        assert(items_of(arr, n)[j].name == trim(name));
    }
}

} // verus!
