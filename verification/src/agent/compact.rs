//! Context compaction, cheapest first:
//! L3 spill oversized tool results of the last message to disk,
//! L1 snip the middle of a long history (never separating a tool result from
//! its call), L2 shorten all but the most recent tool results,
//! L4 replace the history by a model-written summary when the estimate nears
//! the context window, and an emergency variant that keeps the tail.

use vstd::prelude::*;

use crate::constants::{
    COMPACT_RESERVE_TOKENS, KEEP_RECENT_TOOL_RESULTS, REACTIVE_KEEP_TAIL, SNIP_KEEP_HEAD,
    SNIP_KEEP_TAIL, SNIP_THRESHOLD_MSGS, TOOL_RESULT_BUDGET_BYTES, TOOL_RESULT_PREVIEW_CHARS,
};
use crate::constants::MAX_OUTPUT_TOKENS;
use crate::llm::types::{blocks_view, estimate_messages_tokens, join_texts, messages_tokens, msgs_view, text_parts, BlockView, ChatRequest, ContentBlock, LlmError, Message, MessageView, Role, ThinkingLevel};
use crate::text::{
    all_ws, append, byte_len, decimal, decimal_string, is_blank, join, owned, str_byte_len,
    take_chars, take_chars_of,
};

verus! {

// ---------------------------------------------------------------------------
// Shared predicates
// ---------------------------------------------------------------------------

/// The message begins with a tool result.
pub open spec fn starts_with_result(m: MessageView) -> bool {
    m.content.len() > 0 && m.content[0] is ToolResult
}

/// Whether the message begins with a tool result.
pub fn starts_with_tool_result(m: &Message) -> (r: bool)
    ensures
        r == starts_with_result(m@),
{
    if m.content.len() == 0 {
        return false;
    }
    match &m.content[0] {
        ContentBlock::ToolResult { .. } => true,
        _ => false,
    }
}

// ---------------------------------------------------------------------------
// L1: snip
// ---------------------------------------------------------------------------

/// The first index at or after `i` where no tool result begins a message (or the
/// end).
pub open spec fn cut_from(ms: Seq<MessageView>, i: int) -> int
    decreases ms.len() - i,
{
    if 0 <= i < ms.len() && starts_with_result(ms[i]) {
        cut_from(ms, i + 1)
    } else {
        i
    }
}

/// The notice that replaces `removed` snipped messages.
pub open spec fn snip_marker(removed: nat) -> MessageView {
    MessageView {
        role: Role::Assistant,
        content: seq![
            BlockView::Text(
                "[... 省略了 "@ + decimal(removed) + " 条较早的消息以节省上下文 ...]"@,
            ),
        ],
    }
}

/// The history after snipping: above `SNIP_THRESHOLD_MSGS` messages, keep the
/// first `SNIP_KEEP_HEAD`, a notice, and the last `SNIP_KEEP_TAIL` moved
/// forward past any leading tool results.
pub open spec fn snipped(ms: Seq<MessageView>) -> Seq<MessageView> {
    if ms.len() <= SNIP_THRESHOLD_MSGS {
        ms
    } else {
        let cut = cut_from(ms, ms.len() - SNIP_KEEP_TAIL);
        ms.take(SNIP_KEEP_HEAD as int) + seq![snip_marker((cut - SNIP_KEEP_HEAD) as nat)]
            + ms.skip(cut)
    }
}

proof fn lemma_cut_from(ms: Seq<MessageView>, i: int)
    requires
        0 <= i <= ms.len(),
    ensures
        i <= cut_from(ms, i) <= ms.len(),
        cut_from(ms, i) == ms.len() || !starts_with_result(ms[cut_from(ms, i)]),
        forall|k: int| i <= k < cut_from(ms, i) ==> starts_with_result(#[trigger] ms[k]),
    decreases ms.len() - i,
{
    if i < ms.len() && starts_with_result(ms[i]) {
        lemma_cut_from(ms, i + 1);
    }
}

/// Pushes copies of `src[from..to]` onto `dst`.
fn push_copies(dst: &mut Vec<Message>, src: &Vec<Message>, from: usize, to: usize)
    requires
        from <= to <= src@.len(),
    ensures
        msgs_view(final(dst)@) == msgs_view(old(dst)@) + msgs_view(src@).subrange(
            from as int,
            to as int,
        ),
{
    let mut i = from;
    while i < to
        invariant
            from <= i <= to <= src@.len(),
            msgs_view(dst@) == msgs_view(old(dst)@) + msgs_view(src@).subrange(
                from as int,
                i as int,
            ),
        decreases to - i,
    {
        let ghost prev = dst@;
        dst.push(src[i].duplicate());
        assert(msgs_view(dst@) =~= msgs_view(prev).push(src@[i as int]@));
        assert(msgs_view(dst@) =~= msgs_view(old(dst)@) + msgs_view(src@).subrange(
            from as int,
            i + 1,
        ));
        i += 1;
    }
}

/// L1: above `SNIP_THRESHOLD_MSGS` messages keep the head and the tail with a
/// notice between them; the cut is moved past tool results so that none loses
/// its call.
pub fn snip_compact(messages: &mut Vec<Message>)
    ensures
        msgs_view(final(messages)@) == snipped(msgs_view(old(messages)@)),
{
    let ghost ms = msgs_view(messages@);
    if messages.len() <= SNIP_THRESHOLD_MSGS {
        return;
    }
    let len = messages.len();
    let head = SNIP_KEEP_HEAD;
    let tail_start = len - SNIP_KEEP_TAIL;
    let mut cut = if tail_start > head {
        tail_start
    } else {
        head
    };
    proof {
        lemma_cut_from(ms, tail_start as int);
    }
    while cut < len && starts_with_tool_result(&messages[cut])
        invariant
            tail_start <= cut <= len,
            len == messages@.len(),
            ms == msgs_view(messages@),
            cut_from(ms, tail_start as int) == cut_from(ms, cut as int),
        decreases len - cut,
    {
        cut += 1;
    }
    let removed = cut - head;
    let mut rebuilt: Vec<Message> = Vec::new();
    push_copies(&mut rebuilt, messages, 0, head);
    let mut note = owned("[... 省略了 ");
    let d = decimal_string(removed as u64);
    append(&mut note, d.as_str());
    append(&mut note, " 条较早的消息以节省上下文 ...]");
    let ghost before = rebuilt@;
    rebuilt.push(Message::assistant_text(note));
    assert(msgs_view(rebuilt@) =~= msgs_view(before).push(snip_marker(removed as nat)));
    push_copies(&mut rebuilt, messages, cut, len);
    proof {
        assert(ms.take(head as int) =~= ms.subrange(0, head as int));
        assert(ms.skip(cut as int) =~= ms.subrange(cut as int, len as int));
    }
    *messages = rebuilt;
}

/// Snipping keeps the first `SNIP_KEEP_HEAD` messages and a suffix of the
/// history; no more than `SNIP_KEEP_HEAD + 1 + SNIP_KEEP_TAIL` messages remain,
/// and the kept suffix never begins with an orphaned tool result. Histories
/// at or below the threshold are left as they are.
pub proof fn law_snip_shape(ms: Seq<MessageView>)
    ensures
        ms.len() <= SNIP_THRESHOLD_MSGS ==> snipped(ms) == ms,
        ms.len() > SNIP_THRESHOLD_MSGS ==> {
            let r = snipped(ms);
            let cut = cut_from(ms, ms.len() - SNIP_KEEP_TAIL);
            &&& r.len() <= SNIP_KEEP_HEAD + 1 + SNIP_KEEP_TAIL
            &&& r.take(SNIP_KEEP_HEAD as int) == ms.take(SNIP_KEEP_HEAD as int)
            &&& r.skip(SNIP_KEEP_HEAD + 1) == ms.skip(cut)
            &&& ms.len() - SNIP_KEEP_TAIL <= cut <= ms.len()
            &&& (cut < ms.len() ==> !starts_with_result(ms[cut]))
        },
{
    if ms.len() > SNIP_THRESHOLD_MSGS {
        let cut = cut_from(ms, ms.len() - SNIP_KEEP_TAIL);
        lemma_cut_from(ms, ms.len() - SNIP_KEEP_TAIL);
        let r = snipped(ms);
        assert(r.take(SNIP_KEEP_HEAD as int) =~= ms.take(SNIP_KEEP_HEAD as int));
        assert(r.skip(SNIP_KEEP_HEAD + 1) =~= ms.skip(cut));
    }
}

// ---------------------------------------------------------------------------
// L2: micro compaction
// ---------------------------------------------------------------------------

/// The number of tool results among `bs`.
pub open spec fn count_results(bs: Seq<BlockView>) -> nat
    decreases bs.len(),
{
    if bs.len() == 0 {
        0
    } else {
        (if bs[0] is ToolResult {
            1nat
        } else {
            0nat
        }) + count_results(bs.drop_first())
    }
}

/// The number of tool results in the messages `ms`.
pub open spec fn count_results_msgs(ms: Seq<MessageView>) -> nat
    decreases ms.len(),
{
    if ms.len() == 0 {
        0
    } else {
        count_results(ms[0].content) + count_results_msgs(ms.drop_first())
    }
}

/// A shortened old tool result: a marker, its first 200 characters, `...`.
pub open spec fn shortened_result(c: Seq<char>) -> Seq<char> {
    "[旧工具结果已省略] "@ + take_chars(c, 200) + "..."@
}

/// A block after micro compaction, `rank` being the number of tool results at
/// or after it in the history: tool results beyond the most recent
/// `KEEP_RECENT_TOOL_RESULTS` and longer than 200 bytes are shortened.
pub open spec fn micro_block(b: BlockView, rank: nat) -> BlockView {
    match b {
        BlockView::ToolResult(id, c, e) => if rank > KEEP_RECENT_TOOL_RESULTS && byte_len(c)
            > 200 {
            BlockView::ToolResult(id, shortened_result(c), e)
        } else {
            b
        },
        _ => b,
    }
}

/// Message `k` of `ms` after micro compaction.
pub open spec fn micro_message(ms: Seq<MessageView>, k: int) -> MessageView {
    let later = count_results_msgs(ms.skip(k + 1));
    MessageView {
        role: ms[k].role,
        content: Seq::new(
            ms[k].content.len(),
            |j: int| micro_block(ms[k].content[j], later + count_results(ms[k].content.skip(j))),
        ),
    }
}

/// The history after micro compaction.
pub open spec fn micro_compacted(ms: Seq<MessageView>) -> Seq<MessageView> {
    Seq::new(ms.len(), |k: int| micro_message(ms, k))
}

proof fn lemma_count_results_skip(bs: Seq<BlockView>, j: int)
    requires
        0 <= j < bs.len(),
    ensures
        count_results(bs.skip(j)) == (if bs[j] is ToolResult {
            1nat
        } else {
            0nat
        }) + count_results(bs.skip(j + 1)),
{
    assert(bs.skip(j).drop_first() =~= bs.skip(j + 1));
}

proof fn lemma_count_results_msgs_skip(ms: Seq<MessageView>, k: int)
    requires
        0 <= k < ms.len(),
    ensures
        count_results_msgs(ms.skip(k)) == count_results(ms[k].content) + count_results_msgs(
            ms.skip(k + 1),
        ),
{
    assert(ms.skip(k).drop_first() =~= ms.skip(k + 1));
}

/// `n`, capped at `KEEP_RECENT_TOOL_RESULTS + 1`.
pub open spec fn capped(n: nat) -> nat {
    if n > KEEP_RECENT_TOOL_RESULTS {
        (KEEP_RECENT_TOOL_RESULTS + 1) as nat
    } else {
        n
    }
}

/// The shortened form of an old tool result.
fn shorten_result(c: &str) -> (r: String)
    ensures
        r@ == shortened_result(c@),
{
    let mut s = owned("[旧工具结果已省略] ");
    let p = take_chars_of(c, 200);
    append(&mut s, p.as_str());
    append(&mut s, "...");
    s
}

/// L2: keep the most recent `KEEP_RECENT_TOOL_RESULTS` tool results verbatim;
/// earlier ones longer than 200 bytes are cut to a 200-character preview.
pub fn micro_compact(messages: &mut Vec<Message>)
    ensures
        msgs_view(final(messages)@) == micro_compacted(msgs_view(old(messages)@)),
{
    let ghost ms = msgs_view(messages@);
    let mut seen: usize = 0;
    let mut i = messages.len();
    assert(ms.skip(ms.len() as int) =~= Seq::<MessageView>::empty());
    while i > 0
        invariant
            i <= messages@.len(),
            messages@.len() == ms.len(),
            seen == capped(count_results_msgs(ms.skip(i as int))),
            forall|k: int| 0 <= k < i ==> #[trigger] msgs_view(messages@)[k] == ms[k],
            forall|k: int| i <= k < ms.len() ==> #[trigger] msgs_view(messages@)[k]
                == micro_message(ms, k),
        decreases i,
    {
        i -= 1;
        let ghost later = count_results_msgs(ms.skip(i + 1));
        let ghost mk = ms[i as int];
        assert(msgs_view(messages@)[i as int] == mk);
        let m = &messages[i];
        let mut content: Vec<ContentBlock> = Vec::new();
        proof {
            lemma_count_results_msgs_skip(ms, i as int);
            assert(ms.skip(i as int)[0] == mk);
        }
        let n = m.content.len();
        // Blocks are visited from the last to the first; `out_rev` collects them
        // in that order and is reversed afterwards.
        let mut out_rev: Vec<ContentBlock> = Vec::new();
        let mut j = n;
        assert(mk.content.skip(n as int) =~= Seq::<BlockView>::empty());
        while j > 0
            invariant
                j <= n,
                n == m.content@.len(),
                m@ == mk,
                mk.content.len() == n,
                later == count_results_msgs(ms.skip(i + 1)),
                seen == capped(later + count_results(mk.content.skip(j as int))),
                out_rev@.len() == n - j,
                forall|t: int|
                    0 <= t < n - j ==> #[trigger] out_rev@[t]@ == micro_block(
                        mk.content[n - 1 - t],
                        later + count_results(mk.content.skip(n - 1 - t)),
                    ),
            decreases j,
        {
            j -= 1;
            proof {
                lemma_count_results_skip(mk.content, j as int);
            }
            let b = &m.content[j];
            assert(b@ == mk.content[j as int]);
            let nb = match b {
                ContentBlock::ToolResult { tool_use_id, content: c, is_error } => {
                    if seen <= KEEP_RECENT_TOOL_RESULTS {
                        seen = seen + 1;
                    }
                    if seen > KEEP_RECENT_TOOL_RESULTS && str_byte_len(c.as_str()) > 200 {
                        ContentBlock::ToolResult {
                            tool_use_id: tool_use_id.clone(),
                            content: shorten_result(c.as_str()),
                            is_error: *is_error,
                        }
                    } else {
                        b.duplicate()
                    }
                },
                _ => b.duplicate(),
            };
            out_rev.push(nb);
        }
        let mut t = out_rev.len();
        while t > 0
            invariant
                t <= out_rev@.len(),
                out_rev@.len() == n,
                content@.len() == n - t,
                forall|q: int|
                    0 <= q < n - t ==> #[trigger] content@[q]@ == out_rev@[n - 1 - q]@,
            decreases t,
        {
            t -= 1;
            content.push(out_rev[t].duplicate());
        }
        let role = m.role;
        let nm = Message { role, content };
        proof {
            lemma_count_results_msgs_skip(ms, i as int);
            assert(mk.content.skip(0) =~= mk.content);
            assert(nm@.content =~= micro_message(ms, i as int).content);
        }
        let ghost pre = messages@;
        messages.set(i, nm);
        proof {
            assert(messages@ == pre.update(i as int, nm));
            assert forall|k: int| 0 <= k < i implies #[trigger] msgs_view(messages@)[k] == ms[k] by {
                assert(msgs_view(messages@)[k] == messages@[k]@);
                assert(msgs_view(pre)[k] == pre[k]@);
            }
            assert forall|k: int| i <= k < ms.len() implies #[trigger] msgs_view(messages@)[k]
                == micro_message(ms, k) by {
                assert(msgs_view(messages@)[k] == messages@[k]@);
                assert(msgs_view(pre)[k] == pre[k]@);
            }
        }
    }
    assert(msgs_view(messages@) =~= micro_compacted(ms));
}

// ---------------------------------------------------------------------------
// L3: spilling oversized tool results
// ---------------------------------------------------------------------------

/// The total UTF-8 size of the tool results among `bs`.
pub open spec fn result_bytes(bs: Seq<BlockView>) -> nat
    decreases bs.len(),
{
    if bs.len() == 0 {
        0
    } else {
        result_bytes(bs.drop_last()) + match bs.last() {
            BlockView::ToolResult(_, c, _) => byte_len(c),
            _ => 0,
        }
    }
}

proof fn lemma_result_bytes_prefix(bs: Seq<BlockView>, i: int)
    requires
        0 <= i <= bs.len(),
    ensures
        result_bytes(bs.take(i)) <= result_bytes(bs),
    decreases bs.len(),
{
    if i < bs.len() {
        assert(bs.drop_last().take(i) =~= bs.take(i));
        lemma_result_bytes_prefix(bs.drop_last(), i);
    } else {
        assert(bs.take(i) =~= bs);
    }
}

/// The last message is a user message whose tool results exceed
/// `TOOL_RESULT_BUDGET_BYTES`.
pub open spec fn spill_due(ms: Seq<MessageView>) -> bool {
    &&& ms.len() > 0
    &&& ms.last().role == Role::User
    &&& result_bytes(ms.last().content) > TOOL_RESULT_BUDGET_BYTES
}

/// Block `j` of the last message is a tool result longer than the preview.
pub open spec fn spill_block(ms: Seq<MessageView>, j: int) -> bool {
    &&& 0 <= j < ms.last().content.len()
    &&& ms.last().content[j] matches BlockView::ToolResult(_, c, _)
    &&& byte_len(c) > TOOL_RESULT_PREVIEW_CHARS
}

/// L3 planning: when the tool results of the last user message exceed the
/// budget, the positions (ascending) of those of its tool results that are
/// longer than the preview; otherwise none. The caller writes each of them to
/// a file and replaces it by `spilled_text`.
pub fn spill_targets(messages: &Vec<Message>) -> (r: Vec<usize>)
    ensures
        !spill_due(msgs_view(messages@)) ==> r@.len() == 0,
        spill_due(msgs_view(messages@)) ==> {
            &&& forall|a: int, b: int| 0 <= a < b < r@.len() ==> r@[a] < r@[b]
            &&& forall|j: usize| #[trigger] spill_block(msgs_view(messages@), j as int)
                <==> r@.contains(j)
        },
{
    let ghost ms = msgs_view(messages@);
    let mut r: Vec<usize> = Vec::new();
    if messages.len() == 0 {
        return r;
    }
    let last = &messages[messages.len() - 1];
    assert(last@ == ms.last());
    match last.role {
        Role::User => {},
        _ => {
            return r;
        },
    }
    let ghost bv = last@.content;
    let mut total: usize = 0;
    let mut i: usize = 0;
    let mut over = false;
    while i < last.content.len()
        invariant
            i <= last.content@.len(),
            bv == last@.content,
            !over ==> total == result_bytes(bv.take(i as int)) && total <= TOOL_RESULT_BUDGET_BYTES,
            over ==> result_bytes(bv) > TOOL_RESULT_BUDGET_BYTES,
        decreases last.content@.len() - i,
    {
        proof {
            assert(bv.take(i + 1).drop_last() =~= bv.take(i as int));
            lemma_result_bytes_prefix(bv, i + 1);
        }
        if !over {
            match &last.content[i] {
                ContentBlock::ToolResult { content, .. } => {
                    let n = str_byte_len(content.as_str());
                    if n > TOOL_RESULT_BUDGET_BYTES - total {
                        over = true;
                    } else {
                        total = total + n;
                    }
                },
                _ => {},
            }
        }
        i += 1;
    }
    proof {
        assert(bv.take(bv.len() as int) =~= bv);
    }
    if !over {
        return r;
    }
    let mut j: usize = 0;
    while j < last.content.len()
        invariant
            j <= last.content@.len(),
            bv == last@.content,
            ms.last().content == bv,
            forall|a: int, b: int| 0 <= a < b < r@.len() ==> r@[a] < r@[b],
            forall|a: int| 0 <= a < r@.len() ==> r@[a] < j,
            forall|q: int| 0 <= q < j ==> (spill_block(ms, q) <==> r@.contains(q as usize)),
        decreases last.content@.len() - j,
    {
        let hit = match &last.content[j] {
            ContentBlock::ToolResult { content, .. } => str_byte_len(content.as_str())
                > TOOL_RESULT_PREVIEW_CHARS,
            _ => false,
        };
        let ghost before = r@;
        if hit {
            r.push(j);
        }
        proof {
            assert(hit == spill_block(ms, j as int));
            assert forall|q: int| 0 <= q < j + 1 implies (spill_block(ms, q) <==> r@.contains(
                q as usize,
            )) by {
                if q < j {
                    if r@.contains(q as usize) {
                        let w = choose|w: int| 0 <= w < r@.len() && r@[w] == q as usize;
                        if hit && w == r@.len() - 1 {
                            assert(r@[w] == j);
                        } else {
                            assert(before[w] == q as usize);
                        }
                    }
                    if before.contains(q as usize) {
                        let w = choose|w: int| 0 <= w < before.len() && before[w] == q as usize;
                        assert(r@[w] == q as usize);
                    }
                } else {
                    if r@.contains(q as usize) {
                        let w = choose|w: int| 0 <= w < r@.len() && r@[w] == q as usize;
                        if !(hit && w == r@.len() - 1) {
                            assert(before[w] < j);
                        }
                    }
                    if hit {
                        assert(r@[r@.len() - 1] == j);
                    }
                }
            }
        }
        j += 1;
    }
    proof {
        assert forall|q: usize| #[trigger] spill_block(ms, q as int) <==> r@.contains(q) by {
            if r@.contains(q) {
                let w = choose|w: int| 0 <= w < r@.len() && r@[w] == q;
                assert(r@[w] < j);
            }
            if q < j {
                assert(spill_block(ms, q as int) <==> r@.contains(q));
            }
        }
    }
    r
}

/// The replacement of a spilled tool result: its first
/// `TOOL_RESULT_PREVIEW_CHARS` characters and where the full text went.
pub open spec fn spilled_text_of(content: Seq<char>, path: Seq<char>) -> Seq<char> {
    take_chars(content, TOOL_RESULT_PREVIEW_CHARS as nat) + "\n... [完整输出已落盘: "@ + path
        + "，需要时用 read_file 读取]"@
}

/// The replacement of a spilled tool result.
pub fn spilled_text(content: &str, path: &str) -> (r: String)
    ensures
        r@ == spilled_text_of(content@, path@),
{
    let mut s = take_chars_of(content, TOOL_RESULT_PREVIEW_CHARS);
    append(&mut s, "\n... [完整输出已落盘: ");
    append(&mut s, path);
    append(&mut s, "，需要时用 read_file 读取]");
    s
}

/// Replaces the text of tool result `j` of the last message by `text`.
pub fn replace_last_result(messages: &mut Vec<Message>, j: usize, text: String)
    requires
        old(messages)@.len() > 0,
        j < old(messages)@.last().content@.len(),
    ensures
        final(messages)@.len() == old(messages)@.len(),
        forall|k: int|
            0 <= k < old(messages)@.len() - 1 ==> #[trigger] msgs_view(final(messages)@)[k]
                == msgs_view(old(messages)@)[k],
        ({
            let o = msgs_view(old(messages)@).last();
            let n = msgs_view(final(messages)@).last();
            &&& n.role == o.role
            &&& n.content == o.content.update(
                j as int,
                match o.content[j as int] {
                    BlockView::ToolResult(id, _, e) => BlockView::ToolResult(id, text@, e),
                    b => b,
                },
            )
        }),
{
    let k = messages.len() - 1;
    let m = &messages[k];
    let mut content = crate::llm::types::duplicate_blocks(&m.content);
    let nb = match &m.content[j] {
        ContentBlock::ToolResult { tool_use_id, is_error, .. } => ContentBlock::ToolResult {
            tool_use_id: tool_use_id.clone(),
            content: text,
            is_error: *is_error,
        },
        b => b.duplicate(),
    };
    assert(blocks_view(content@).len() == blocks_view(m.content@).len());
    content.set(j, nb);
    let role = m.role;
    let nm = Message { role, content };
    proof {
        assert(blocks_view(nm.content@) =~= blocks_view(m.content@).update(
            j as int,
            match blocks_view(m.content@)[j as int] {
                BlockView::ToolResult(id, _, e) => BlockView::ToolResult(id, text@, e),
                b => b,
            },
        ));
    }
    let ghost pre = messages@;
    messages.set(k, nm);
    proof {
        assert forall|q: int| 0 <= q < pre.len() - 1 implies #[trigger] msgs_view(messages@)[q]
            == msgs_view(pre)[q] by {
            assert(messages@[q] == pre[q]);
        }
    }
}

// ---------------------------------------------------------------------------
// L4: summaries
// ---------------------------------------------------------------------------

/// The threshold above which a summary is due: the context window less the
/// output limit less `COMPACT_RESERVE_TOKENS`, saturating at 0.
pub open spec fn compact_threshold(context_window: usize, max_output: usize) -> int {
    let a = if context_window >= max_output {
        context_window - max_output
    } else {
        0
    };
    if a >= COMPACT_RESERVE_TOKENS {
        a - COMPACT_RESERVE_TOKENS
    } else {
        0
    }
}

/// Whether the estimated tokens of the history exceed the threshold.
pub fn should_compact(messages: &Vec<Message>, context_window: usize, max_output: usize) -> (r:
    bool)
    requires
        messages_tokens(msgs_view(messages@)) <= usize::MAX,
    ensures
        r == (messages_tokens(msgs_view(messages@)) > compact_threshold(
            context_window,
            max_output,
        )),
{
    let threshold = context_window.saturating_sub(max_output).saturating_sub(
        COMPACT_RESERVE_TOKENS,
    );
    estimate_messages_tokens(messages) > threshold
}

/// The tag of a role in a transcript.
pub open spec fn role_tag(r: Role) -> Seq<char> {
    match r {
        Role::User => "USER"@,
        Role::Assistant => "ASSISTANT"@,
    }
}

/// The transcript line of one block.
pub open spec fn block_line(r: Role, b: BlockView) -> Seq<char> {
    match b {
        BlockView::Text(t) => "["@ + role_tag(r) + "] "@ + t + "\n"@,
        BlockView::ToolUse(_, name, input) => "["@ + role_tag(r) + " 调用工具 "@ + name + "] "@
            + input + "\n"@,
        BlockView::ToolResult(_, c, _) => "[工具结果] "@ + take_chars(c, 500) + "\n"@,
    }
}

/// The transcript lines of the blocks `bs` written by `r`.
pub open spec fn blocks_lines(r: Role, bs: Seq<BlockView>) -> Seq<char>
    decreases bs.len(),
{
    if bs.len() == 0 {
        Seq::empty()
    } else {
        blocks_lines(r, bs.drop_last()) + block_line(r, bs.last())
    }
}

/// The transcript of a history, as given to the summariser.
pub open spec fn transcript(ms: Seq<MessageView>) -> Seq<char>
    decreases ms.len(),
{
    if ms.len() == 0 {
        Seq::empty()
    } else {
        transcript(ms.drop_last()) + blocks_lines(ms.last().role, ms.last().content)
    }
}

/// The transcript of a history.
pub fn render_transcript(messages: &Vec<Message>) -> (r: String)
    ensures
        r@ == transcript(msgs_view(messages@)),
{
    let ghost ms = msgs_view(messages@);
    let mut out = String::new();
    let mut i: usize = 0;
    while i < messages.len()
        invariant
            i <= messages@.len(),
            ms == msgs_view(messages@),
            out@ == transcript(ms.take(i as int)),
        decreases messages@.len() - i,
    {
        let m = &messages[i];
        let ghost start = out@;
        let tag = match m.role {
            Role::User => "USER",
            Role::Assistant => "ASSISTANT",
        };
        assert(tag@ == role_tag(m.role));
        let mut j: usize = 0;
        while j < m.content.len()
            invariant
                j <= m.content@.len(),
                tag@ == role_tag(m.role),
                out@ == start + blocks_lines(m.role, m@.content.take(j as int)),
            decreases m.content@.len() - j,
        {
            proof {
                assert(m@.content.take(j + 1).drop_last() =~= m@.content.take(j as int));
            }
            match &m.content[j] {
                ContentBlock::Text { text } => {
                    append(&mut out, "[");
                    append(&mut out, tag);
                    append(&mut out, "] ");
                    append(&mut out, text.as_str());
                    append(&mut out, "\n");
                },
                ContentBlock::ToolUse { name, input, .. } => {
                    append(&mut out, "[");
                    append(&mut out, tag);
                    append(&mut out, " 调用工具 ");
                    append(&mut out, name.as_str());
                    append(&mut out, "] ");
                    append(&mut out, input.as_str());
                    append(&mut out, "\n");
                },
                ContentBlock::ToolResult { content, .. } => {
                    append(&mut out, "[工具结果] ");
                    let p = take_chars_of(content.as_str(), 500);
                    append(&mut out, p.as_str());
                    append(&mut out, "\n");
                },
            }
            proof {
                assert(out@ =~= start + blocks_lines(m.role, m@.content.take(j as int)) + block_line(
                    m.role,
                    m@.content[j as int],
                ));
            }
            j += 1;
        }
        proof {
            assert(m@.content.take(m@.content.len() as int) =~= m@.content);
            assert(ms.take(i + 1).drop_last() =~= ms.take(i as int));
        }
        i += 1;
    }
    assert(ms.take(ms.len() as int) =~= ms);
    out
}

/// The system prompt of the summariser.
pub open spec fn summary_system_text() -> Seq<char> {
    "你是对话摘要器。将下面的 Agent 对话浓缩为结构化摘要，必须保留: 用户目标、关键决策、已完成的操作、产生的文件/结果、未完成的待办。用中文，简洁但不丢关键事实。"@
}

/// The request asking `model` to summarise a history.
pub fn summary_request(model: &str, messages: &Vec<Message>) -> (r: ChatRequest)
    ensures
        r.model@ == model@,
        r.system@ == summary_system_text(),
        r.messages@.len() == 1,
        r.messages@[0]@ == (MessageView {
            role: Role::User,
            content: seq![BlockView::Text("请摘要以下对话:\n\n"@ + transcript(msgs_view(messages@)))],
        }),
        r.tools@.len() == 0,
        r.max_tokens == MAX_OUTPUT_TOKENS,
        r.thinking == ThinkingLevel::Off,
{
    let convo = render_transcript(messages);
    let mut user = owned("请摘要以下对话:\n\n");
    append(&mut user, convo.as_str());
    ChatRequest {
        model: owned(model),
        system: owned(
            "你是对话摘要器。将下面的 Agent 对话浓缩为结构化摘要，必须保留: 用户目标、关键决策、已完成的操作、产生的文件/结果、未完成的待办。用中文，简洁但不丢关键事实。",
        ),
        messages: vec![Message::user_text(user)],
        tools: Vec::new(),
        max_tokens: MAX_OUTPUT_TOKENS,
        thinking: ThinkingLevel::Off,
    }
}

/// The summary text of a summariser reply: its text blocks joined by newlines.
pub open spec fn summary_of(reply: Seq<BlockView>) -> Seq<char> {
    join(text_parts(reply), seq!['\n'])
}

/// The history that replaces a summarised one: a single user message holding
/// the summary, or an error when the summary is blank.
pub fn summary_history(reply: &Vec<ContentBlock>) -> (r: Result<Vec<Message>, LlmError>)
    ensures
        all_ws(summary_of(blocks_view(reply@))) ==> (r matches Err(LlmError::Api { status, message })
            && status == 0 && message@ == "摘要为空"@),
        !all_ws(summary_of(blocks_view(reply@))) ==> (r matches Ok(v) && msgs_view(v@) == seq![
            MessageView {
                role: Role::User,
                content: seq![
                    BlockView::Text(
                        "[对话历史摘要 — 之前的对话已压缩]\n"@ + summary_of(blocks_view(reply@)),
                    ),
                ],
            },
        ]),
{
    let summary = join_texts(reply);
    if is_blank(summary.as_str()) {
        return Err(LlmError::Api { status: 0, message: owned("摘要为空") });
    }
    let mut t = owned("[对话历史摘要 — 之前的对话已压缩]\n");
    append(&mut t, summary.as_str());
    let v = vec![Message::user_text(t)];
    assert(msgs_view(v@) =~= seq![v@[0]@]);
    Ok(v)
}

// ---------------------------------------------------------------------------
// Emergency compaction
// ---------------------------------------------------------------------------

/// A history whose first message is not from the user gets a `[继续]` user
/// message in front (the APIs require a user message first).
pub open spec fn with_leading_user(ms: Seq<MessageView>) -> Seq<MessageView> {
    if ms.len() > 0 && ms[0].role != Role::User {
        seq![MessageView { role: Role::User, content: seq![BlockView::Text("[继续]"@)] }] + ms
    } else {
        ms
    }
}

/// Puts a `[继续]` user message in front when the first message is not the
/// user's.
pub fn fix_leading_role(messages: &mut Vec<Message>)
    ensures
        msgs_view(final(messages)@) == with_leading_user(msgs_view(old(messages)@)),
{
    if messages.len() > 0 && messages[0].role != Role::User {
        let ghost pre = messages@;
        messages.insert(0, Message::user_text(owned("[继续]")));
        assert(msgs_view(messages@) =~= seq![messages@[0]@] + msgs_view(pre));
    }
}

/// The split of an emergency compaction: above `REACTIVE_KEEP_TAIL` messages,
/// the head to summarise and the tail kept verbatim; otherwise nothing to do.
pub fn reactive_split(messages: &Vec<Message>) -> (r: Option<(Vec<Message>, Vec<Message>)>)
    ensures
        messages@.len() <= REACTIVE_KEEP_TAIL ==> r is None,
        messages@.len() > REACTIVE_KEEP_TAIL ==> (r matches Some((h, t)) && msgs_view(h@)
            == msgs_view(messages@).take(messages@.len() - REACTIVE_KEEP_TAIL) && msgs_view(t@)
            == msgs_view(messages@).skip(messages@.len() - REACTIVE_KEEP_TAIL)),
{
    if messages.len() <= REACTIVE_KEEP_TAIL {
        return None;
    }
    let split = messages.len() - REACTIVE_KEEP_TAIL;
    let mut head: Vec<Message> = Vec::new();
    push_copies(&mut head, messages, 0, split);
    let mut tail: Vec<Message> = Vec::new();
    push_copies(&mut tail, messages, split, messages.len());
    assert(msgs_view(head@) =~= msgs_view(messages@).take(split as int));
    assert(msgs_view(tail@) =~= msgs_view(messages@).skip(split as int));
    Some((head, tail))
}

/// The history after an emergency compaction: the summarised head, the kept
/// tail, and a user message in front if needed.
pub fn reactive_join(head: Vec<Message>, tail: &Vec<Message>) -> (r: Vec<Message>)
    ensures
        msgs_view(r@) == with_leading_user(msgs_view(head@) + msgs_view(tail@)),
{
    let mut out = head;
    push_copies(&mut out, tail, 0, tail.len());
    assert(msgs_view(tail@).subrange(0, tail@.len() as int) =~= msgs_view(tail@));
    fix_leading_role(&mut out);
    out
}

/// The in-memory passes, in their fixed order: snip, then micro compaction.
pub fn compact_in_memory(messages: &mut Vec<Message>)
    ensures
        msgs_view(final(messages)@) == micro_compacted(snipped(msgs_view(old(messages)@))),
{
    snip_compact(messages);
    micro_compact(messages);
}

/// Micro compaction leaves the number of messages, every role, every
/// non-tool-result block and the most recent `KEEP_RECENT_TOOL_RESULTS` tool
/// results as they were.
pub proof fn law_micro_keeps_recent(ms: Seq<MessageView>, k: int, j: int)
    requires
        0 <= k < ms.len(),
        0 <= j < ms[k].content.len(),
    ensures
        micro_compacted(ms).len() == ms.len(),
        micro_compacted(ms)[k].role == ms[k].role,
        micro_compacted(ms)[k].content.len() == ms[k].content.len(),
        !(ms[k].content[j] is ToolResult) ==> micro_compacted(ms)[k].content[j] == ms[k].content[j],
        count_results_msgs(ms.skip(k + 1)) + count_results(ms[k].content.skip(j))
            <= KEEP_RECENT_TOOL_RESULTS ==> micro_compacted(ms)[k].content[j] == ms[k].content[j],
{
}

/// Every text block adds one line to the transcript, after the lines of
/// what came before it, tagged with the role of the message it belongs to:
/// `[ASSISTANT] text` for the assistant, `[USER] text` for the user.
pub proof fn law_transcript_tags_text_by_role(ms: Seq<MessageView>, role: Role, bs: Seq<BlockView>, text: Seq<char>)
    ensures
        transcript(ms.push(MessageView { role, content: bs.push(BlockView::Text(text)) })) == transcript(
            ms.push(MessageView { role, content: bs }),
        ) + "["@ + (if role == Role::Assistant {
            "ASSISTANT"@
        } else {
            "USER"@
        }) + "] "@ + text + "\n"@,
{
    let m1 = MessageView { role, content: bs.push(BlockView::Text(text)) };
    let m0 = MessageView { role, content: bs };
    assert(ms.push(m1).drop_last() =~= ms);
    assert(ms.push(m0).drop_last() =~= ms);
    assert(bs.push(BlockView::Text(text)).drop_last() =~= bs);
    assert(blocks_lines(role, bs.push(BlockView::Text(text))) == blocks_lines(role, bs) + block_line(
        role,
        BlockView::Text(text),
    ));
    assert(transcript(ms.push(m1)) == transcript(ms) + blocks_lines(role, m1.content));
    assert(transcript(ms.push(m0)) == transcript(ms) + blocks_lines(role, m0.content));
    assert(transcript(ms.push(m1)) =~= transcript(ms.push(m0)) + "["@ + (if role == Role::Assistant {
        "ASSISTANT"@
    } else {
        "USER"@
    }) + "] "@ + text + "\n"@);
}

} // verus!
