//! Reading the streamed answers of the two model APIs: server-sent-event
//! lines, HTTP error answers, and the accumulation of the streamed chunks into
//! one reply.

use vstd::prelude::*;

use crate::ids::random_hex_id;
use crate::json::{
    get_str, get_str2, get_u64, get_u64_2, json_at, json_get, json_len, json_normalize, spec_json_at,
    spec_json_get, spec_json_len, spec_json_normalize, str_at2, str_at_key, u64_at2, u64_at_key,
};
use crate::llm::types::{blocks_view, BlockView, ContentBlock, LlmError, LlmResponse, StopReason, StreamEvent};
use crate::tasks::opt_view;
use crate::text::{all_ws, append, chars_of, decimal, decimal_string, is_blank, owned, seq_contains, seq_starts_with, str_contains, str_eq, str_starts_with, string_of_range, to_lowercase, spec_to_lowercase, trim_end, trim_start};

verus! {

// ---------------------------------------------------------------------------
// Event-stream lines
// ---------------------------------------------------------------------------

/// What a line of the event stream holds.
#[derive(Debug)]
pub enum SseLine {
    /// The end marker `[DONE]`.
    Done,
    /// A data payload.
    Data(String),
    /// Anything else (comments, other fields, empty data).
    Skip,
}

/// What a line holds: a `data:` line's payload (trimmed), `[DONE]` ending
/// the stream.
pub open spec fn sse_kind(line: Seq<char>) -> Option<Option<Seq<char>>> {
    let t = trim_end(line);
    if seq_starts_with(t, "data:"@) {
        let d = trim_start(t.skip(5));
        if d == "[DONE]"@ {
            None
        } else if d.len() == 0 {
            Some(None)
        } else {
            Some(Some(d))
        }
    } else {
        Some(None)
    }
}

/// What a line of the event stream holds.
pub fn sse_line(line: &str) -> (r: SseLine)
    ensures
        match sse_kind(line@) {
            None => r is Done,
            Some(None) => r is Skip,
            Some(Some(d)) => r matches SseLine::Data(x) && x@ == d,
        },
{
    let v = chars_of(line);
    let e = crate::text::trim_end_of(line);
    if !str_starts_with(e.as_str(), "data:") {
        return SseLine::Skip;
    }
    proof {
        reveal_strlit("data:");
    }
    let ev = chars_of(e.as_str());
    let rest = string_of_range(&ev, 5, ev.len());
    assert(rest@ =~= e@.skip(5));
    let d = crate::text::trim_start_of(rest.as_str());
    if str_eq(d.as_str(), "[DONE]") {
        return SseLine::Done;
    }
    if d.unicode_len() == 0 {
        return SseLine::Skip;
    }
    SseLine::Data(d)
}

// ---------------------------------------------------------------------------
// Splitting the byte stream into lines
// ---------------------------------------------------------------------------

/// What std `String::from_utf8_lossy` makes of some bytes.
pub uninterp spec fn spec_utf8_lossy(b: Seq<u8>) -> Seq<char>;

/// std `String::from_utf8_lossy`: the text of some bytes, each invalid
/// sequence replaced by U+FFFD.
#[verifier::external_body]
pub(crate) fn utf8_lossy(b: &Vec<u8>) -> (r: String)
    ensures
        r@ == spec_utf8_lossy(b@),
{
    String::from_utf8_lossy(b.as_slice()).to_string()
}

/// The lines completed, and the bytes left over, when `bytes` arrive after a
/// pending unfinished line `cur`: a line ends with (and includes) its
/// newline byte.
pub open spec fn fed(cur: Seq<u8>, bytes: Seq<u8>) -> (Seq<Seq<u8>>, Seq<u8>)
    decreases bytes.len(),
{
    if bytes.len() == 0 {
        (Seq::empty(), cur)
    } else {
        let (lines, c) = fed(cur, bytes.drop_last());
        let c2 = c.push(bytes.last());
        if bytes.last() == 10u8 {
            (lines.push(c2), Seq::empty())
        } else {
            (lines, c2)
        }
    }
}

/// The bytes of some lines, one after another.
pub open spec fn flatten(lines: Seq<Seq<u8>>) -> Seq<u8>
    decreases lines.len(),
{
    if lines.len() == 0 {
        Seq::empty()
    } else {
        flatten(lines.drop_last()) + lines.last()
    }
}

/// The bytes of an event stream not yet ended by a newline. Lines are cut at
/// newline bytes, which never occur inside a multi-byte UTF-8 character, so a
/// character split across chunks is decoded whole.
pub struct LineBuffer {
    buf: Vec<u8>,
}

impl LineBuffer {
    /// The pending bytes.
    pub closed spec fn pending(&self) -> Seq<u8> {
        self.buf@
    }

    /// Nothing pending.
    pub fn new() -> (r: LineBuffer)
        ensures
            r.pending().len() == 0,
    {
        LineBuffer { buf: Vec::new() }
    }

    /// Takes in a chunk and gives the text of every line it completes, in
    /// order; the rest stays pending.
    pub fn push(&mut self, chunk: &[u8]) -> (r: Vec<String>)
        ensures
            final(self).pending() == fed(old(self).pending(), chunk@).1,
            crate::text::views(r@) == fed(old(self).pending(), chunk@).0.map_values(
                |l: Seq<u8>| spec_utf8_lossy(l),
            ),
    {
        let ghost start = self.buf@;
        let mut out: Vec<String> = Vec::new();
        let mut i: usize = 0;
        while i < chunk.len()
            invariant
                i <= chunk@.len(),
                fed(start, chunk@.take(i as int)).1 == self.buf@,
                crate::text::views(out@) == fed(start, chunk@.take(i as int)).0.map_values(
                    |l: Seq<u8>| spec_utf8_lossy(l),
                ),
            decreases chunk@.len() - i,
        {
            let b = chunk[i];
            let ghost prev_out = out@;
            assert(chunk@.take(i + 1).drop_last() =~= chunk@.take(i as int));
            self.buf.push(b);
            let ghost c2 = self.buf@;
            if b == 10u8 {
                let line = utf8_lossy(&self.buf);
                out.push(line);
                self.buf = Vec::new();
                proof {
                    let ls = fed(start, chunk@.take(i as int)).0;
                    assert(crate::text::views(out@) =~= crate::text::views(prev_out).push(line@));
                    assert(ls.push(c2).map_values(|l: Seq<u8>| spec_utf8_lossy(l)) =~= ls.map_values(
                        |l: Seq<u8>| spec_utf8_lossy(l),
                    ).push(spec_utf8_lossy(c2)));
                }
            }
            i += 1;
        }
        assert(chunk@.take(chunk@.len() as int) =~= chunk@);
        out
    }
}

/// Splitting loses and adds nothing: the completed lines and the bytes left
/// pending are, one after another, the pending bytes and the new ones; every
/// completed line ends with a newline, which is its only one when nothing
/// pending held one; and then the bytes left pending hold none.
pub proof fn law_lines_partition(cur: Seq<u8>, bytes: Seq<u8>)
    ensures
        flatten(fed(cur, bytes).0) + fed(cur, bytes).1 == cur + bytes,
        forall|k: int| 0 <= k < fed(cur, bytes).0.len() ==> {
            let l = #[trigger] fed(cur, bytes).0[k];
            l.len() > 0 && l.last() == 10u8
        },
        !cur.contains(10u8) ==> {
            &&& !fed(cur, bytes).1.contains(10u8)
            &&& forall|k: int, j: int| 0 <= k < fed(cur, bytes).0.len() && 0 <= j < fed(cur, bytes).0[k].len() - 1
                ==> fed(cur, bytes).0[k][j] != 10u8
        },
    decreases bytes.len(),
{
    if bytes.len() > 0 {
        law_lines_partition(cur, bytes.drop_last());
        let (lines, c) = fed(cur, bytes.drop_last());
        let b = bytes.last();
        let c2 = c.push(b);
        assert(bytes.drop_last().push(b) =~= bytes);
        if b == 10u8 {
            assert(lines.push(c2).drop_last() =~= lines);
            assert(flatten(lines.push(c2)) == flatten(lines) + c2);
            assert(flatten(lines) + c2 + Seq::<u8>::empty() =~= (flatten(lines) + c) + seq![b]);
            assert(cur + bytes =~= (cur + bytes.drop_last()) + seq![b]);
            if !cur.contains(10u8) {
                assert forall|k: int, j: int| 0 <= k < lines.push(c2).len() && 0 <= j < lines.push(c2)[k].len() - 1
                    implies lines.push(c2)[k][j] != 10u8 by {
                    if k == lines.len() {
                        assert(c2[j] == c[j]);
                        if c[j] == 10u8 {
                            assert(c.contains(10u8));
                        }
                    }
                }
                assert(!Seq::<u8>::empty().contains(10u8));
            }
        } else {
            assert(flatten(lines) + c2 =~= (flatten(lines) + c) + seq![b]);
            assert(cur + bytes =~= (cur + bytes.drop_last()) + seq![b]);
            if !cur.contains(10u8) {
                if c2.contains(10u8) {
                    let j = choose|j: int| 0 <= j < c2.len() && c2[j] == 10u8;
                    if j < c.len() {
                        assert(c[j] == 10u8);
                        assert(c.contains(10u8));
                    }
                }
            }
        }
    }
}

// ---------------------------------------------------------------------------
// HTTP errors
// ---------------------------------------------------------------------------

/// An ASCII decimal digit.
pub open spec fn is_digit(c: char) -> bool {
    '0' <= c <= '9'
}

/// The number that a text of decimal digits writes.
pub open spec fn digits_value(d: Seq<char>) -> int
    decreases d.len(),
{
    if d.len() == 0 {
        0
    } else {
        digits_value(d.drop_last()) * 10 + (d.last() as int - '0' as int)
    }
}

/// What std `str::parse::<u64>` gives for a text: an optional leading `+`,
/// then at least one ASCII digit and nothing else, whose value fits in 64
/// bits.
pub open spec fn parsed_u64(s: Seq<char>) -> Option<u64> {
    let d = unsigned_digits(s);
    if d.len() > 0 && all_digits(d) && digits_value(d) <= u64::MAX {
        Some(digits_value(d) as u64)
    } else {
        None
    }
}

/// A text without its leading `+`, if it has one.
pub open spec fn unsigned_digits(s: Seq<char>) -> Seq<char> {
    if s.len() > 0 && s[0] == '+' {
        s.drop_first()
    } else {
        s
    }
}

/// Every character is an ASCII digit.
pub open spec fn all_digits(d: Seq<char>) -> bool {
    forall|i: int| 0 <= i < d.len() ==> is_digit(#[trigger] d[i])
}

/// Appending digits never makes the value smaller.
proof fn lemma_digits_grow(d: Seq<char>, k: int)
    requires
        0 <= k <= d.len(),
        all_digits(d),
    ensures
        digits_value(d.take(k)) <= digits_value(d),
        digits_value(d) >= 0,
    decreases d.len(),
{
    if d.len() > 0 {
        lemma_digits_grow(d.drop_last(), if k == d.len() { k - 1 } else { k });
        if k == d.len() {
            assert(d.take(k) =~= d);
        } else {
            assert(d.drop_last().take(k) =~= d.take(k));
        }
    }
}

/// The number a text writes, as std `str::parse::<u64>` reads it.
fn parse_u64(s: &str) -> (r: Option<u64>)
    ensures
        r == parsed_u64(s@),
{
    let v = chars_of(s);
    let start: usize = if v.len() > 0 && v[0] == '+' {
        1
    } else {
        0
    };
    let ghost d = unsigned_digits(s@);
    assert(d =~= v@.skip(start as int));
    if start == v.len() {
        return None;
    }
    let mut n: u64 = 0;
    let mut i: usize = start;
    while i < v.len()
        invariant
            start <= i <= v@.len(),
            v@ == s@,
            d == unsigned_digits(s@),
            d == v@.skip(start as int),
            forall|k: int| 0 <= k < i - start ==> is_digit(#[trigger] d[k]),
            n as int == digits_value(d.take(i - start)),
        decreases v@.len() - i,
    {
        let c = v[i];
        assert(c == d[i - start]);
        if !('0' <= c && c <= '9') {
            assert(!is_digit(d[i - start]));
            assert(!all_digits(d));
            return None;
        }
        let digit = (c as u32) - ('0' as u32);
        assert(d.take(i - start + 1).drop_last() =~= d.take(i - start));
        assert(d.take(i - start + 1).last() == c);
        if n > 1844674407370955161 || (n == 1844674407370955161 && digit > 5) {
            proof {
                let nn = n as int;
                let dd = digit as int;
                assert(nn * 10 + dd > u64::MAX) by (nonlinear_arith)
                    requires
                        nn > 1844674407370955161 || (nn == 1844674407370955161 && dd > 5),
                        0 <= dd,
                ;
                assert(digits_value(d.take(i - start + 1)) == nn * 10 + dd);
                if all_digits(d) {
                    lemma_digits_grow(d, i - start + 1);
                }
            }
            return None;
        }
        n = n * 10 + digit as u64;
        i += 1;
    }
    assert(d.take(i - start) =~= d);
    Some(n)
}

/// The wait that a `Retry-After` header in seconds asks for, in
/// milliseconds (multiplied as the release build does, wrapping).
pub open spec fn retry_after_ms_of(header: Option<Seq<char>>) -> Option<u64> {
    match header {
        Some(h) => match parsed_u64(h) {
            Some(s) => Some(((s as int * 1000) % 0x1_0000_0000_0000_0000) as u64),
            None => None,
        },
        None => None,
    }
}

/// The wait that a `Retry-After` header asks for, in milliseconds.
pub fn retry_after_ms(header: Option<String>) -> (r: Option<u64>)
    ensures
        r == retry_after_ms_of(opt_view(header)),
{
    match header {
        Some(h) => match parse_u64(h.as_str()) {
            Some(s) => {
                let ms = s.wrapping_mul(1000);
                Some(ms)
            },
            None => None,
        },
        None => None,
    }
}

/// The error of a failed chat-completions call.
pub open spec fn openai_error(status: u16, retry_after_ms: Option<u64>, text: Seq<char>) -> LlmErrorView {
    let lower = spec_to_lowercase(text);
    if status == 429 {
        LlmErrorView::RateLimited(retry_after_ms)
    } else if status == 401 || status == 403 {
        LlmErrorView::Auth(text)
    } else if status >= 500 && seq_contains(lower, "overload"@) {
        LlmErrorView::Overloaded
    } else if status == 400 && (seq_contains(lower, "context_length"@) || seq_contains(lower, "context length"@)
        || seq_contains(lower, "maximum context"@) || seq_contains(lower, "too long"@) || seq_contains(
        lower,
        "input length"@,
    )) {
        LlmErrorView::PromptTooLong
    } else {
        LlmErrorView::Api(status, text)
    }
}

/// The error of a failed Messages API call.
pub open spec fn anthropic_error(status: u16, retry_after_ms: Option<u64>, text: Seq<char>) -> LlmErrorView {
    let lower = spec_to_lowercase(text);
    if status == 429 {
        LlmErrorView::RateLimited(retry_after_ms)
    } else if status == 529 {
        LlmErrorView::Overloaded
    } else if status == 401 || status == 403 {
        LlmErrorView::Auth(text)
    } else if status == 400 && (seq_contains(lower, "prompt is too long"@) || seq_contains(
        lower,
        "too many tokens"@,
    )) {
        LlmErrorView::PromptTooLong
    } else if seq_contains(lower, "overloaded_error"@) {
        LlmErrorView::Overloaded
    } else {
        LlmErrorView::Api(status, text)
    }
}

/// The value of an error.
pub enum LlmErrorView {
    RateLimited(Option<u64>),
    Overloaded,
    PromptTooLong,
    Auth(Seq<char>),
    Api(u16, Seq<char>),
    Network(Seq<char>),
}

/// The value of an error.
pub open spec fn error_view(e: LlmError) -> LlmErrorView {
    match e {
        LlmError::RateLimited { retry_after_ms } => LlmErrorView::RateLimited(retry_after_ms),
        LlmError::Overloaded => LlmErrorView::Overloaded,
        LlmError::PromptTooLong => LlmErrorView::PromptTooLong,
        LlmError::Auth(m) => LlmErrorView::Auth(m@),
        LlmError::Api { status, message } => LlmErrorView::Api(status, message@),
        LlmError::Network(m) => LlmErrorView::Network(m@),
    }
}

/// The error of a failed chat-completions call (status 400 or more).
pub fn openai_http_error(status: u16, retry_after_ms: Option<u64>, text: String) -> (r: LlmError)
    ensures
        error_view(r) == openai_error(status, retry_after_ms, text@),
{
    let lower = to_lowercase(text.as_str());
    let l = lower.as_str();
    if status == 429 {
        LlmError::RateLimited { retry_after_ms }
    } else if status == 401 || status == 403 {
        LlmError::Auth(text)
    } else if status >= 500 && str_contains(l, "overload") {
        LlmError::Overloaded
    } else if status == 400 && (str_contains(l, "context_length") || str_contains(l, "context length")
        || str_contains(l, "maximum context") || str_contains(l, "too long") || str_contains(l, "input length")) {
        LlmError::PromptTooLong
    } else {
        LlmError::Api { status, message: text }
    }
}

/// The error of a failed Messages API call (status 400 or more).
pub fn anthropic_http_error(status: u16, retry_after_ms: Option<u64>, text: String) -> (r: LlmError)
    ensures
        error_view(r) == anthropic_error(status, retry_after_ms, text@),
{
    let lower = to_lowercase(text.as_str());
    let l = lower.as_str();
    if status == 429 {
        LlmError::RateLimited { retry_after_ms }
    } else if status == 529 {
        LlmError::Overloaded
    } else if status == 401 || status == 403 {
        LlmError::Auth(text)
    } else if status == 400 && (str_contains(l, "prompt is too long") || str_contains(l, "too many tokens")) {
        LlmError::PromptTooLong
    } else if str_contains(l, "overloaded_error") {
        LlmError::Overloaded
    } else {
        LlmError::Api { status, message: text }
    }
}

// ---------------------------------------------------------------------------
// Events and tool arguments
// ---------------------------------------------------------------------------

/// The value of a streaming event.
pub enum EventView {
    TextDelta(Seq<char>),
    ToolUseStart(Seq<char>),
    Done,
}

/// The value of a streaming event.
pub open spec fn event_view(e: StreamEvent) -> EventView {
    match e {
        StreamEvent::TextDelta { text } => EventView::TextDelta(text@),
        StreamEvent::ToolUseStart { name } => EventView::ToolUseStart(name@),
        StreamEvent::Done => EventView::Done,
    }
}

/// The values of a list of events.
pub open spec fn events_view(v: Seq<StreamEvent>) -> Seq<EventView> {
    v.map_values(|e: StreamEvent| event_view(e))
}

/// The input of a streamed tool call: `{}` for blank or unparsable
/// arguments, else their compact JSON.
pub open spec fn call_input(args: Seq<char>) -> Seq<char> {
    if all_ws(args) {
        "{}"@
    } else {
        match spec_json_normalize(args) {
            Some(v) => v,
            None => "{}"@,
        }
    }
}

/// The input of a streamed tool call.
pub fn tool_input(args: &str) -> (r: String)
    ensures
        r@ == call_input(args@),
{
    if is_blank(args) {
        return owned("{}");
    }
    match json_normalize(args) {
        Some(v) => v,
        None => owned("{}"),
    }
}

} // verus!

verus! {

// ---------------------------------------------------------------------------
// Chat-completions stream
// ---------------------------------------------------------------------------

/// A tool call being streamed: id, name, and the arguments so far.
#[derive(Debug, Clone)]
pub struct PartialCall {
    pub id: String,
    pub name: String,
    pub arguments: String,
}

/// The value of a streamed tool call.
pub open spec fn call_view(c: PartialCall) -> (Seq<char>, Seq<char>, Seq<char>) {
    (c.id@, c.name@, c.arguments@)
}

/// The values of the streamed tool calls.
pub open spec fn calls_view(v: Seq<PartialCall>) -> Seq<(Seq<char>, Seq<char>, Seq<char>)> {
    v.map_values(|c: PartialCall| call_view(c))
}

/// What a chat-completions stream has delivered so far.
pub struct OpenAiStream {
    pub text: String,
    pub calls: Vec<PartialCall>,
    pub finish: Option<String>,
    pub input_tokens: Option<u64>,
    pub output_tokens: Option<u64>,
}

/// The value of a chat-completions stream.
pub struct OaiView {
    pub text: Seq<char>,
    pub calls: Seq<(Seq<char>, Seq<char>, Seq<char>)>,
    pub finish: Option<Seq<char>>,
    pub input_tokens: Option<u64>,
    pub output_tokens: Option<u64>,
}

impl View for OpenAiStream {
    type V = OaiView;

    open spec fn view(&self) -> OaiView {
        OaiView {
            text: self.text@,
            calls: calls_view(self.calls@),
            finish: opt_view(self.finish),
            input_tokens: self.input_tokens,
            output_tokens: self.output_tokens,
        }
    }
}

/// A streamed tool-call fragment applied to the calls so far: the list grows
/// to hold its `index`; a non-empty id replaces the id; the first non-empty
/// name is kept (and announced); argument text is appended.
pub open spec fn apply_call_delta(
    calls: Seq<(Seq<char>, Seq<char>, Seq<char>)>,
    tc: Seq<char>,
) -> (Seq<(Seq<char>, Seq<char>, Seq<char>)>, Seq<EventView>) {
    let idx: int = match u64_at_key(tc, "index"@) {
        Some(n) => n as int,
        None => 0,
    };
    let grown = if calls.len() <= idx {
        calls + Seq::new((idx + 1 - calls.len()) as nat, |_i: int| (Seq::<char>::empty(), Seq::<char>::empty(), Seq::<char>::empty()))
    } else {
        calls
    };
    let slot = grown[idx];
    let id = match str_at_key(tc, "id"@) {
        Some(i) => if i.len() > 0 {
            i
        } else {
            slot.0
        },
        None => slot.0,
    };
    let named = match str_at2(tc, "function"@, "name"@) {
        Some(n) => n.len() > 0 && slot.1.len() == 0,
        None => false,
    };
    let name = if named {
        str_at2(tc, "function"@, "name"@)->0
    } else {
        slot.1
    };
    let args = slot.2 + match str_at2(tc, "function"@, "arguments"@) {
        Some(a) => a,
        None => Seq::empty(),
    };
    (grown.update(idx, (id, name, args)), if named {
        seq![EventView::ToolUseStart(name)]
    } else {
        Seq::empty()
    })
}

/// The first `k` fragments of the array `tcs` applied in order.
pub open spec fn apply_call_deltas(
    calls: Seq<(Seq<char>, Seq<char>, Seq<char>)>,
    tcs: Seq<char>,
    k: nat,
) -> (Seq<(Seq<char>, Seq<char>, Seq<char>)>, Seq<EventView>)
    decreases k,
{
    if k == 0 {
        (calls, Seq::empty())
    } else {
        let (c, e) = apply_call_deltas(calls, tcs, (k - 1) as nat);
        match spec_json_at(tcs, k - 1) {
            Some(tc) => {
                let (c2, e2) = apply_call_delta(c, tc);
                (c2, e + e2)
            },
            None => (c, e),
        }
    }
}

/// A chunk of the stream applied to what was delivered: token counts, the
/// finish reason, text (announced), and tool-call fragments.
pub open spec fn oai_chunk(s: OaiView, data: Seq<char>) -> (OaiView, Seq<EventView>) {
    let s1 = match spec_json_get(data, "usage"@) {
        Some(u) => OaiView {
            input_tokens: match u64_at_key(u, "prompt_tokens"@) {
                Some(n) => Some(n),
                None => s.input_tokens,
            },
            output_tokens: match u64_at_key(u, "completion_tokens"@) {
                Some(n) => Some(n),
                None => s.output_tokens,
            },
            ..s
        },
        None => s,
    };
    let choice = match spec_json_get(data, "choices"@) {
        Some(c) => spec_json_at(c, 0),
        None => None,
    };
    match choice {
        None => (s1, Seq::empty()),
        Some(ch) => {
            let s2 = match str_at_key(ch, "finish_reason"@) {
                Some(f) => OaiView { finish: Some(f), ..s1 },
                None => s1,
            };
            let delta = spec_json_get(ch, "delta"@);
            let content = match delta {
                Some(d) => str_at_key(d, "content"@),
                None => None,
            };
            let (s3, e1) = match content {
                Some(t) => if t.len() > 0 {
                    (OaiView { text: s2.text + t, ..s2 }, seq![EventView::TextDelta(t)])
                } else {
                    (s2, Seq::empty())
                },
                None => (s2, Seq::empty()),
            };
            let tcs = match delta {
                Some(d) => spec_json_get(d, "tool_calls"@),
                None => None,
            };
            match tcs {
                Some(a) => match spec_json_len(a) {
                    Some(n) => {
                        let (c, e2) = apply_call_deltas(s3.calls, a, n);
                        (OaiView { calls: c, ..s3 }, e1 + e2)
                    },
                    None => (s3, e1),
                },
                None => (s3, e1),
            }
        },
    }
}

impl OpenAiStream {
    /// Nothing delivered yet.
    pub fn new() -> (r: OpenAiStream)
        ensures
            r@ == (OaiView { text: Seq::empty(), calls: Seq::empty(), finish: None, input_tokens: None, output_tokens: None }),
    {
        let r = OpenAiStream { text: String::new(), calls: Vec::new(), finish: None, input_tokens: None, output_tokens: None };
        assert(r@.calls =~= Seq::<(Seq<char>, Seq<char>, Seq<char>)>::empty());
        r
    }

    fn apply_call(&mut self, tc: &str) -> (r: Vec<StreamEvent>)
        ensures
            final(self)@ == (OaiView { calls: apply_call_delta(old(self)@.calls, tc@).0, ..old(self)@ }),
            events_view(r@) == apply_call_delta(old(self)@.calls, tc@).1,
    {
        let idx: u64 = match get_u64(tc, "index") {
            Some(n) => n,
            None => 0,
        };
        let ghost c0 = self@.calls;
        while (self.calls.len() as u64) <= idx
            invariant
                self.text@ == old(self).text@,
                self.finish == old(self).finish,
                self.input_tokens == old(self).input_tokens,
                self.output_tokens == old(self).output_tokens,
                calls_view(self.calls@).len() <= idx + 1 || c0.len() > idx,
                calls_view(self.calls@) == if c0.len() <= idx {
                    c0 + Seq::new((self.calls@.len() - c0.len()) as nat, |_i: int| (Seq::<char>::empty(), Seq::<char>::empty(), Seq::<char>::empty()))
                } else {
                    c0
                },
                self.calls@.len() >= c0.len(),
            decreases idx + 1 - self.calls@.len(),
        {
            let ghost prev = calls_view(self.calls@);
            self.calls.push(PartialCall { id: String::new(), name: String::new(), arguments: String::new() });
            assert(calls_view(self.calls@) =~= prev.push((Seq::<char>::empty(), Seq::<char>::empty(), Seq::<char>::empty())));
            assert(calls_view(self.calls@) =~= c0 + Seq::new((self.calls@.len() - c0.len()) as nat, |_i: int| (Seq::<char>::empty(), Seq::<char>::empty(), Seq::<char>::empty())));
        }
        let i = idx as usize;
        assert(calls_view(self.calls@) =~= if c0.len() <= idx {
            c0 + Seq::new((idx + 1 - c0.len()) as nat, |_i: int| (Seq::<char>::empty(), Seq::<char>::empty(), Seq::<char>::empty()))
        } else {
            c0
        });
        let slot = {
            let c = &self.calls[i];
            PartialCall { id: c.id.clone(), name: c.name.clone(), arguments: c.arguments.clone() }
        };
        assert(call_view(slot) == call_view(self.calls@[i as int]));
        let id = match get_str(tc, "id") {
            Some(v) => if v.unicode_len() > 0 {
                v
            } else {
                slot.id.clone()
            },
            None => slot.id.clone(),
        };
        let mut events: Vec<StreamEvent> = Vec::new();
        let name = match get_str2(tc, "function", "name") {
            Some(n) => if n.unicode_len() > 0 && slot.name.unicode_len() == 0 {
                events.push(StreamEvent::ToolUseStart { name: n.clone() });
                n
            } else {
                slot.name.clone()
            },
            None => slot.name.clone(),
        };
        let mut args = slot.arguments.clone();
        match get_str2(tc, "function", "arguments") {
            Some(a) => append(&mut args, a.as_str()),
            None => {},
        }
        let ghost nv = (id@, name@, args@);
        self.calls.set(i, PartialCall { id, name, arguments: args });
        proof {
            assert(calls_view(self.calls@) =~= apply_call_delta(c0, tc@).0);
            assert(events_view(events@) =~= apply_call_delta(c0, tc@).1);
        }
        events
    }

    /// Applies one data payload of the stream; gives the events to pass on.
    pub fn on_data(&mut self, data: &str) -> (r: Vec<StreamEvent>)
        ensures
            final(self)@ == oai_chunk(old(self)@, data@).0,
            events_view(r@) == oai_chunk(old(self)@, data@).1,
    {
        match json_get(data, "usage") {
            Some(u) => {
                match get_u64(u.as_str(), "prompt_tokens") {
                    Some(n) => self.input_tokens = Some(n),
                    None => {},
                }
                match get_u64(u.as_str(), "completion_tokens") {
                    Some(n) => self.output_tokens = Some(n),
                    None => {},
                }
            },
            None => {},
        }
        let ghost s1 = self@;
        let choice = match json_get(data, "choices") {
            Some(c) => json_at(c.as_str(), 0),
            None => None,
        };
        let ch = match choice {
            Some(ch) => ch,
            None => return Vec::new(),
        };
        match get_str(ch.as_str(), "finish_reason") {
            Some(f) => self.finish = Some(f),
            None => {},
        }
        let delta = json_get(ch.as_str(), "delta");
        let mut events: Vec<StreamEvent> = Vec::new();
        match &delta {
            Some(d) => match get_str(d.as_str(), "content") {
                Some(t) => {
                    if t.unicode_len() > 0 {
                        append(&mut self.text, t.as_str());
                        events.push(StreamEvent::TextDelta { text: t });
                    }
                },
                None => {},
            },
            None => {},
        }
        let ghost s3 = self@;
        let ghost e1 = events_view(events@);
        let tcs = match &delta {
            Some(d) => json_get(d.as_str(), "tool_calls"),
            None => None,
        };
        match tcs {
            Some(a) => match json_len(a.as_str()) {
                Some(n) => {
                    let mut j: usize = 0;
                    while j < n
                        invariant
                            j <= n,
                            spec_json_len(a@) == Some(n as nat),
                            self@ == (OaiView { calls: apply_call_deltas(s3.calls, a@, j as nat).0, ..s3 }),
                            events_view(events@) == e1 + apply_call_deltas(s3.calls, a@, j as nat).1,
                        decreases n - j,
                    {
                        match json_at(a.as_str(), j) {
                            Some(tc) => {
                                let ev = self.apply_call(tc.as_str());
                                let ghost before = events@;
                                let mut k: usize = 0;
                                while k < ev.len()
                                    invariant
                                        k <= ev@.len(),
                                        events_view(events@) == events_view(before) + events_view(ev@).take(k as int),
                                    decreases ev@.len() - k,
                                {
                                    let e = match &ev[k] {
                                        StreamEvent::TextDelta { text } => StreamEvent::TextDelta { text: text.clone() },
                                        StreamEvent::ToolUseStart { name } => StreamEvent::ToolUseStart { name: name.clone() },
                                        StreamEvent::Done => StreamEvent::Done,
                                    };
                                    assert(event_view(e) == event_view(ev@[k as int]));
                                    let ghost mid = events@;
                                    events.push(e);
                                    assert(events_view(events@) =~= events_view(mid).push(event_view(ev@[k as int])));
                                    assert(events_view(ev@).take(k + 1) =~= events_view(ev@).take(k as int).push(event_view(ev@[k as int])));
                                    assert(events_view(events@) =~= events_view(before) + events_view(ev@).take(k + 1));
                                    k += 1;
                                }
                                assert(events_view(ev@).take(ev@.len() as int) =~= events_view(ev@));
                            },
                            None => {},
                        }
                        j += 1;
                    }
                },
                None => {},
            },
            None => {},
        }
        events
    }
}

} // verus!

verus! {

/// The streamed calls that got a name, with their positions.
pub open spec fn named_calls(calls: Seq<(Seq<char>, Seq<char>, Seq<char>)>) -> Seq<(int, (Seq<char>, Seq<char>, Seq<char>))>
    decreases calls.len(),
{
    if calls.len() == 0 {
        Seq::empty()
    } else {
        let rest = named_calls(calls.drop_last());
        if calls.last().1.len() > 0 {
            rest.push(((calls.len() - 1) as int, calls.last()))
        } else {
            rest
        }
    }
}

/// The block that a named streamed call at position `i` becomes, up to the
/// random part of a made-up id: its name, its input, and its id, or, when
/// it has none, `call_<i>_` and 32 random characters.
pub open spec fn is_call_block(b: BlockView, i: int, c: (Seq<char>, Seq<char>, Seq<char>)) -> bool {
    b matches BlockView::ToolUse(id, name, input) && name == c.1 && input == call_input(c.2) && (c.0.len() > 0
        ==> id == c.0) && (c.0.len() == 0 ==> seq_starts_with(id, "call_"@ + decimal(i as nat) + "_"@) && id.len()
        == ("call_"@ + decimal(i as nat) + "_"@).len() + 32)
}

/// Why a streamed reply stopped: the finish reason `length` or
/// `tool_calls`, else whether it holds tool calls.
pub open spec fn oai_stop(finish: Option<Seq<char>>, has_calls: bool) -> StopReason {
    if finish == Some("length"@) {
        StopReason::MaxTokens
    } else if finish == Some("tool_calls"@) {
        StopReason::ToolUse
    } else if has_calls {
        StopReason::ToolUse
    } else {
        StopReason::EndTurn
    }
}

/// The reply a finished OpenAI stream gives: the text (when any), then one
/// tool call per named streamed call in index order; the stop reason from
/// the finish reason and the calls; the token counts as reported.
pub open spec fn oai_reply(s: OaiView, r: LlmResponse) -> bool {
    let named = named_calls(s.calls);
    let tb: int = if s.text.len() > 0 {
        1
    } else {
        0
    };
    let c = blocks_view(r.content@);
    &&& c.len() == tb + named.len()
    &&& (tb == 1 ==> c[0] == BlockView::Text(s.text))
    &&& forall|j: int| 0 <= j < named.len() ==> is_call_block(#[trigger] c[tb + j], named[j].0, named[j].1)
    &&& r.stop_reason == oai_stop(s.finish, named.len() > 0)
    &&& r.input_tokens == s.input_tokens
    &&& r.output_tokens == s.output_tokens
}

impl OpenAiStream {
    /// The end of the stream: the reply (the text, when any, then the named
    /// tool calls in order) and the final `Done` event.
    pub fn finish(self) -> (r: (LlmResponse, StreamEvent))
        ensures
            oai_reply(self@, r.0),
            r.1 is Done,
    {
        let resp = self.reply();
        (resp, StreamEvent::Done)
    }

    /// The reply: the text (when any), then the named tool calls in order.
    fn reply(self) -> (r: LlmResponse)
        ensures
            oai_reply(self@, r),
    {
        let ghost s = self@;
        let mut content: Vec<ContentBlock> = Vec::new();
        let has_text = self.text.unicode_len() > 0;
        let ghost tb: int = if has_text {
            1
        } else {
            0
        };
        if has_text {
            content.push(ContentBlock::Text { text: self.text });
        }
        let mut i: usize = 0;
        while i < self.calls.len()
            invariant
                i <= self.calls@.len(),
                s.calls == calls_view(self.calls@),
                tb == (if s.text.len() > 0 { 1int } else { 0int }),
                blocks_view(content@).len() == tb + named_calls(s.calls.take(i as int)).len(),
                tb == 1 ==> blocks_view(content@)[0] == BlockView::Text(s.text),
                forall|j: int|
                    0 <= j < named_calls(s.calls.take(i as int)).len() ==> is_call_block(
                        #[trigger] blocks_view(content@)[tb + j],
                        named_calls(s.calls.take(i as int))[j].0,
                        named_calls(s.calls.take(i as int))[j].1,
                    ),
            decreases self.calls@.len() - i,
        {
            proof {
                assert(s.calls.take(i + 1).drop_last() =~= s.calls.take(i as int));
            }
            let c = &self.calls[i];
            if c.name.unicode_len() > 0 {
                let input = tool_input(c.arguments.as_str());
                let id = if c.id.unicode_len() == 0 {
                    let mut t = owned("call_");
                    let d = decimal_string(i as u64);
                    append(&mut t, d.as_str());
                    append(&mut t, "_");
                    let ghost pre = t@;
                    let h = random_hex_id();
                    append(&mut t, h.as_str());
                    assert(t@.subrange(0, pre.len() as int) =~= pre);
                    t
                } else {
                    c.id.clone()
                };
                let ghost prev = content@;
                content.push(ContentBlock::ToolUse { id, name: c.name.clone(), input });
                proof {
                    let n2 = named_calls(s.calls.take(i + 1));
                    let n1 = named_calls(s.calls.take(i as int));
                    assert(n2 == n1.push((i as int, s.calls[i as int])));
                    assert(blocks_view(content@) =~= blocks_view(prev).push(blocks_view(content@).last()));
                    assert forall|j: int| 0 <= j < n2.len() implies is_call_block(
                        #[trigger] blocks_view(content@)[tb + j],
                        n2[j].0,
                        n2[j].1,
                    ) by {
                        if j < n1.len() {
                            assert(blocks_view(content@)[tb + j] == blocks_view(prev)[tb + j]);
                        }
                    }
                }
            }
            i += 1;
        }
        assert(s.calls.take(self.calls@.len() as int) =~= s.calls);
        let ghost named = named_calls(s.calls);
        let mut has_calls = false;
        let mut k: usize = 0;
        while k < content.len()
            invariant
                k <= content@.len(),
                has_calls == exists|j: int| 0 <= j < k && (#[trigger] blocks_view(content@)[j]) is ToolUse,
            decreases content@.len() - k,
        {
            match &content[k] {
                ContentBlock::ToolUse { .. } => {
                    has_calls = true;
                    assert(blocks_view(content@)[k as int] is ToolUse);
                },
                _ => {},
            }
            k += 1;
        }
        proof {
            if named.len() > 0 {
                assert(is_call_block(blocks_view(content@)[tb + 0], named[0].0, named[0].1));
            }
            if has_calls {
                let j = choose|j: int| 0 <= j < content@.len() && (#[trigger] blocks_view(content@)[j]) is ToolUse;
                if named.len() == 0 {
                    assert(j == 0 && tb == 1);
                }
            }
        }
        let stop_reason = match &self.finish {
            Some(f) => if str_eq(f.as_str(), "length") {
                StopReason::MaxTokens
            } else if str_eq(f.as_str(), "tool_calls") {
                StopReason::ToolUse
            } else if has_calls {
                StopReason::ToolUse
            } else {
                StopReason::EndTurn
            },
            None => if has_calls {
                StopReason::ToolUse
            } else {
                StopReason::EndTurn
            },
        };
        LlmResponse { content, stop_reason, input_tokens: self.input_tokens, output_tokens: self.output_tokens }
    }
}

} // verus!

verus! {

// ---------------------------------------------------------------------------
// Messages API stream
// ---------------------------------------------------------------------------

/// A content block being streamed.
pub enum PartialBlock {
    Text(String),
    ToolUse { id: String, name: String, json_buf: String },
}

/// The value of a block being streamed.
pub enum PartialView {
    Text(Seq<char>),
    ToolUse(Seq<char>, Seq<char>, Seq<char>),
}

/// The value of a block being streamed.
pub open spec fn partial_view(b: PartialBlock) -> PartialView {
    match b {
        PartialBlock::Text(t) => PartialView::Text(t@),
        PartialBlock::ToolUse { id, name, json_buf } => PartialView::ToolUse(id@, name@, json_buf@),
    }
}

/// The values of the blocks being streamed.
pub open spec fn partials_view(v: Seq<PartialBlock>) -> Seq<PartialView> {
    v.map_values(|b: PartialBlock| partial_view(b))
}

/// What a Messages API stream has delivered so far.
pub struct AnthropicStream {
    pub blocks: Vec<PartialBlock>,
    pub stop_reason: StopReason,
    pub input_tokens: Option<u64>,
    pub output_tokens: Option<u64>,
    pub error: Option<LlmError>,
}

/// The value of a Messages API stream.
pub struct AntView {
    pub blocks: Seq<PartialView>,
    pub stop_reason: StopReason,
    pub input_tokens: Option<u64>,
    pub output_tokens: Option<u64>,
    pub error: Option<LlmErrorView>,
}

impl View for AnthropicStream {
    type V = AntView;

    open spec fn view(&self) -> AntView {
        AntView {
            blocks: partials_view(self.blocks@),
            stop_reason: self.stop_reason,
            input_tokens: self.input_tokens,
            output_tokens: self.output_tokens,
            error: match self.error {
                Some(e) => Some(error_view(e)),
                None => None,
            },
        }
    }
}

/// A text, or the empty text.
pub open spec fn or_empty(o: Option<Seq<char>>) -> Seq<char> {
    match o {
        Some(s) => s,
        None => Seq::empty(),
    }
}

/// A string field of an optional JSON object text.
pub open spec fn field_of(o: Option<Seq<char>>, key: Seq<char>) -> Option<Seq<char>> {
    match o {
        Some(v) => str_at_key(v, key),
        None => None,
    }
}

/// An event of the Messages API stream applied to what was delivered.
pub open spec fn ant_event(s: AntView, data: Seq<char>) -> (AntView, Seq<EventView>) {
    let t = or_empty(str_at_key(data, "type"@));
    if t == "message_start"@ {
        (AntView {
            input_tokens: match spec_json_get(data, "message"@) {
                Some(m) => u64_at2(m, "usage"@, "input_tokens"@),
                None => None,
            },
            ..s
        }, Seq::empty())
    } else if t == "content_block_start"@ {
        let cb = spec_json_get(data, "content_block"@);
        if or_empty(field_of(cb, "type"@)) == "tool_use"@ {
            let name = or_empty(field_of(cb, "name"@));
            (AntView {
                blocks: s.blocks.push(PartialView::ToolUse(or_empty(field_of(cb, "id"@)), name, Seq::empty())),
                ..s
            }, seq![EventView::ToolUseStart(name)])
        } else {
            (AntView { blocks: s.blocks.push(PartialView::Text(or_empty(field_of(cb, "text"@)))), ..s }, Seq::empty())
        }
    } else if t == "content_block_delta"@ {
        let idx: int = match u64_at_key(data, "index"@) {
            Some(n) => n as int,
            None => 0,
        };
        let delta = spec_json_get(data, "delta"@);
        let dt = or_empty(field_of(delta, "type"@));
        if idx >= s.blocks.len() {
            (s, Seq::empty())
        } else if dt == "text_delta"@ {
            let piece = or_empty(field_of(delta, "text"@));
            (AntView {
                blocks: match s.blocks[idx] {
                    PartialView::Text(x) => s.blocks.update(idx, PartialView::Text(x + piece)),
                    _ => s.blocks,
                },
                ..s
            }, seq![EventView::TextDelta(piece)])
        } else if dt == "input_json_delta"@ {
            let piece = or_empty(field_of(delta, "partial_json"@));
            (AntView {
                blocks: match s.blocks[idx] {
                    PartialView::ToolUse(id, name, buf) => s.blocks.update(idx, PartialView::ToolUse(id, name, buf + piece)),
                    _ => s.blocks,
                },
                ..s
            }, Seq::empty())
        } else {
            (s, Seq::empty())
        }
    } else if t == "message_delta"@ {
        let sr = match spec_json_get(data, "delta"@) {
            Some(d) => or_empty(str_at_key(d, "stop_reason"@)),
            None => Seq::empty(),
        };
        (AntView {
            output_tokens: match u64_at2(data, "usage"@, "output_tokens"@) {
                Some(n) => Some(n),
                None => s.output_tokens,
            },
            stop_reason: if sr == "tool_use"@ {
                StopReason::ToolUse
            } else if sr == "max_tokens"@ {
                StopReason::MaxTokens
            } else if sr.len() == 0 {
                s.stop_reason
            } else {
                StopReason::EndTurn
            },
            ..s
        }, Seq::empty())
    } else if t == "error"@ {
        let et = or_empty(str_at2(data, "error"@, "type"@));
        let msg = or_empty(str_at2(data, "error"@, "message"@));
        (AntView {
            error: Some(
                if et == "overloaded_error"@ {
                    LlmErrorView::Overloaded
                } else if et == "rate_limit_error"@ {
                    LlmErrorView::RateLimited(None)
                } else {
                    LlmErrorView::Api(0, msg)
                },
            ),
            ..s
        }, Seq::empty())
    } else {
        (s, Seq::empty())
    }
}

fn str_or_empty(o: Option<String>) -> (r: String)
    ensures
        r@ == or_empty(opt_view(o)),
{
    match o {
        Some(s) => s,
        None => String::new(),
    }
}

fn field_str(o: &Option<String>, key: &str) -> (r: Option<String>)
    ensures
        opt_view(r) == field_of(opt_view(*o), key@),
{
    match o {
        Some(v) => get_str(v.as_str(), key),
        None => None,
    }
}

impl AnthropicStream {
    /// Nothing delivered yet.
    pub fn new() -> (r: AnthropicStream)
        ensures
            r@ == (AntView {
                blocks: Seq::empty(),
                stop_reason: StopReason::EndTurn,
                input_tokens: None,
                output_tokens: None,
                error: None,
            }),
    {
        let r = AnthropicStream {
            blocks: Vec::new(),
            stop_reason: StopReason::EndTurn,
            input_tokens: None,
            output_tokens: None,
            error: None,
        };
        assert(r@.blocks =~= Seq::<PartialView>::empty());
        r
    }

    /// Applies one data payload of the stream; gives the events to pass on.
    pub fn on_data(&mut self, data: &str) -> (r: Vec<StreamEvent>)
        ensures
            final(self)@ == ant_event(old(self)@, data@).0,
            events_view(r@) == ant_event(old(self)@, data@).1,
    {
        let mut events: Vec<StreamEvent> = Vec::new();
        let t = str_or_empty(get_str(data, "type"));
        let ts = t.as_str();
        if str_eq(ts, "message_start") {
            self.input_tokens = match json_get(data, "message") {
                Some(m) => get_u64_2(m.as_str(), "usage", "input_tokens"),
                None => None,
            };
        } else if str_eq(ts, "content_block_start") {
            let cb = json_get(data, "content_block");
            let ct = str_or_empty(field_str(&cb, "type"));
            if str_eq(ct.as_str(), "tool_use") {
                let name = str_or_empty(field_str(&cb, "name"));
                events.push(StreamEvent::ToolUseStart { name: name.clone() });
                let id = str_or_empty(field_str(&cb, "id"));
                let ghost prev = self.blocks@;
                self.blocks.push(PartialBlock::ToolUse { id, name, json_buf: String::new() });
                assert(partials_view(self.blocks@) =~= partials_view(prev).push(partial_view(self.blocks@.last())));
            } else {
                let text = str_or_empty(field_str(&cb, "text"));
                let ghost prev = self.blocks@;
                self.blocks.push(PartialBlock::Text(text));
                assert(partials_view(self.blocks@) =~= partials_view(prev).push(partial_view(self.blocks@.last())));
            }
        } else if str_eq(ts, "content_block_delta") {
            let idx: u64 = match get_u64(data, "index") {
                Some(n) => n,
                None => 0,
            };
            let delta = json_get(data, "delta");
            let dt = str_or_empty(field_str(&delta, "type"));
            if idx < self.blocks.len() as u64 {
                let i = idx as usize;
                if str_eq(dt.as_str(), "text_delta") {
                    let piece = str_or_empty(field_str(&delta, "text"));
                    let updated = match &self.blocks[i] {
                        PartialBlock::Text(x) => {
                            let mut y = x.clone();
                            append(&mut y, piece.as_str());
                            Some(PartialBlock::Text(y))
                        },
                        _ => None,
                    };
                    match updated {
                        Some(b) => {
                            let ghost prev = self.blocks@;
                            self.blocks.set(i, b);
                            assert(partials_view(self.blocks@) =~= partials_view(prev).update(i as int, partial_view(self.blocks@[i as int])));
                        },
                        None => {},
                    }
                    events.push(StreamEvent::TextDelta { text: piece });
                } else if str_eq(dt.as_str(), "input_json_delta") {
                    let piece = str_or_empty(field_str(&delta, "partial_json"));
                    let updated = match &self.blocks[i] {
                        PartialBlock::ToolUse { id, name, json_buf } => {
                            let mut y = json_buf.clone();
                            append(&mut y, piece.as_str());
                            Some(PartialBlock::ToolUse { id: id.clone(), name: name.clone(), json_buf: y })
                        },
                        _ => None,
                    };
                    match updated {
                        Some(b) => {
                            let ghost prev = self.blocks@;
                            self.blocks.set(i, b);
                            assert(partials_view(self.blocks@) =~= partials_view(prev).update(i as int, partial_view(self.blocks@[i as int])));
                        },
                        None => {},
                    }
                }
            }
        } else if str_eq(ts, "message_delta") {
            match get_u64_2(data, "usage", "output_tokens") {
                Some(n) => self.output_tokens = Some(n),
                None => {},
            }
            let sr = match json_get(data, "delta") {
                Some(d) => str_or_empty(get_str(d.as_str(), "stop_reason")),
                None => String::new(),
            };
            if str_eq(sr.as_str(), "tool_use") {
                self.stop_reason = StopReason::ToolUse;
            } else if str_eq(sr.as_str(), "max_tokens") {
                self.stop_reason = StopReason::MaxTokens;
            } else if sr.unicode_len() == 0 {
            } else {
                self.stop_reason = StopReason::EndTurn;
            }
        } else if str_eq(ts, "error") {
            let et = str_or_empty(get_str2(data, "error", "type"));
            let msg = str_or_empty(get_str2(data, "error", "message"));
            self.error = Some(
                if str_eq(et.as_str(), "overloaded_error") {
                    LlmError::Overloaded
                } else if str_eq(et.as_str(), "rate_limit_error") {
                    LlmError::RateLimited { retry_after_ms: None }
                } else {
                    LlmError::Api { status: 0, message: msg }
                },
            );
        }
        proof {
            assert(events_view(events@) =~= ant_event(old(self)@, data@).1);
        }
        events
    }

    /// The end of the stream: the reply (non-empty texts and the tool calls,
    /// in order) with the final `Done` event, or the error the stream
    /// reported.
    pub fn finish(self) -> (r: Result<(LlmResponse, StreamEvent), LlmError>)
        ensures
            match self@.error {
                Some(e) => r matches Err(x) && error_view(x) == e,
                None => r matches Ok((resp, done)) && done is Done && blocks_view(resp.content@) == ant_blocks(self@.blocks)
                    && resp.stop_reason == self@.stop_reason && resp.input_tokens == self@.input_tokens
                    && resp.output_tokens == self@.output_tokens,
            },
    {
        match self.reply() {
            Ok(resp) => Ok((resp, StreamEvent::Done)),
            Err(e) => Err(e),
        }
    }

    /// The reply, or the error the stream reported: non-empty texts and the
    /// tool calls, in order.
    fn reply(self) -> (r: Result<LlmResponse, LlmError>)
        ensures
            match self@.error {
                Some(e) => r matches Err(x) && error_view(x) == e,
                None => r matches Ok(resp) && blocks_view(resp.content@) == ant_blocks(self@.blocks)
                    && resp.stop_reason == self@.stop_reason && resp.input_tokens == self@.input_tokens
                    && resp.output_tokens == self@.output_tokens,
            },
    {
        match self.error {
            Some(e) => return Err(e),
            None => {},
        }
        let ghost bv = partials_view(self.blocks@);
        let mut content: Vec<ContentBlock> = Vec::new();
        let mut i: usize = 0;
        while i < self.blocks.len()
            invariant
                i <= self.blocks@.len(),
                bv == partials_view(self.blocks@),
                blocks_view(content@) == ant_blocks(bv.take(i as int)),
            decreases self.blocks@.len() - i,
        {
            proof {
                assert(bv.take(i + 1).drop_last() =~= bv.take(i as int));
            }
            let ghost prev = content@;
            match &self.blocks[i] {
                PartialBlock::Text(s) => {
                    if s.unicode_len() > 0 {
                        content.push(ContentBlock::Text { text: s.clone() });
                        assert(blocks_view(content@) =~= blocks_view(prev).push(BlockView::Text(s@)));
                    }
                },
                PartialBlock::ToolUse { id, name, json_buf } => {
                    let input = tool_input(json_buf.as_str());
                    content.push(ContentBlock::ToolUse { id: id.clone(), name: name.clone(), input });
                    assert(blocks_view(content@) =~= blocks_view(prev).push(BlockView::ToolUse(id@, name@, call_input(json_buf@))));
                },
            }
            i += 1;
        }
        assert(bv.take(self.blocks@.len() as int) =~= bv);
        Ok(LlmResponse {
            content,
            stop_reason: self.stop_reason,
            input_tokens: self.input_tokens,
            output_tokens: self.output_tokens,
        })
    }
}

/// The blocks of the reply: non-empty texts, and tool calls with their
/// parsed input.
pub open spec fn ant_blocks(bs: Seq<PartialView>) -> Seq<BlockView>
    decreases bs.len(),
{
    if bs.len() == 0 {
        Seq::empty()
    } else {
        let rest = ant_blocks(bs.drop_last());
        match bs.last() {
            PartialView::Text(t) => if t.len() > 0 {
                rest.push(BlockView::Text(t))
            } else {
                rest
            },
            PartialView::ToolUse(id, name, buf) => rest.push(BlockView::ToolUse(id, name, call_input(buf))),
        }
    }
}

/// A text delta for a text block already open appends its text to that
/// block: the block's text becomes its previous text followed by the delta's
/// `text`, every other block stays as it was, and the delta's text is handed
/// on as the one streamed event.
pub proof fn law_text_delta_appends(s: AntView, data: Seq<char>, n: u64, prev: Seq<char>, piece: Seq<char>)
    requires
        str_at_key(data, "type"@) == Some("content_block_delta"@),
        u64_at_key(data, "index"@) == Some(n),
        n < s.blocks.len(),
        s.blocks[n as int] == PartialView::Text(prev),
        spec_json_get(data, "delta"@) matches Some(d) && str_at_key(d, "type"@) == Some("text_delta"@) && str_at_key(
            d,
            "text"@,
        ) == Some(piece),
    ensures
        ant_event(s, data).0.blocks.len() == s.blocks.len(),
        ant_event(s, data).0.blocks[n as int] == PartialView::Text(prev + piece),
        forall|j: int| 0 <= j < s.blocks.len() && j != n ==> ant_event(s, data).0.blocks[j] == s.blocks[j],
        ant_event(s, data).1 == seq![EventView::TextDelta(piece)],
{
    reveal_strlit("content_block_delta");
    reveal_strlit("message_start");
    reveal_strlit("content_block_start");
    let t = or_empty(str_at_key(data, "type"@));
    assert(t == "content_block_delta"@);
    assert(t != "message_start"@);
    assert("content_block_delta"@[14] != "content_block_start"@[14]);
    assert(t != "content_block_start"@);
    let d = spec_json_get(data, "delta"@)->0;
    assert(field_of(spec_json_get(data, "delta"@), "type"@) == Some("text_delta"@));
    assert(or_empty(field_of(spec_json_get(data, "delta"@), "text"@)) == piece);
}

} // verus!
