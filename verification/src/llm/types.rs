//! The provider-neutral message model shared by both wire protocols
//! (Anthropic content blocks and OpenAI function calling), token estimates and
//! the classification of provider errors.
//!
//! A tool call's input is held as its compact JSON text.

use vstd::prelude::*;

use crate::text::{char_count, decimal, decimal_string, join, join_strings, owned, views};

verus! {

/// Who wrote a message.
#[derive(Debug, Clone, Copy, PartialEq, Eq, Structural)]
pub enum Role {
    User,
    Assistant,
}

/// One block of a message.
#[derive(Debug, Clone)]
pub enum ContentBlock {
    Text { text: String },
    /// A tool call; `input` is the compact JSON text of its arguments.
    ToolUse { id: String, name: String, input: String },
    ToolResult { tool_use_id: String, content: String, is_error: bool },
}

/// A message: a role and its blocks.
#[derive(Debug, Clone)]
pub struct Message {
    pub role: Role,
    pub content: Vec<ContentBlock>,
}

/// The value of a block, its texts taken by their views.
pub enum BlockView {
    Text(Seq<char>),
    ToolUse(Seq<char>, Seq<char>, Seq<char>),
    ToolResult(Seq<char>, Seq<char>, bool),
}

/// The value of a message.
pub struct MessageView {
    pub role: Role,
    pub content: Seq<BlockView>,
}

impl View for ContentBlock {
    type V = BlockView;

    open spec fn view(&self) -> BlockView {
        match self {
            ContentBlock::Text { text } => BlockView::Text(text@),
            ContentBlock::ToolUse { id, name, input } => BlockView::ToolUse(id@, name@, input@),
            ContentBlock::ToolResult { tool_use_id, content, is_error } => BlockView::ToolResult(
                tool_use_id@,
                content@,
                *is_error,
            ),
        }
    }
}

/// The values of a list of blocks.
pub open spec fn blocks_view(bs: Seq<ContentBlock>) -> Seq<BlockView> {
    bs.map_values(|b: ContentBlock| b@)
}

impl View for Message {
    type V = MessageView;

    open spec fn view(&self) -> MessageView {
        MessageView { role: self.role, content: blocks_view(self.content@) }
    }
}

/// The values of a list of messages.
pub open spec fn msgs_view(ms: Seq<Message>) -> Seq<MessageView> {
    ms.map_values(|m: Message| m@)
}

/// The texts of the `Text` blocks, in order.
pub open spec fn text_parts(blocks: Seq<BlockView>) -> Seq<Seq<char>>
    decreases blocks.len(),
{
    if blocks.len() == 0 {
        Seq::empty()
    } else {
        let rest = text_parts(blocks.drop_last());
        match blocks.last() {
            BlockView::Text(text) => rest.push(text),
            _ => rest,
        }
    }
}

/// The tool calls, as (id, name, input) triples, in order.
pub open spec fn tool_use_parts(blocks: Seq<BlockView>) -> Seq<(Seq<char>, Seq<char>, Seq<char>)>
    decreases blocks.len(),
{
    if blocks.len() == 0 {
        Seq::empty()
    } else {
        let rest = tool_use_parts(blocks.drop_last());
        match blocks.last() {
            BlockView::ToolUse(id, name, input) => rest.push((id, name, input)),
            _ => rest,
        }
    }
}

/// Whether some block is a tool call.
pub open spec fn has_tool_use(blocks: Seq<BlockView>) -> bool {
    exists|i: int| 0 <= i < blocks.len() && (#[trigger] blocks[i]) is ToolUse
}

/// The newline-joined text of a message.
pub open spec fn message_text(m: MessageView) -> Seq<char> {
    join(text_parts(m.content), seq!['\n'])
}

impl ContentBlock {
    /// A copy of this block.
    pub fn duplicate(&self) -> (r: ContentBlock)
        ensures
            r@ == self@,
    {
        match self {
            ContentBlock::Text { text } => ContentBlock::Text { text: text.clone() },
            ContentBlock::ToolUse { id, name, input } => ContentBlock::ToolUse {
                id: id.clone(),
                name: name.clone(),
                input: input.clone(),
            },
            ContentBlock::ToolResult { tool_use_id, content, is_error } => ContentBlock::ToolResult {
                tool_use_id: tool_use_id.clone(),
                content: content.clone(),
                is_error: *is_error,
            },
        }
    }
}

/// A copy of a list of blocks.
pub fn duplicate_blocks(v: &Vec<ContentBlock>) -> (r: Vec<ContentBlock>)
    ensures
        blocks_view(r@) == blocks_view(v@),
{
    let mut out: Vec<ContentBlock> = Vec::new();
    let mut i: usize = 0;
    while i < v.len()
        invariant
            i <= v@.len(),
            blocks_view(out@) == blocks_view(v@).take(i as int),
        decreases v@.len() - i,
    {
        let ghost prev = out@;
        out.push(v[i].duplicate());
        assert(blocks_view(out@) =~= blocks_view(prev).push(v@[i as int]@));
        assert(blocks_view(out@) =~= blocks_view(v@).take(i + 1));
        i += 1;
    }
    assert(blocks_view(v@).take(v@.len() as int) =~= blocks_view(v@));
    out
}

/// The texts of the `Text` blocks of `blocks`, joined with newlines.
pub fn join_texts(blocks: &Vec<ContentBlock>) -> (r: String)
    ensures
        r@ == join(text_parts(blocks_view(blocks@)), seq!['\n']),
{
    proof {
        reveal_strlit("\n");
        assert("\n"@ =~= seq!['\n']);
    }
    join_texts_with(blocks, "\n")
}

/// The texts of the `Text` blocks of `blocks`, joined with `sep`.
pub fn join_texts_with(blocks: &Vec<ContentBlock>, sep: &str) -> (r: String)
    ensures
        r@ == join(text_parts(blocks_view(blocks@)), sep@),
{
    let ghost bv = blocks_view(blocks@);
    let mut parts: Vec<String> = Vec::new();
    let mut i: usize = 0;
    while i < blocks.len()
        invariant
            i <= blocks@.len(),
            bv == blocks_view(blocks@),
            views(parts@) == text_parts(bv.take(i as int)),
        decreases blocks@.len() - i,
    {
        proof {
            assert(bv.take(i + 1).drop_last() =~= bv.take(i as int));
        }
        match &blocks[i] {
            ContentBlock::Text { text } => {
                parts.push(text.clone());
                assert(views(parts@) =~= text_parts(bv.take(i as int)).push(text@));
            },
            _ => {},
        }
        i += 1;
    }
    assert(bv.take(bv.len() as int) =~= bv);
    join_strings(&parts, sep)
}

impl Message {
    /// The value of a user message holding one text block.
    pub open spec fn user_text_spec(text: Seq<char>) -> MessageView {
        MessageView { role: Role::User, content: seq![BlockView::Text(text)] }
    }

    /// A user message holding one text block.
    pub fn user_text(text: String) -> (r: Message)
        ensures
            r@ == (MessageView { role: Role::User, content: seq![BlockView::Text(text@)] }),
    {
        let r = Message { role: Role::User, content: vec![ContentBlock::Text { text }] };
        assert(r@.content =~= seq![BlockView::Text(text@)]);
        r
    }

    /// An assistant message holding one text block.
    pub fn assistant_text(text: String) -> (r: Message)
        ensures
            r@ == (MessageView { role: Role::Assistant, content: seq![BlockView::Text(text@)] }),
    {
        let r = Message { role: Role::Assistant, content: vec![ContentBlock::Text { text }] };
        assert(r@.content =~= seq![BlockView::Text(text@)]);
        r
    }

    /// A user message carrying tool results.
    pub fn tool_results(results: Vec<ContentBlock>) -> (r: Message)
        ensures
            r@ == (MessageView { role: Role::User, content: blocks_view(results@) }),
    {
        Message { role: Role::User, content: results }
    }

    /// A copy of this message.
    pub fn duplicate(&self) -> (r: Message)
        ensures
            r@ == self@,
    {
        Message { role: self.role, content: duplicate_blocks(&self.content) }
    }

    /// All text blocks joined with newlines.
    pub fn text(&self) -> (r: String)
        ensures
            r@ == message_text(self@),
    {
        join_texts(&self.content)
    }

    /// The tool calls of this message as (id, name, input) triples.
    pub fn tool_uses(&self) -> (r: Vec<(String, String, String)>)
        ensures
            r@.map_values(|t: (String, String, String)| (t.0@, t.1@, t.2@)) == tool_use_parts(
                self@.content,
            ),
    {
        let mut out: Vec<(String, String, String)> = Vec::new();
        let mut i: usize = 0;
        while i < self.content.len()
            invariant
                i <= self.content@.len(),
                out@.map_values(|t: (String, String, String)| (t.0@, t.1@, t.2@))
                    == tool_use_parts(self@.content.take(i as int)),
            decreases self.content@.len() - i,
        {
            proof {
                assert(self@.content.take(i + 1).drop_last() =~= self@.content.take(i as int));
            }
            match &self.content[i] {
                ContentBlock::ToolUse { id, name, input } => {
                    let ghost before = out@;
                    out.push((id.clone(), name.clone(), input.clone()));
                    assert(out@.map_values(|t: (String, String, String)| (t.0@, t.1@, t.2@))
                        =~= before.map_values(|t: (String, String, String)| (t.0@, t.1@, t.2@)).push(
                        (id@, name@, input@),
                    ));
                },
                _ => {},
            }
            i += 1;
        }
        assert(self@.content.take(self@.content.len() as int) =~= self@.content);
        out
    }
}

/// Why the model stopped.
#[derive(Debug, Clone, Copy, PartialEq, Eq, Structural)]
pub enum StopReason {
    EndTurn,
    ToolUse,
    MaxTokens,
}

/// A complete model reply.
#[derive(Debug, Clone)]
pub struct LlmResponse {
    pub content: Vec<ContentBlock>,
    pub stop_reason: StopReason,
    pub input_tokens: Option<u64>,
    pub output_tokens: Option<u64>,
}

impl LlmResponse {
    /// The loop must go on: the model asked for tools, by its stop reason or by
    /// a tool call among its blocks.
    pub fn needs_follow_up(&self) -> (r: bool)
        ensures
            r == (self.stop_reason == StopReason::ToolUse || has_tool_use(blocks_view(self.content@))),
    {
        if self.stop_reason == StopReason::ToolUse {
            return true;
        }
        let mut i: usize = 0;
        while i < self.content.len()
            invariant
                i <= self.content@.len(),
                forall|k: int| 0 <= k < i ==> !(#[trigger] blocks_view(self.content@)[k] is ToolUse),
            decreases self.content@.len() - i,
        {
            match &self.content[i] {
                ContentBlock::ToolUse { .. } => {
                    assert(blocks_view(self.content@)[i as int] is ToolUse);
                    return true;
                },
                _ => {},
            }
            i += 1;
        }
        false
    }
}

/// A tool definition offered to the model; `input_schema` is JSON text.
#[derive(Debug, Clone)]
pub struct ToolSpec {
    pub name: String,
    pub description: String,
    pub input_schema: String,
}

/// A chat request.
#[derive(Debug, Clone)]
pub struct ChatRequest {
    pub model: String,
    pub system: String,
    pub messages: Vec<Message>,
    pub tools: Vec<ToolSpec>,
    pub max_tokens: u32,
    pub thinking: ThinkingLevel,
}

/// How much the model should reason before answering.
#[derive(Debug, Clone, Copy, PartialEq, Eq, Structural)]
pub enum ThinkingLevel {
    Off,
    Low,
    Medium,
    High,
}

impl ThinkingLevel {
    /// The thinking token budget of the level.
    pub fn budget_tokens(self) -> (r: Option<u32>)
        ensures
            r == match self {
                ThinkingLevel::Off => None,
                ThinkingLevel::Low => Some(2048u32),
                ThinkingLevel::Medium => Some(8192u32),
                ThinkingLevel::High => Some(16384u32),
            },
    {
        match self {
            ThinkingLevel::Off => None,
            ThinkingLevel::Low => Some(2048),
            ThinkingLevel::Medium => Some(8192),
            ThinkingLevel::High => Some(16384),
        }
    }

    /// The `reasoning_effort` word of the level.
    pub fn reasoning_effort(self) -> (r: Option<&'static str>)
        ensures
            match self {
                ThinkingLevel::Off => r is None,
                ThinkingLevel::Low => r is Some && r->0@ == "low"@,
                ThinkingLevel::Medium => r is Some && r->0@ == "medium"@,
                ThinkingLevel::High => r is Some && r->0@ == "high"@,
            },
    {
        match self {
            ThinkingLevel::Off => None,
            ThinkingLevel::Low => Some("low"),
            ThinkingLevel::Medium => Some("medium"),
            ThinkingLevel::High => Some("high"),
        }
    }

    /// Whether thinking is on.
    pub fn enabled(self) -> (r: bool)
        ensures
            r == (self != ThinkingLevel::Off),
    {
        !matches!(self, ThinkingLevel::Off)
    }
}

impl Default for ThinkingLevel {
    fn default() -> (r: ThinkingLevel)
        ensures
            r == ThinkingLevel::Off,
    {
        ThinkingLevel::Off
    }
}

/// A streaming event pushed to the front end.
#[derive(Debug, Clone)]
pub enum StreamEvent {
    TextDelta { text: String },
    ToolUseStart { name: String },
    Done,
}

/// The classes of provider errors that recovery distinguishes.
#[derive(Debug, Clone)]
pub enum LlmError {
    /// HTTP 429, with the server's `Retry-After` in milliseconds when given.
    RateLimited { retry_after_ms: Option<u64> },
    /// HTTP 529 / `overloaded_error`.
    Overloaded,
    /// The request exceeds the context window.
    PromptTooLong,
    /// HTTP 401/403.
    Auth(String),
    /// Any other API error.
    Api { status: u16, message: String },
    /// A transport error.
    Network(String),
}

/// The text of an error, as the error's display form prints it.
pub open spec fn error_text(e: LlmError) -> Seq<char> {
    match e {
        LlmError::RateLimited { .. } => "rate limited (429)"@,
        LlmError::Overloaded => "overloaded (529)"@,
        LlmError::PromptTooLong => "prompt too long"@,
        LlmError::Auth(m) => "auth error: "@ + m@,
        LlmError::Api { status, message } => "api error "@ + decimal(status as nat) + ": "@
            + message@,
        LlmError::Network(m) => "network error: "@ + m@,
    }
}

impl LlmError {
    /// The display text of the error.
    pub fn describe(&self) -> (r: String)
        ensures
            r@ == error_text(*self),
    {
        match self {
            LlmError::RateLimited { .. } => owned("rate limited (429)"),
            LlmError::Overloaded => owned("overloaded (529)"),
            LlmError::PromptTooLong => owned("prompt too long"),
            LlmError::Auth(m) => {
                let mut s = owned("auth error: ");
                s.append(m.as_str());
                s
            },
            LlmError::Api { status, message } => {
                let mut s = owned("api error ");
                let d = decimal_string(*status as u64);
                s.append(d.as_str());
                s.append(": ");
                s.append(message.as_str());
                s
            },
            LlmError::Network(m) => {
                let mut s = owned("network error: ");
                s.append(m.as_str());
                s
            },
        }
    }

    /// A copy of the error.
    pub fn duplicate(&self) -> (r: LlmError)
        ensures
            r == *self,
    {
        match self {
            LlmError::RateLimited { retry_after_ms } => LlmError::RateLimited {
                retry_after_ms: *retry_after_ms,
            },
            LlmError::Overloaded => LlmError::Overloaded,
            LlmError::PromptTooLong => LlmError::PromptTooLong,
            LlmError::Auth(m) => LlmError::Auth(m.clone()),
            LlmError::Api { status, message } => LlmError::Api {
                status: *status,
                message: message.clone(),
            },
            LlmError::Network(m) => LlmError::Network(m.clone()),
        }
    }
}

// ---------------------------------------------------------------------------
// Token estimates (~4 characters per token)
// ---------------------------------------------------------------------------

/// The estimated tokens of a text.
pub open spec fn tokens_of(s: Seq<char>) -> nat {
    s.len() / 4 + 1
}

/// The estimated tokens of a block.
pub open spec fn block_tokens(b: BlockView) -> nat {
    match b {
        BlockView::Text(text) => tokens_of(text),
        BlockView::ToolUse(_, name, input) => tokens_of(name) + tokens_of(input),
        BlockView::ToolResult(_, content, _) => tokens_of(content),
    }
}

/// The estimated tokens of a list of blocks.
pub open spec fn blocks_tokens(bs: Seq<BlockView>) -> nat
    decreases bs.len(),
{
    if bs.len() == 0 {
        0
    } else {
        blocks_tokens(bs.drop_last()) + block_tokens(bs.last())
    }
}

/// The estimated tokens of a history: its blocks plus 4 per message.
pub open spec fn messages_tokens(ms: Seq<MessageView>) -> nat
    decreases ms.len(),
{
    if ms.len() == 0 {
        0
    } else {
        messages_tokens(ms.drop_last()) + blocks_tokens(ms.last().content) + 4
    }
}

proof fn lemma_blocks_tokens_prefix(bs: Seq<BlockView>, i: int)
    requires
        0 <= i <= bs.len(),
    ensures
        blocks_tokens(bs.take(i)) <= blocks_tokens(bs),
    decreases bs.len(),
{
    if i < bs.len() {
        assert(bs.drop_last().take(i) =~= bs.take(i));
        lemma_blocks_tokens_prefix(bs.drop_last(), i);
    } else {
        assert(bs.take(i) =~= bs);
    }
}

proof fn lemma_messages_tokens_prefix(ms: Seq<MessageView>, i: int)
    requires
        0 <= i <= ms.len(),
    ensures
        messages_tokens(ms.take(i)) <= messages_tokens(ms),
    decreases ms.len(),
{
    if i < ms.len() {
        assert(ms.drop_last().take(i) =~= ms.take(i));
        lemma_messages_tokens_prefix(ms.drop_last(), i);
    } else {
        assert(ms.take(i) =~= ms);
    }
}

/// Rough token estimate of a text: a quarter of its characters, plus one.
pub fn estimate_tokens_str(s: &str) -> (r: usize)
    ensures
        r == tokens_of(s@),
        r <= usize::MAX / 4 + 1,
{
    char_count(s) / 4 + 1
}

/// Token estimate of one block.
pub fn estimate_block_tokens(b: &ContentBlock) -> (r: usize)
    ensures
        r == block_tokens(b@),
{
    match b {
        ContentBlock::Text { text } => estimate_tokens_str(text.as_str()),
        ContentBlock::ToolUse { name, input, .. } => estimate_tokens_str(name.as_str())
            + estimate_tokens_str(input.as_str()),
        ContentBlock::ToolResult { content, .. } => estimate_tokens_str(content.as_str()),
    }
}

/// Token estimate of a history.
pub fn estimate_messages_tokens(msgs: &Vec<Message>) -> (r: usize)
    requires
        messages_tokens(msgs_view(msgs@)) <= usize::MAX,
    ensures
        r == messages_tokens(msgs_view(msgs@)),
{
    let mut total: usize = 0;
    let mut i: usize = 0;
    while i < msgs.len()
        invariant
            i <= msgs@.len(),
            messages_tokens(msgs_view(msgs@)) <= usize::MAX,
            total == messages_tokens(msgs_view(msgs@).take(i as int)),
        decreases msgs@.len() - i,
    {
        let m = &msgs[i];
        let mut sub: usize = 0;
        let mut j: usize = 0;
        proof {
            assert(msgs_view(msgs@).take(i + 1).drop_last() =~= msgs_view(msgs@).take(i as int));
            lemma_messages_tokens_prefix(msgs_view(msgs@), i + 1);
        }
        while j < m.content.len()
            invariant
                j <= m.content@.len(),
                total + blocks_tokens(m@.content) + 4 <= usize::MAX,
                sub == blocks_tokens(m@.content.take(j as int)),
            decreases m.content@.len() - j,
        {
            proof {
                assert(m@.content.take(j + 1).drop_last() =~= m@.content.take(j as int));
                lemma_blocks_tokens_prefix(m@.content, j + 1);
            }
            sub = sub + estimate_block_tokens(&m.content[j]);
            j += 1;
        }
        assert(m@.content.take(m@.content.len() as int) =~= m@.content);
        total = total + sub + 4;
        i += 1;
    }
    assert(msgs_view(msgs@).take(msgs@.len() as int) =~= msgs_view(msgs@));
    total
}

} // verus!
