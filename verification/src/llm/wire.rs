//! The JSON bodies sent to the two model APIs, built as text from the
//! provider-neutral request.

use vstd::prelude::*;

use crate::json::{json_quote, spec_json_quote};
use crate::llm::types::{message_text, msgs_view, text_parts, tool_use_parts, BlockView, ChatRequest, ContentBlock, Message, MessageView, Role, ThinkingLevel, ToolSpec};
use crate::text::{append, decimal, decimal_string, join, join_strings, owned, views};

verus! {

/// A JSON array of the given element texts.
pub open spec fn json_array(items: Seq<Seq<char>>) -> Seq<char> {
    "["@ + join(items, ","@) + "]"@
}

/// A JSON array of the given element texts.
pub fn json_array_text(items: &Vec<String>) -> (r: String)
    ensures
        r@ == json_array(views(items@)),
{
    let mut s = owned("[");
    let inner = join_strings(items, ",");
    append(&mut s, inner.as_str());
    append(&mut s, "]");
    s
}

/// `true` or `false`.
pub open spec fn bool_json(b: bool) -> Seq<char> {
    if b {
        "true"@
    } else {
        "false"@
    }
}

// ---------------------------------------------------------------------------
// Anthropic Messages API
// ---------------------------------------------------------------------------

/// A content block as the Messages API takes it.
pub open spec fn block_json(b: BlockView) -> Seq<char> {
    match b {
        BlockView::Text(t) => "{\"type\":\"text\",\"text\":"@ + spec_json_quote(t) + "}"@,
        BlockView::ToolUse(id, name, input) => "{\"type\":\"tool_use\",\"id\":"@ + spec_json_quote(id)
            + ",\"name\":"@ + spec_json_quote(name) + ",\"input\":"@ + input + "}"@,
        BlockView::ToolResult(id, content, is_error) => "{\"type\":\"tool_result\",\"tool_use_id\":"@
            + spec_json_quote(id) + ",\"content\":"@ + spec_json_quote(content) + ",\"is_error\":"@
            + bool_json(is_error) + "}"@,
    }
}

/// A message as the Messages API takes it.
pub open spec fn message_json(m: MessageView) -> Seq<char> {
    "{\"role\":"@ + (if m.role == Role::User {
        "\"user\""@
    } else {
        "\"assistant\""@
    }) + ",\"content\":"@ + json_array(m.content.map_values(|b: BlockView| block_json(b))) + "}"@
}

fn block_text(b: &ContentBlock) -> (r: String)
    ensures
        r@ == block_json(b@),
{
    match b {
        ContentBlock::Text { text } => {
            let mut s = owned("{\"type\":\"text\",\"text\":");
            let q = json_quote(text.as_str());
            append(&mut s, q.as_str());
            append(&mut s, "}");
            s
        },
        ContentBlock::ToolUse { id, name, input } => {
            let mut s = owned("{\"type\":\"tool_use\",\"id\":");
            let q = json_quote(id.as_str());
            append(&mut s, q.as_str());
            append(&mut s, ",\"name\":");
            let q = json_quote(name.as_str());
            append(&mut s, q.as_str());
            append(&mut s, ",\"input\":");
            append(&mut s, input.as_str());
            append(&mut s, "}");
            s
        },
        ContentBlock::ToolResult { tool_use_id, content, is_error } => {
            let mut s = owned("{\"type\":\"tool_result\",\"tool_use_id\":");
            let q = json_quote(tool_use_id.as_str());
            append(&mut s, q.as_str());
            append(&mut s, ",\"content\":");
            let q = json_quote(content.as_str());
            append(&mut s, q.as_str());
            append(&mut s, ",\"is_error\":");
            if *is_error {
                append(&mut s, "true");
            } else {
                append(&mut s, "false");
            }
            append(&mut s, "}");
            s
        },
    }
}

fn message_text_json(m: &Message) -> (r: String)
    ensures
        r@ == message_json(m@),
{
    let mut parts: Vec<String> = Vec::new();
    let mut i: usize = 0;
    while i < m.content.len()
        invariant
            i <= m.content@.len(),
            views(parts@) == m@.content.take(i as int).map_values(|b: BlockView| block_json(b)),
        decreases m.content@.len() - i,
    {
        let ghost prev = parts@;
        parts.push(block_text(&m.content[i]));
        assert(views(parts@) =~= views(prev).push(block_json(m@.content[i as int])));
        assert(views(parts@) =~= m@.content.take(i + 1).map_values(|b: BlockView| block_json(b)));
        i += 1;
    }
    assert(m@.content.take(m.content@.len() as int) =~= m@.content);
    let mut s = owned("{\"role\":");
    match m.role {
        Role::User => append(&mut s, "\"user\""),
        Role::Assistant => append(&mut s, "\"assistant\""),
    }
    append(&mut s, ",\"content\":");
    let arr = json_array_text(&parts);
    append(&mut s, arr.as_str());
    append(&mut s, "}");
    s
}

/// A tool definition as the Messages API takes it.
pub open spec fn anthropic_tool_json(t: ToolSpec) -> Seq<char> {
    "{\"name\":"@ + spec_json_quote(t.name@) + ",\"description\":"@ + spec_json_quote(t.description@)
        + ",\"input_schema\":"@ + t.input_schema@ + "}"@
}

/// The `thinking` part of a Messages API body.
pub open spec fn anthropic_thinking(level: ThinkingLevel) -> Seq<char> {
    match level {
        ThinkingLevel::Off => Seq::empty(),
        ThinkingLevel::Low => ",\"thinking\":{\"type\":\"enabled\",\"budget_tokens\":2048}"@,
        ThinkingLevel::Medium => ",\"thinking\":{\"type\":\"enabled\",\"budget_tokens\":8192}"@,
        ThinkingLevel::High => ",\"thinking\":{\"type\":\"enabled\",\"budget_tokens\":16384}"@,
    }
}

/// The body of a streamed Messages API call: model, system prompt, messages,
/// output limit, the tools when there are any, and thinking when it is on.
pub open spec fn anthropic_body_text(req: ChatRequest) -> Seq<char> {
    "{\"model\":"@ + spec_json_quote(req.model@) + ",\"system\":"@ + spec_json_quote(req.system@)
        + ",\"messages\":"@ + json_array(msgs_view(req.messages@).map_values(|m: MessageView| message_json(m)))
        + ",\"max_tokens\":"@ + decimal(req.max_tokens as nat) + ",\"stream\":true"@ + (if req.tools@.len()
        == 0 {
        Seq::empty()
    } else {
        ",\"tools\":"@ + json_array(req.tools@.map_values(|t: ToolSpec| anthropic_tool_json(t)))
    }) + anthropic_thinking(req.thinking) + "}"@
}

/// The body of a streamed Messages API call.
pub fn anthropic_body(req: &ChatRequest) -> (r: String)
    ensures
        r@ == anthropic_body_text(*req),
{
    let mut msgs: Vec<String> = Vec::new();
    let mut i: usize = 0;
    let ghost mv = msgs_view(req.messages@);
    while i < req.messages.len()
        invariant
            i <= req.messages@.len(),
            mv == msgs_view(req.messages@),
            views(msgs@) == mv.take(i as int).map_values(|m: MessageView| message_json(m)),
        decreases req.messages@.len() - i,
    {
        let ghost prev = msgs@;
        msgs.push(message_text_json(&req.messages[i]));
        assert(views(msgs@) =~= views(prev).push(message_json(mv[i as int])));
        assert(views(msgs@) =~= mv.take(i + 1).map_values(|m: MessageView| message_json(m)));
        i += 1;
    }
    assert(mv.take(req.messages@.len() as int) =~= mv);
    let mut s = owned("{\"model\":");
    let q = json_quote(req.model.as_str());
    append(&mut s, q.as_str());
    append(&mut s, ",\"system\":");
    let q = json_quote(req.system.as_str());
    append(&mut s, q.as_str());
    append(&mut s, ",\"messages\":");
    let arr = json_array_text(&msgs);
    append(&mut s, arr.as_str());
    append(&mut s, ",\"max_tokens\":");
    let d = decimal_string(req.max_tokens as u64);
    append(&mut s, d.as_str());
    append(&mut s, ",\"stream\":true");
    if req.tools.len() > 0 {
        let mut tools: Vec<String> = Vec::new();
        let mut k: usize = 0;
        while k < req.tools.len()
            invariant
                k <= req.tools@.len(),
                views(tools@) == req.tools@.take(k as int).map_values(|t: ToolSpec| anthropic_tool_json(t)),
            decreases req.tools@.len() - k,
        {
            let t = &req.tools[k];
            let mut j = owned("{\"name\":");
            let q = json_quote(t.name.as_str());
            append(&mut j, q.as_str());
            append(&mut j, ",\"description\":");
            let q = json_quote(t.description.as_str());
            append(&mut j, q.as_str());
            append(&mut j, ",\"input_schema\":");
            append(&mut j, t.input_schema.as_str());
            append(&mut j, "}");
            let ghost prev = tools@;
            tools.push(j);
            assert(views(tools@) =~= views(prev).push(anthropic_tool_json(req.tools@[k as int])));
            assert(views(tools@) =~= req.tools@.take(k + 1).map_values(|t: ToolSpec| anthropic_tool_json(t)));
            k += 1;
        }
        assert(req.tools@.take(req.tools@.len() as int) =~= req.tools@);
        append(&mut s, ",\"tools\":");
        let arr = json_array_text(&tools);
        append(&mut s, arr.as_str());
    }
    match req.thinking {
        ThinkingLevel::Off => {},
        ThinkingLevel::Low => append(&mut s, ",\"thinking\":{\"type\":\"enabled\",\"budget_tokens\":2048}"),
        ThinkingLevel::Medium => append(&mut s, ",\"thinking\":{\"type\":\"enabled\",\"budget_tokens\":8192}"),
        ThinkingLevel::High => append(&mut s, ",\"thinking\":{\"type\":\"enabled\",\"budget_tokens\":16384}"),
    }
    append(&mut s, "}");
    s
}

} // verus!

verus! {

// ---------------------------------------------------------------------------
// OpenAI-compatible chat completions
// ---------------------------------------------------------------------------

/// A tool call as an assistant message lists it.
pub open spec fn oai_call_json(c: (Seq<char>, Seq<char>, Seq<char>)) -> Seq<char> {
    "{\"id\":"@ + spec_json_quote(c.0) + ",\"type\":\"function\",\"function\":{\"name\":"@ + spec_json_quote(c.1)
        + ",\"arguments\":"@ + spec_json_quote(c.2) + "}}"@
}

/// An assistant message: its text (`null` when empty) and its tool calls
/// (when there are any).
pub open spec fn oai_assistant_json(m: MessageView) -> Seq<char> {
    let text = message_text(m);
    let calls = tool_use_parts(m.content);
    "{\"role\":\"assistant\",\"content\":"@ + (if text.len() == 0 {
        "null"@
    } else {
        spec_json_quote(text)
    }) + (if calls.len() == 0 {
        Seq::empty()
    } else {
        ",\"tool_calls\":"@ + json_array(calls.map_values(|c: (Seq<char>, Seq<char>, Seq<char>)| oai_call_json(c)))
    }) + "}"@
}

/// A tool result as a `tool` message (an error marked `[ERROR]`).
pub open spec fn oai_tool_json(id: Seq<char>, content: Seq<char>, is_error: bool) -> Seq<char> {
    "{\"role\":\"tool\",\"tool_call_id\":"@ + spec_json_quote(id) + ",\"content\":"@ + spec_json_quote(
        if is_error {
            "[ERROR] "@ + content
        } else {
            content
        },
    ) + "}"@
}

/// The `tool` messages of a user message's tool results, in order.
pub open spec fn oai_tool_messages(blocks: Seq<BlockView>) -> Seq<Seq<char>>
    decreases blocks.len(),
{
    if blocks.len() == 0 {
        Seq::empty()
    } else {
        let rest = oai_tool_messages(blocks.drop_last());
        match blocks.last() {
            BlockView::ToolResult(id, content, is_error) => rest.push(oai_tool_json(id, content, is_error)),
            _ => rest,
        }
    }
}

/// The messages a message becomes: an assistant message as one; a user
/// message as its tool results, then its texts joined (when it has any).
pub open spec fn oai_message_jsons(m: MessageView) -> Seq<Seq<char>> {
    if m.role == Role::Assistant {
        seq![oai_assistant_json(m)]
    } else {
        let texts = text_parts(m.content);
        oai_tool_messages(m.content) + if texts.len() == 0 {
            Seq::<Seq<char>>::empty()
        } else {
            seq!["{\"role\":\"user\",\"content\":"@ + spec_json_quote(join(texts, "\n"@)) + "}"@]
        }
    }
}

/// The messages of a conversation, one after another.
pub open spec fn oai_all(ms: Seq<MessageView>) -> Seq<Seq<char>>
    decreases ms.len(),
{
    if ms.len() == 0 {
        Seq::empty()
    } else {
        oai_all(ms.drop_last()) + oai_message_jsons(ms.last())
    }
}

/// The chat messages of a request: the system prompt (when not empty), then
/// the conversation.
pub open spec fn oai_messages(system: Seq<char>, ms: Seq<MessageView>) -> Seq<Seq<char>> {
    (if system.len() == 0 {
        Seq::empty()
    } else {
        seq!["{\"role\":\"system\",\"content\":"@ + spec_json_quote(system) + "}"@]
    }) + oai_all(ms)
}

fn oai_assistant(m: &Message) -> (r: String)
    requires
        m.role == Role::Assistant,
    ensures
        r@ == oai_assistant_json(m@),
{
    let text = m.text();
    let calls = m.tool_uses();
    let ghost cv = calls@.map_values(|t: (String, String, String)| (t.0@, t.1@, t.2@));
    let mut s = owned("{\"role\":\"assistant\",\"content\":");
    if text.unicode_len() == 0 {
        append(&mut s, "null");
    } else {
        let q = json_quote(text.as_str());
        append(&mut s, q.as_str());
    }
    if calls.len() > 0 {
        let mut items: Vec<String> = Vec::new();
        let mut i: usize = 0;
        while i < calls.len()
            invariant
                i <= calls@.len(),
                cv == calls@.map_values(|t: (String, String, String)| (t.0@, t.1@, t.2@)),
                views(items@) == cv.take(i as int).map_values(|c: (Seq<char>, Seq<char>, Seq<char>)| oai_call_json(c)),
            decreases calls@.len() - i,
        {
            let c = &calls[i];
            let mut j = owned("{\"id\":");
            let q = json_quote(c.0.as_str());
            append(&mut j, q.as_str());
            append(&mut j, ",\"type\":\"function\",\"function\":{\"name\":");
            let q = json_quote(c.1.as_str());
            append(&mut j, q.as_str());
            append(&mut j, ",\"arguments\":");
            let q = json_quote(c.2.as_str());
            append(&mut j, q.as_str());
            append(&mut j, "}}");
            let ghost prev = items@;
            items.push(j);
            assert(views(items@) =~= views(prev).push(oai_call_json(cv[i as int])));
            assert(views(items@) =~= cv.take(i + 1).map_values(|c: (Seq<char>, Seq<char>, Seq<char>)| oai_call_json(c)));
            i += 1;
        }
        assert(cv.take(calls@.len() as int) =~= cv);
        append(&mut s, ",\"tool_calls\":");
        let arr = json_array_text(&items);
        append(&mut s, arr.as_str());
    }
    append(&mut s, "}");
    s
}

fn oai_user(m: &Message, out: &mut Vec<String>)
    requires
        m.role == Role::User,
    ensures
        views(final(out)@) == views(old(out)@) + oai_message_jsons(m@),
{
    let ghost bv = m@.content;
    let ghost start = views(out@);
    let mut texts: Vec<String> = Vec::new();
    let mut i: usize = 0;
    while i < m.content.len()
        invariant
            i <= m.content@.len(),
            bv == m@.content,
            views(out@) == start + oai_tool_messages(bv.take(i as int)),
            views(texts@) == text_parts(bv.take(i as int)),
        decreases m.content@.len() - i,
    {
        proof {
            assert(bv.take(i + 1).drop_last() =~= bv.take(i as int));
        }
        match &m.content[i] {
            ContentBlock::ToolResult { tool_use_id, content, is_error } => {
                let mut j = owned("{\"role\":\"tool\",\"tool_call_id\":");
                let q = json_quote(tool_use_id.as_str());
                append(&mut j, q.as_str());
                append(&mut j, ",\"content\":");
                let body = if *is_error {
                    let mut b = owned("[ERROR] ");
                    append(&mut b, content.as_str());
                    b
                } else {
                    content.clone()
                };
                let q = json_quote(body.as_str());
                append(&mut j, q.as_str());
                append(&mut j, "}");
                let ghost prev = out@;
                out.push(j);
                assert(views(out@) =~= views(prev).push(oai_tool_json(tool_use_id@, content@, *is_error)));
            },
            ContentBlock::Text { text } => {
                let ghost prev = texts@;
                texts.push(text.clone());
                assert(views(texts@) =~= views(prev).push(text@));
            },
            ContentBlock::ToolUse { .. } => {},
        }
        i += 1;
    }
    assert(bv.take(m.content@.len() as int) =~= bv);
    if texts.len() > 0 {
        let joined = join_strings(&texts, "\n");
        let mut j = owned("{\"role\":\"user\",\"content\":");
        let q = json_quote(joined.as_str());
        append(&mut j, q.as_str());
        append(&mut j, "}");
        let ghost prev = out@;
        out.push(j);
        assert(views(out@) =~= views(prev).push(j@));
    }
    assert(views(out@) =~= start + oai_message_jsons(m@));
}

/// The chat messages of a request (the internal model turned into the
/// OpenAI one): tool results become `tool` messages.
pub fn convert_messages(system: &str, messages: &Vec<Message>) -> (r: Vec<String>)
    ensures
        views(r@) == oai_messages(system@, msgs_view(messages@)),
{
    let mut out: Vec<String> = Vec::new();
    if system.unicode_len() > 0 {
        let mut j = owned("{\"role\":\"system\",\"content\":");
        let q = json_quote(system);
        append(&mut j, q.as_str());
        append(&mut j, "}");
        out.push(j);
    }
    let ghost head = views(out@);
    assert(head =~= (if system@.len() == 0 {
        Seq::<Seq<char>>::empty()
    } else {
        seq!["{\"role\":\"system\",\"content\":"@ + spec_json_quote(system@) + "}"@]
    }));
    let ghost mv = msgs_view(messages@);
    let mut i: usize = 0;
    while i < messages.len()
        invariant
            i <= messages@.len(),
            mv == msgs_view(messages@),
            views(out@) == head + oai_all(mv.take(i as int)),
        decreases messages@.len() - i,
    {
        let m = &messages[i];
        proof {
            assert(mv.take(i + 1).drop_last() =~= mv.take(i as int));
            assert(mv.take(i + 1).last() == m@);
        }
        match m.role {
            Role::Assistant => {
                let j = oai_assistant(m);
                let ghost prev = out@;
                out.push(j);
                assert(views(out@) =~= views(prev).push(j@));
            },
            Role::User => {
                oai_user(m, &mut out);
            },
        }
        assert(views(out@) =~= head + oai_all(mv.take(i + 1)));
        i += 1;
    }
    assert(mv.take(messages@.len() as int) =~= mv);
    out
}

/// A tool definition as the chat API takes it.
pub open spec fn oai_tool_def(t: ToolSpec) -> Seq<char> {
    "{\"type\":\"function\",\"function\":{\"name\":"@ + spec_json_quote(t.name@) + ",\"description\":"@
        + spec_json_quote(t.description@) + ",\"parameters\":"@ + t.input_schema@ + "}}"@
}

/// The thinking fields of a chat body: none when off; else the switch, the
/// budget and the effort.
pub open spec fn oai_thinking(level: ThinkingLevel) -> Seq<char> {
    match level {
        ThinkingLevel::Off => Seq::empty(),
        ThinkingLevel::Low => ",\"enable_thinking\":true,\"thinking_budget\":2048,\"reasoning_effort\":"@
            + spec_json_quote("low"@),
        ThinkingLevel::Medium => ",\"enable_thinking\":true,\"thinking_budget\":8192,\"reasoning_effort\":"@
            + spec_json_quote("medium"@),
        ThinkingLevel::High => ",\"enable_thinking\":true,\"thinking_budget\":16384,\"reasoning_effort\":"@
            + spec_json_quote("high"@),
    }
}

/// The body of a streamed chat call.
pub open spec fn openai_body_text(req: ChatRequest) -> Seq<char> {
    "{\"model\":"@ + spec_json_quote(req.model@) + ",\"messages\":"@ + json_array(
        oai_messages(req.system@, msgs_view(req.messages@)),
    ) + ",\"max_tokens\":"@ + decimal(req.max_tokens as nat) + ",\"stream\":true"@ + (if req.tools@.len()
        == 0 {
        Seq::empty()
    } else {
        ",\"tools\":"@ + json_array(req.tools@.map_values(|t: ToolSpec| oai_tool_def(t)))
    }) + oai_thinking(req.thinking) + "}"@
}

/// The body of a streamed chat call.
pub fn openai_body(req: &ChatRequest) -> (r: String)
    ensures
        r@ == openai_body_text(*req),
{
    let msgs = convert_messages(req.system.as_str(), &req.messages);
    let mut s = owned("{\"model\":");
    let q = json_quote(req.model.as_str());
    append(&mut s, q.as_str());
    append(&mut s, ",\"messages\":");
    let arr = json_array_text(&msgs);
    append(&mut s, arr.as_str());
    append(&mut s, ",\"max_tokens\":");
    let d = decimal_string(req.max_tokens as u64);
    append(&mut s, d.as_str());
    append(&mut s, ",\"stream\":true");
    if req.tools.len() > 0 {
        let mut tools: Vec<String> = Vec::new();
        let mut k: usize = 0;
        while k < req.tools.len()
            invariant
                k <= req.tools@.len(),
                views(tools@) == req.tools@.take(k as int).map_values(|t: ToolSpec| oai_tool_def(t)),
            decreases req.tools@.len() - k,
        {
            let t = &req.tools[k];
            let mut j = owned("{\"type\":\"function\",\"function\":{\"name\":");
            let q = json_quote(t.name.as_str());
            append(&mut j, q.as_str());
            append(&mut j, ",\"description\":");
            let q = json_quote(t.description.as_str());
            append(&mut j, q.as_str());
            append(&mut j, ",\"parameters\":");
            append(&mut j, t.input_schema.as_str());
            append(&mut j, "}}");
            let ghost prev = tools@;
            tools.push(j);
            assert(views(tools@) =~= views(prev).push(oai_tool_def(req.tools@[k as int])));
            assert(views(tools@) =~= req.tools@.take(k + 1).map_values(|t: ToolSpec| oai_tool_def(t)));
            k += 1;
        }
        assert(req.tools@.take(req.tools@.len() as int) =~= req.tools@);
        append(&mut s, ",\"tools\":");
        let arr = json_array_text(&tools);
        append(&mut s, arr.as_str());
    }
    match req.thinking {
        ThinkingLevel::Off => {},
        ThinkingLevel::Low => {
            append(&mut s, ",\"enable_thinking\":true,\"thinking_budget\":2048,\"reasoning_effort\":");
            let q = json_quote("low");
            append(&mut s, q.as_str());
        },
        ThinkingLevel::Medium => {
            append(&mut s, ",\"enable_thinking\":true,\"thinking_budget\":8192,\"reasoning_effort\":");
            let q = json_quote("medium");
            append(&mut s, q.as_str());
        },
        ThinkingLevel::High => {
            append(&mut s, ",\"enable_thinking\":true,\"thinking_budget\":16384,\"reasoning_effort\":");
            let q = json_quote("high");
            append(&mut s, q.as_str());
        },
    }
    append(&mut s, "}");
    s
}

} // verus!
