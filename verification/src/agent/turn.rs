//! The decisions of the agent loop. Each round the caller asks whether to go
//! on, calls the model with the limits given here, and hands back the reply
//! or the error; the loop state answers what to do next (go on, retry, wait,
//! stop) and keeps the recovery state across retries.

use vstd::prelude::*;

use crate::agent::recovery::{after_transient, backoff_base, compact_give_up_text, jitter_bound, max_tokens_kind, after_max_tokens, retry_give_up_text, switches_model, transient_fits, truncation_give_up_text, RecoveryAction, RecoveryKind, RecoveryState};
use crate::agent::tools::AgentKind;
use crate::constants::{COMPACT_FAILURE_FUSE, MAIN_LOOP_MAX_ROUNDS, MAX_OUTPUT_TOKENS, MAX_OUTPUT_TOKENS_ESCALATED, MAX_RETRY_ATTEMPTS,
    SUBAGENT_MAX_ROUNDS, TODO_REMINDER_ROUNDS};
use crate::llm::types::{
    message_text, msgs_view, ContentBlock, LlmError, Message, MessageView, Role, StopReason,
};
use crate::tasks::opt_view;
use crate::text::{append, decimal, decimal_string, owned, take_chars_of, trim, trim_str};

verus! {

/// How a round begins.
#[derive(Debug)]
pub enum RoundStart {
    /// The user interrupted.
    Cancelled,
    /// The round limit is reached; the notice to show.
    LimitReached(String),
    /// Go on.
    Proceed,
}

/// What follows a reply.
#[derive(Debug)]
pub enum ReplyStep {
    /// Keep the reply.
    Accept,
    /// Drop the reply and call again; the notice to show.
    Retry(String),
    /// Stop; the message to write into the conversation.
    Stop(String),
}

/// What follows a failed call.
#[derive(Debug)]
pub enum ErrorStep {
    /// Stop; the message to show and write into the conversation.
    Stop(String),
    /// Call again at once; the notice to show.
    Retry(String),
    /// Append this user message, then call again.
    Continue(String),
    /// Compact the history, then call again; the notice to show.
    Compact(String),
    /// Wait, then call again; the notice of a switch to the fallback model,
    /// and the notice of the wait.
    Wait { wait_ms: u64, switched: Option<String>, notice: String },
}

/// The round limit of an agent of kind `kind`.
pub open spec fn max_rounds(kind: AgentKind) -> u32 {
    if kind == AgentKind::Sub {
        SUBAGENT_MAX_ROUNDS
    } else {
        MAIN_LOOP_MAX_ROUNDS
    }
}

/// An error text as shown: trimmed, and cut to 600 characters with `…`.
pub open spec fn short_text(s: Seq<char>) -> Seq<char> {
    let t = trim(s);
    if t.len() > 600 {
        t.take(600) + "…"@
    } else {
        t
    }
}

/// An error text as shown.
pub fn trim_msg(s: &str) -> (r: String)
    ensures
        r@ == short_text(s@),
{
    let t = trim_str(s);
    if t.unicode_len() > 600 {
        let mut c = take_chars_of(t.as_str(), 600);
        append(&mut c, "…");
        c
    } else {
        t
    }
}

/// The message of an error that no retry can mend: a refused key, or an HTTP
/// 4xx answer.
pub open spec fn fatal_text(err: LlmError) -> Option<Seq<char>> {
    match err {
        LlmError::Auth(m) => Some("认证失败（API Key 无效或无权限）："@ + short_text(m@)),
        LlmError::Api { status, message } => if 400 <= status < 500 {
            Some("模型接口拒绝了请求（HTTP "@ + decimal(status as nat) + "）："@ + short_text(message@))
        } else {
            None
        },
        _ => None,
    }
}

fn fatal_message(err: &LlmError) -> (r: Option<String>)
    ensures
        opt_view(r) == fatal_text(*err),
{
    match err {
        LlmError::Auth(m) => {
            let mut s = owned("认证失败（API Key 无效或无权限）：");
            let t = trim_msg(m.as_str());
            append(&mut s, t.as_str());
            Some(s)
        },
        LlmError::Api { status, message } => {
            if 400 <= *status && *status < 500 {
                let mut s = owned("模型接口拒绝了请求（HTTP ");
                let d = decimal_string(*status as u64);
                append(&mut s, d.as_str());
                append(&mut s, "）：");
                let t = trim_msg(message.as_str());
                append(&mut s, t.as_str());
                Some(s)
            } else {
                None
            }
        },
        _ => None,
    }
}

/// The loop state of one agent run.
pub struct AgentLoop {
    pub kind: AgentKind,
    pub rounds: u32,
    pub recovery: RecoveryState,
}

impl AgentLoop {
    /// A run that has done no round yet.
    pub fn new(kind: AgentKind) -> (r: AgentLoop)
        ensures
            r.kind == kind,
            r.rounds == 0,
            r.recovery == RecoveryState::new_spec(),
    {
        AgentLoop { kind, rounds: 0, recovery: RecoveryState::new() }
    }

    /// The start of a round: an interruption ends the run, and so does going
    /// past the round limit; otherwise the round is counted.
    pub fn begin_round(&mut self, cancelled: bool) -> (r: RoundStart)
        requires
            old(self).rounds <= max_rounds(old(self).kind),
        ensures
            final(self).kind == old(self).kind,
            final(self).recovery == old(self).recovery,
            cancelled ==> r is Cancelled && final(self).rounds == old(self).rounds,
            !cancelled && old(self).rounds < max_rounds(old(self).kind) ==> r is Proceed && final(self).rounds
                == old(self).rounds + 1,
            !cancelled && old(self).rounds == max_rounds(old(self).kind) ==> (r matches RoundStart::LimitReached(
                m,
            ) && m@ == "达到循环上限 ("@ + decimal(max_rounds(old(self).kind) as nat) + ")"@)
                && final(self).rounds == old(self).rounds,
            final(self).rounds <= max_rounds(final(self).kind),
    {
        if cancelled {
            return RoundStart::Cancelled;
        }
        let max = if self.kind == AgentKind::Sub {
            SUBAGENT_MAX_ROUNDS
        } else {
            MAIN_LOOP_MAX_ROUNDS
        };
        if self.rounds >= max {
            let mut m = owned("达到循环上限 (");
            let d = decimal_string(max as u64);
            append(&mut m, d.as_str());
            append(&mut m, ")");
            return RoundStart::LimitReached(m);
        }
        self.rounds += 1;
        RoundStart::Proceed
    }

    /// The output limit of the next call: raised once a reply was cut off.
    pub fn max_tokens(&self) -> (r: u32)
        ensures
            r == if self.recovery.has_escalated {
                MAX_OUTPUT_TOKENS_ESCALATED
            } else {
                MAX_OUTPUT_TOKENS
            },
    {
        if self.recovery.has_escalated {
            MAX_OUTPUT_TOKENS_ESCALATED
        } else {
            MAX_OUTPUT_TOKENS
        }
    }

    /// The model of the next call: the fallback once switched, else the
    /// configured one.
    pub fn model(&self, configured: &str) -> (r: String)
        ensures
            r@ == match self.recovery.current_model {
                Some(m) => m@,
                None => configured@,
            },
    {
        match &self.recovery.current_model {
            Some(m) => m.clone(),
            None => owned(configured),
        }
    }

    /// A reply arrived: the retry counters reset; a reply cut off at the
    /// output limit is dropped and retried (limit raised, or continued) until
    /// continuations run out.
    pub fn on_reply(&mut self, stop: StopReason) -> (r: ReplyStep)
        ensures
            final(self).kind == old(self).kind,
            final(self).rounds == old(self).rounds,
            ({
                let s = RecoveryState { retry_attempts: 0, consecutive_529: 0, ..old(self).recovery };
                if stop == StopReason::MaxTokens {
                    &&& final(self).recovery == after_max_tokens(s)
                    &&& (max_tokens_kind(s) != RecoveryKind::GiveUp ==> (r matches ReplyStep::Retry(m) && m@
                        == "本轮输出超出长度上限，已提高上限并重试…"@))
                    &&& (max_tokens_kind(s) == RecoveryKind::GiveUp ==> (r matches ReplyStep::Stop(m) && m@ == "生成失败："@
                        + truncation_give_up_text() + "。建议把大文件拆成多次写入，或缩短单次内容。"@))
                } else {
                    final(self).recovery == s && r is Accept
                }
            }),
    {
        self.recovery.on_success();
        if stop == StopReason::MaxTokens {
            let a = self.recovery.on_max_tokens();
            match a {
                RecoveryAction::GiveUp(m) => {
                    let mut s = owned("生成失败：");
                    append(&mut s, m.as_str());
                    append(&mut s, "。建议把大文件拆成多次写入，或缩短单次内容。");
                    ReplyStep::Stop(s)
                },
                _ => ReplyStep::Retry(owned("本轮输出超出长度上限，已提高上限并重试…")),
            }
        } else {
            ReplyStep::Accept
        }
    }

    /// Whether `on_error` can take this error: every error but a transient
    /// one whose wait would overflow.
    pub fn can_take(&self, err: &LlmError) -> (r: bool)
        ensures
            r == (fatal_text(*err) is None && !(err is PromptTooLong) ==> transient_fits(self.recovery, *err)),
    {
        match fatal_message(err) {
            Some(_) => return true,
            None => {},
        }
        match err {
            LlmError::PromptTooLong => true,
            _ => self.recovery.fits(err),
        }
    }

    /// A call failed. A refused key or a 4xx answer stops at once; an
    /// over-long prompt is compacted once; rate limits and overloads wait and
    /// retry (switching to `fallback` after repeated overloads, when there is
    /// one) until the retries run out.
    pub fn on_error(&mut self, err: &LlmError, fallback: Option<String>) -> (r: ErrorStep)
        requires
            fatal_text(*err) is None && !(err is PromptTooLong) ==> transient_fits(old(self).recovery, *err),
        ensures
            final(self).kind == old(self).kind,
            final(self).rounds == old(self).rounds,
            ({
                let s = old(self).recovery;
                match fatal_text(*err) {
                    Some(m) => (r matches ErrorStep::Stop(x) && x@ == m) && final(self).recovery == s,
                    None => if err is PromptTooLong {
                        &&& final(self).recovery == (RecoveryState { reactive_compact_used: true, ..s })
                        &&& (!s.reactive_compact_used ==> (r matches ErrorStep::Compact(n) && n@ == "上下文超限，应急压缩后重试"@))
                        &&& (s.reactive_compact_used ==> (r matches ErrorStep::Stop(x) && x@ == "多次重试后仍失败："@
                            + compact_give_up_text()))
                    } else if s.retry_attempts + 1 > MAX_RETRY_ATTEMPTS {
                        &&& final(self).recovery == after_transient(s, *err)
                        &&& (r matches ErrorStep::Stop(x) && x@ == "多次重试后仍失败："@ + retry_give_up_text(*err))
                    } else {
                        let base = backoff_base((s.retry_attempts + 1) as u32, *err);
                        let switch = switches_model(s, *err) && fallback is Some;
                        &&& (r matches ErrorStep::Wait { wait_ms, switched, notice } && base <= wait_ms <= base
                            + jitter_bound(base) && notice@ == "服务繁忙，"@ + decimal(wait_ms as nat) + "ms 后重试"@
                            && (switch ==> (switched matches Some(t) && t@ == "多次过载，切换到备用模型 "@
                            + fallback->0@)) && (!switch ==> switched is None))
                        &&& final(self).recovery == if switch {
                            RecoveryState { current_model: fallback, ..after_transient(s, *err) }
                        } else {
                            after_transient(s, *err)
                        }
                    },
                }
            }),
    {
        match fatal_message(err) {
            Some(m) => return ErrorStep::Stop(m),
            None => {},
        }
        let ghost s = self.recovery;
        let is_ptl = match err {
            LlmError::PromptTooLong => true,
            _ => false,
        };
        let action = if is_ptl {
            self.recovery.on_prompt_too_long()
        } else {
            self.recovery.on_transient(err)
        };
        proof {
            if !is_ptl && s.retry_attempts + 1 <= MAX_RETRY_ATTEMPTS {
                let j = choose|jitter: u64|
                    #![trigger crate::agent::recovery::transient_decision(s, *err, jitter)]
                    crate::agent::recovery::is_transient_decision(action, s, *err, jitter) && (s.retry_attempts
                        + 1 <= MAX_RETRY_ATTEMPTS ==> jitter <= jitter_bound(
                        backoff_base((s.retry_attempts + 1) as u32, *err),
                    ));
                assert(crate::agent::recovery::is_transient_decision(action, s, *err, j));
            }
        }
        match action {
            RecoveryAction::EscalateMaxTokens => ErrorStep::Retry(owned("输出截断，升级 token 上限后重试")),
            RecoveryAction::ContinueTruncated => ErrorStep::Continue(
                owned("从截断处直接继续 — 不要道歉，不要重复已有内容"),
            ),
            RecoveryAction::ReactiveCompact => ErrorStep::Compact(owned("上下文超限，应急压缩后重试")),
            RecoveryAction::Backoff { wait_ms, switch_to_fallback } => {
                let mut switched: Option<String> = None;
                if switch_to_fallback {
                    match fallback {
                        Some(fb) => {
                            let mut t = owned("多次过载，切换到备用模型 ");
                            append(&mut t, fb.as_str());
                            switched = Some(t);
                            self.recovery.current_model = Some(fb);
                        },
                        None => {},
                    }
                }
                let mut notice = owned("服务繁忙，");
                let d = decimal_string(wait_ms);
                append(&mut notice, d.as_str());
                append(&mut notice, "ms 后重试");
                ErrorStep::Wait { wait_ms, switched, notice }
            },
            RecoveryAction::GiveUp(m) => {
                let mut t = owned("多次重试后仍失败：");
                append(&mut t, m.as_str());
                ErrorStep::Stop(t)
            },
        }
    }
}

impl RecoveryState {
    /// The fresh recovery state.
    pub open spec fn new_spec() -> RecoveryState {
        RecoveryState {
            has_escalated: false,
            reactive_compact_used: false,
            recovery_count: 0,
            consecutive_529: 0,
            retry_attempts: 0,
            current_model: None,
        }
    }
}

/// The user's input as sent: with a reminder to update the to-do list when
/// there is one and it was not updated for a while.
pub open spec fn prompt_with_reminder(input: Seq<char>, has_todos: bool, rounds_since_todo: u32) -> Seq<char> {
    if has_todos && rounds_since_todo >= TODO_REMINDER_ROUNDS {
        "<reminder>别忘了用 todo_write 更新任务进度</reminder>\n"@ + input
    } else {
        input
    }
}

/// The user's input as sent.
pub fn reminder_prompt(input: &str, has_todos: bool, rounds_since_todo: u32) -> (r: String)
    ensures
        r@ == prompt_with_reminder(input@, has_todos, rounds_since_todo),
{
    if has_todos && rounds_since_todo >= TODO_REMINDER_ROUNDS {
        let mut s = owned("<reminder>别忘了用 todo_write 更新任务进度</reminder>\n");
        append(&mut s, input);
        s
    } else {
        owned(input)
    }
}

/// The message that records an error in the conversation.
pub fn error_message_text(text: &str) -> (r: String)
    ensures
        r@ == "⚠️ "@ + text@,
{
    let mut s = owned("⚠️ ");
    append(&mut s, text);
    s
}

/// The answer to a tool call that the permission check refused.
pub fn denied_text(reason: &str) -> (r: String)
    ensures
        r@ == "Permission denied: "@ + reason@,
{
    let mut s = owned("Permission denied: ");
    append(&mut s, reason);
    s
}

/// The answer to a shell call moved to the background.
pub fn background_started_text(bg_id: &str) -> (r: String)
    ensures
        r@ == "已在后台启动任务 "@ + bg_id@ + "，完成后会通知你。"@,
{
    let mut s = owned("已在后台启动任务 ");
    append(&mut s, bg_id);
    append(&mut s, "，完成后会通知你。");
    s
}

/// How a tool call is carried out.
#[derive(Debug)]
pub enum ToolRoute {
    /// A sub-agent runs the task.
    SubAgent,
    /// The shell command goes to the background.
    Background,
    /// An MCP server runs it.
    Mcp,
    /// The built-in tool runs it.
    Builtin,
}

/// The route of a call of `name` by an agent of kind `kind`.
pub open spec fn route_of(kind: AgentKind, name: Seq<char>, background: bool) -> ToolRoute {
    if name == "task"@ && kind != AgentKind::Sub {
        ToolRoute::SubAgent
    } else if name == "shell"@ && background {
        ToolRoute::Background
    } else if crate::text::seq_starts_with(name, "mcp__"@) {
        ToolRoute::Mcp
    } else {
        ToolRoute::Builtin
    }
}

/// The route of a call of `name` (with `run_in_background` as given) by an
/// agent of kind `kind`.
pub fn tool_route(kind: AgentKind, name: &str, background: bool) -> (r: ToolRoute)
    ensures
        r == route_of(kind, name@, background),
{
    if crate::text::str_eq(name, "task") && kind != AgentKind::Sub {
        ToolRoute::SubAgent
    } else if crate::text::str_eq(name, "shell") && background {
        ToolRoute::Background
    } else if crate::text::str_starts_with(name, "mcp__") {
        ToolRoute::Mcp
    } else {
        ToolRoute::Builtin
    }
}

/// Whether the full (summarising) compaction runs this round: the history is
/// over the threshold and the fuse has not blown (fewer than
/// `COMPACT_FAILURE_FUSE` failures in a row).
pub fn compaction_due(over_threshold: bool, failures: u32) -> (r: bool)
    ensures
        r == (over_threshold && failures < COMPACT_FAILURE_FUSE),
{
    over_threshold && failures < COMPACT_FAILURE_FUSE
}

/// The count of failed compactions in a row after one attempt: a success
/// resets it, a failure adds one.
pub fn after_compaction(failures: u32, ok: bool) -> (r: u32)
    requires
        failures < COMPACT_FAILURE_FUSE,
    ensures
        ok ==> r == 0,
        !ok ==> r == failures + 1,
{
    if ok {
        0
    } else {
        failures + 1
    }
}

/// What ends a reply: a reply that asks for tools is followed up; otherwise
/// the turn ends, and for the main agent its memories are extracted first.
#[derive(Debug, PartialEq, Eq, Structural)]
pub enum ReplyEnd {
    /// Run the requested tools and call the model again.
    FollowUp,
    /// Extract memories from the recent messages, then end the turn.
    ExtractThenEnd,
    /// End the turn.
    End,
}

/// How an agent of kind `kind` goes on after a reply.
pub fn reply_end(kind: AgentKind, needs_follow_up: bool) -> (r: ReplyEnd)
    ensures
        needs_follow_up ==> r == ReplyEnd::FollowUp,
        !needs_follow_up && kind == AgentKind::Main ==> r == ReplyEnd::ExtractThenEnd,
        !needs_follow_up && kind != AgentKind::Main ==> r == ReplyEnd::End,
{
    if needs_follow_up {
        ReplyEnd::FollowUp
    } else if kind == AgentKind::Main {
        ReplyEnd::ExtractThenEnd
    } else {
        ReplyEnd::End
    }
}

/// What becomes of a tool call once the permission check has answered.
#[derive(Debug)]
pub enum ToolStep {
    /// Refused: this text answers the call, and nothing runs.
    Denied(String),
    /// Allowed: the call takes this route.
    Run(ToolRoute),
}

/// The step of a call of `name` by an agent of kind `kind`, given the
/// permission check's refusal (`None` when allowed). The check comes first
/// on every route: a refused call never runs, not even in the background.
pub fn tool_step(kind: AgentKind, name: &str, background: bool, refusal: Option<&str>) -> (r: ToolStep)
    ensures
        match refusal {
            Some(reason) => r matches ToolStep::Denied(m) && m@ == "Permission denied: "@ + reason@,
            None => r matches ToolStep::Run(route) && route == route_of(kind, name@, background),
        },
{
    match refusal {
        Some(reason) => ToolStep::Denied(denied_text(reason)),
        None => ToolStep::Run(tool_route(kind, name, background)),
    }
}

/// The block that answers tool call `id`.
pub fn tool_result_block(id: &str, content: String, ok: bool) -> (r: ContentBlock)
    ensures
        r matches ContentBlock::ToolResult { tool_use_id, content: c, is_error } && tool_use_id@ == id@ && c@
            == content@ && is_error == !ok,
{
    ContentBlock::ToolResult { tool_use_id: owned(id), content, is_error: !ok }
}

/// A message's line in the recent history: its role and its text.
pub open spec fn recent_line(m: MessageView) -> Seq<char> {
    "["@ + (if m.role == Role::User {
        "用户"@
    } else {
        "助手"@
    }) + "] "@ + message_text(m) + "\n"@
}

/// The lines of some messages, one after another.
pub open spec fn recent_lines(ms: Seq<MessageView>) -> Seq<char>
    decreases ms.len(),
{
    if ms.len() == 0 {
        Seq::empty()
    } else {
        recent_lines(ms.drop_last()) + recent_line(ms.last())
    }
}

/// The last `n` messages as text, for extracting memories.
pub fn render_recent(messages: &Vec<Message>, n: usize) -> (r: String)
    ensures
        r@ == recent_lines(msgs_view(messages@).skip(
            if messages@.len() > n {
                messages@.len() - n
            } else {
                0
            },
        )),
{
    let start = if messages.len() > n {
        messages.len() - n
    } else {
        0
    };
    let ghost all = msgs_view(messages@);
    let mut out = String::new();
    let mut i = start;
    assert(all.subrange(start as int, start as int) =~= Seq::<MessageView>::empty());
    while i < messages.len()
        invariant
            start <= i <= messages@.len(),
            all == msgs_view(messages@),
            out@ == recent_lines(all.subrange(start as int, i as int)),
        decreases messages@.len() - i,
    {
        let m = &messages[i];
        let mut line = owned("[");
        match m.role {
            Role::User => append(&mut line, "用户"),
            Role::Assistant => append(&mut line, "助手"),
        }
        append(&mut line, "] ");
        let t = m.text();
        append(&mut line, t.as_str());
        append(&mut line, "\n");
        append(&mut out, line.as_str());
        assert(all.subrange(start as int, i + 1).drop_last() =~= all.subrange(start as int, i as int));
        i += 1;
    }
    assert(all.subrange(start as int, messages@.len() as int) =~= all.skip(start as int));
    out
}

} // verus!

verus! {

// ---------------------------------------------------------------------------
// Sub-agents
// ---------------------------------------------------------------------------

/// The role of a sub-agent.
pub const SUBAGENT_ROLE: &'static str = "你是一个专注的子代理，负责独立完成被交付的单一子任务。完成后用简洁的文本给出结论 (结果、产出文件路径、关键发现)。你无法再派生新的子代理。";

/// The task of a `task` call: its `description`, trimmed; an empty one is
/// refused.
pub fn subagent_task(input: &str) -> (r: Result<String, String>)
    ensures
        ({
            let d = trim(
                match crate::json::spec_json_str_field(input@, "description"@) {
                    Some(d) => d,
                    None => Seq::empty(),
                },
            );
            if d.len() == 0 {
                r matches Err(m) && m@ == "task 需要 description 参数"@
            } else {
                r matches Ok(x) && x@ == d
            }
        }),
{
    let raw = match crate::json::json_str_field(input, "description") {
        Some(d) => d,
        None => String::new(),
    };
    let d = trim_str(raw.as_str());
    if d.unicode_len() == 0 {
        return Err(owned("task 需要 description 参数"));
    }
    Ok(d)
}

/// The session of a sub-agent of session `parent`: `<parent>::sub-` and 32
/// random characters; and its agent name, `subagent-` and the last six
/// characters of that session id.
pub fn subagent_ids(parent: &str) -> (r: (String, String))
    ensures
        crate::text::seq_starts_with(r.0@, parent@ + "::sub-"@),
        r.0@.len() == parent@.len() + 6 + 32,
        r.1@ == "subagent-"@ + r.0@.skip(r.0@.len() - 6),
{
    let mut id = owned(parent);
    append(&mut id, "::sub-");
    let ghost pre = id@;
    let h = crate::ids::random_hex_id();
    append(&mut id, h.as_str());
    proof {
        reveal_strlit("::sub-");
        assert(id@.subrange(0, pre.len() as int) =~= pre);
    }
    let v = crate::text::chars_of(id.as_str());
    let tail = crate::text::string_of_range(&v, v.len() - 6, v.len());
    assert(tail@ =~= id@.skip(id@.len() - 6));
    let mut name = owned("subagent-");
    append(&mut name, tail.as_str());
    (id, name)
}

/// The conclusion of a sub-agent: the text of its last assistant message
/// with some text that is not blank.
pub open spec fn conclusion_of(ms: Seq<MessageView>) -> Option<Seq<char>>
    decreases ms.len(),
{
    if ms.len() == 0 {
        None
    } else {
        let m = ms.last();
        if m.role == Role::Assistant && !crate::text::all_ws(message_text(m)) {
            Some(message_text(m))
        } else {
            conclusion_of(ms.drop_last())
        }
    }
}

/// What a `task` call answers once its sub-agent stopped.
pub fn subagent_report(messages: &Vec<Message>) -> (r: String)
    ensures
        r@ == "子代理完成:\n"@ + match conclusion_of(msgs_view(messages@)) {
            Some(c) => c,
            None => "(子代理未产生文本结论)"@,
        },
{
    let ghost mv = msgs_view(messages@);
    let mut i = messages.len();
    assert(mv.take(messages@.len() as int) =~= mv);
    while i > 0
        invariant
            i <= messages@.len(),
            mv == msgs_view(messages@),
            conclusion_of(mv) == conclusion_of(mv.take(i as int)),
        decreases i,
    {
        let m = &messages[i - 1];
        let t = m.text();
        assert(mv.take(i as int).last() == m@);
        assert(mv.take(i as int).drop_last() =~= mv.take(i - 1));
        if m.role == Role::Assistant && !crate::text::is_blank(t.as_str()) {
            let mut s = owned("子代理完成:\n");
            append(&mut s, t.as_str());
            return s;
        }
        i -= 1;
    }
    let mut s = owned("子代理完成:\n");
    append(&mut s, "(子代理未产生文本结论)");
    s
}

} // verus!
