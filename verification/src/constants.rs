//! Global thresholds shared by the agent subsystems.

use vstd::prelude::*;

verus! {

/// Budget (bytes) for the tool results of the last user message before they spill to disk.
pub const TOOL_RESULT_BUDGET_BYTES: usize = 200_000;

/// Characters of preview kept when a tool result spills to disk.
pub const TOOL_RESULT_PREVIEW_CHARS: usize = 2000;

/// Message count above which the history is snipped.
pub const SNIP_THRESHOLD_MSGS: usize = 50;

/// Messages kept at the head when snipping.
pub const SNIP_KEEP_HEAD: usize = 3;

/// Messages kept at the tail when snipping.
pub const SNIP_KEEP_TAIL: usize = 47;

/// Most recent tool results kept verbatim by the micro compaction.
pub const KEEP_RECENT_TOOL_RESULTS: usize = 3;

/// Consecutive failed summaries after which summarising stops.
pub const COMPACT_FAILURE_FUSE: u32 = 3;

/// Tokens reserved below the context window before a summary is due.
pub const COMPACT_RESERVE_TOKENS: usize = 13_000;

/// Messages kept verbatim at the tail by the emergency compaction.
pub const REACTIVE_KEEP_TAIL: usize = 5;

/// Default output token limit.
pub const MAX_OUTPUT_TOKENS: u32 = 8_000;

/// Output token limit after a truncated reply.
pub const MAX_OUTPUT_TOKENS_ESCALATED: u32 = 64_000;

/// Continuations attempted after the limit was raised.
pub const MAX_CONTINUATION_ATTEMPTS: u32 = 3;

/// Retries of rate-limited or overloaded calls.
pub const MAX_RETRY_ATTEMPTS: u32 = 10;

/// Base of the exponential back-off (ms).
pub const BACKOFF_BASE_MS: u64 = 500;

/// Cap of the exponential back-off (ms).
pub const BACKOFF_CAP_MS: u64 = 32_000;

/// Consecutive overload errors after which the fallback model is used.
pub const CONSECUTIVE_529_FALLBACK: u32 = 3;

/// Round limit of a sub-agent loop.
pub const SUBAGENT_MAX_ROUNDS: u32 = 30;

/// Rounds without a todo update after which a reminder is injected.
pub const TODO_REMINDER_ROUNDS: u32 = 3;

/// Stored memories at which a consolidation is due.
pub const MEMORY_CONSOLIDATE_THRESHOLD: usize = 10;

/// Memories injected per round at most.
pub const MEMORY_INJECT_MAX: usize = 5;

/// Poll interval of an idle teammate (s).
pub const IDLE_POLL_SECS: u64 = 5;

/// Idle time after which a teammate stops (s).
pub const IDLE_TIMEOUT_SECS: u64 = 60;

/// Timeout of a shell command (s).
pub const SHELL_TIMEOUT_SECS: u64 = 120;

/// Characters of shell output kept.
pub const SHELL_OUTPUT_LIMIT: usize = 30_000;

/// Seconds an approval request waits before it counts as denied.
pub const APPROVAL_TIMEOUT_SECS: u64 = 300;

/// Round limit of the main loop.
pub const MAIN_LOOP_MAX_ROUNDS: u32 = 100;

/// Default context window (tokens).
pub const DEFAULT_CONTEXT_WINDOW: usize = 128_000;

} // verus!
