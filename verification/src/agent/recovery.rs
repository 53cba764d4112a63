//! Error recovery: three recovery paths chosen by the kind of failure.
//!
//! - a reply cut off at the output limit: raise the limit once, then ask for
//!   continuations a bounded number of times, then give up;
//! - a request over the context window: one emergency compaction, then give up;
//! - rate limiting / overload: exponential back-off with jitter, switching to the
//!   fallback model after consecutive overloads, up to a retry limit.

use vstd::arithmetic::power2::*;
use vstd::prelude::*;

use rand::Rng;

use crate::constants::{CONSECUTIVE_529_FALLBACK, MAX_CONTINUATION_ATTEMPTS, MAX_RETRY_ATTEMPTS, BACKOFF_BASE_MS};
use crate::llm::types::{error_text, LlmError};
use crate::text::owned;

verus! {

/// Recovery state, kept across the retries of one round.
#[derive(Debug, Clone)]
pub struct RecoveryState {
    pub has_escalated: bool,
    pub reactive_compact_used: bool,
    pub recovery_count: u32,
    pub consecutive_529: u32,
    pub retry_attempts: u32,
    pub current_model: Option<String>,
}

/// A recovery decision.
#[derive(Debug, Clone)]
pub enum RecoveryAction {
    /// Raise the output limit and retry (first truncation).
    EscalateMaxTokens,
    /// Keep the partial output, ask for a continuation and retry.
    ContinueTruncated,
    /// Compact the history and retry.
    ReactiveCompact,
    /// Wait `wait_ms` milliseconds and retry, possibly on the fallback model.
    Backoff { wait_ms: u64, switch_to_fallback: bool },
    /// Give up with this message.
    GiveUp(String),
}

/// The kind of a recovery decision, without its data.
#[derive(Debug)]
pub enum RecoveryKind {
    Escalate,
    Continue,
    Compact,
    Backoff,
    GiveUp,
}

/// The kind of a decision.
pub open spec fn kind_of(a: RecoveryAction) -> RecoveryKind {
    match a {
        RecoveryAction::EscalateMaxTokens => RecoveryKind::Escalate,
        RecoveryAction::ContinueTruncated => RecoveryKind::Continue,
        RecoveryAction::ReactiveCompact => RecoveryKind::Compact,
        RecoveryAction::Backoff { .. } => RecoveryKind::Backoff,
        RecoveryAction::GiveUp(_) => RecoveryKind::GiveUp,
    }
}

// ---------------------------------------------------------------------------
// Truncated output
// ---------------------------------------------------------------------------

/// The message given when continuations are exhausted.
pub open spec fn truncation_give_up_text() -> Seq<char> {
    "输出多次截断 (3 次续写后仍未完成)"@
}

/// The decision for a truncated reply in state `s`.
pub open spec fn max_tokens_kind(s: RecoveryState) -> RecoveryKind {
    if !s.has_escalated {
        RecoveryKind::Escalate
    } else if s.recovery_count < MAX_CONTINUATION_ATTEMPTS {
        RecoveryKind::Continue
    } else {
        RecoveryKind::GiveUp
    }
}

/// The state after a truncated reply in state `s`.
pub open spec fn after_max_tokens(s: RecoveryState) -> RecoveryState {
    if !s.has_escalated {
        RecoveryState { has_escalated: true, ..s }
    } else if s.recovery_count < MAX_CONTINUATION_ATTEMPTS {
        RecoveryState { recovery_count: (s.recovery_count + 1) as u32, ..s }
    } else {
        s
    }
}

/// The state after `k` truncated replies from `s`.
pub open spec fn after_max_tokens_n(s: RecoveryState, k: nat) -> RecoveryState
    decreases k,
{
    if k == 0 {
        s
    } else {
        after_max_tokens(after_max_tokens_n(s, (k - 1) as nat))
    }
}

// ---------------------------------------------------------------------------
// Prompt too long
// ---------------------------------------------------------------------------

/// The message given when the emergency compaction was already used.
pub open spec fn compact_give_up_text() -> Seq<char> {
    "上下文仍然超限 (reactive compact 已用尽)"@
}

/// The state after `k` over-long prompts from `s`.
pub open spec fn after_prompt_too_long_n(s: RecoveryState, k: nat) -> RecoveryState
    decreases k,
{
    if k == 0 {
        s
    } else {
        RecoveryState { reactive_compact_used: true, ..after_prompt_too_long_n(s, (k - 1) as nat) }
    }
}

// ---------------------------------------------------------------------------
// Rate limiting and overload
// ---------------------------------------------------------------------------

/// `min(BACKOFF_BASE_MS * 2^min(n, 20), BACKOFF_CAP_MS)`.
pub open spec fn exp_backoff(n: nat) -> u64 {
    let e: nat = if n < 20 {
        n
    } else {
        20
    };
    if 500 * pow2(e) < 32000 {
        (500 * pow2(e)) as u64
    } else {
        32000
    }
}

/// The wait before jitter, for the `attempt`-th retry (counted from 1): the
/// server's `Retry-After` when a rate limit names one, else the exponential
/// back-off.
pub open spec fn backoff_base(attempt: u32, err: LlmError) -> u64 {
    match err {
        LlmError::RateLimited { retry_after_ms: Some(ms) } => ms,
        _ => exp_backoff((if attempt >= 1 {
            attempt - 1
        } else {
            0
        }) as nat),
    }
}

/// The largest jitter added to a base wait: a quarter of it, at least 1.
pub open spec fn jitter_bound(base: u64) -> u64 {
    if base / 4 >= 1 {
        base / 4
    } else {
        1
    }
}

/// The message given when retries are exhausted.
pub open spec fn retry_give_up_text(err: LlmError) -> Seq<char> {
    "重试 10 次仍失败: "@ + error_text(err)
}

/// A transient error can be answered without arithmetic overflow.
pub open spec fn transient_fits(s: RecoveryState, err: LlmError) -> bool {
    &&& s.retry_attempts < u32::MAX
    &&& s.consecutive_529 < u32::MAX
    &&& (s.retry_attempts + 1 <= MAX_RETRY_ATTEMPTS ==> {
        let base = backoff_base((s.retry_attempts + 1) as u32, err);
        base + jitter_bound(base) <= u64::MAX
    })
}

/// The state after a transient error in state `s`.
pub open spec fn after_transient(s: RecoveryState, err: LlmError) -> RecoveryState {
    let attempts = (s.retry_attempts + 1) as u32;
    if attempts > MAX_RETRY_ATTEMPTS {
        RecoveryState { retry_attempts: attempts, ..s }
    } else if err is Overloaded {
        RecoveryState {
            retry_attempts: attempts,
            consecutive_529: (s.consecutive_529 + 1) as u32,
            ..s
        }
    } else {
        RecoveryState { retry_attempts: attempts, consecutive_529: 0, ..s }
    }
}

/// Whether a transient error in state `s` switches to the fallback model.
pub open spec fn switches_model(s: RecoveryState, err: LlmError) -> bool {
    err is Overloaded && s.consecutive_529 + 1 >= CONSECUTIVE_529_FALLBACK
}

/// The decision for a transient error in state `s`, the random jitter being
/// `jitter`.
pub open spec fn transient_decision(s: RecoveryState, err: LlmError, jitter: u64) -> (
    RecoveryKind,
    u64,
    bool,
) {
    let attempts = (s.retry_attempts + 1) as u32;
    if attempts > MAX_RETRY_ATTEMPTS {
        (RecoveryKind::GiveUp, 0, false)
    } else {
        let base = backoff_base(attempts, err);
        (RecoveryKind::Backoff, (base + jitter) as u64, switches_model(s, err))
    }
}

/// The decision `a` matches `transient_decision(s, err, jitter)`.
pub open spec fn is_transient_decision(
    a: RecoveryAction,
    s: RecoveryState,
    err: LlmError,
    jitter: u64,
) -> bool {
    let d = transient_decision(s, err, jitter);
    &&& kind_of(a) == d.0
    &&& (a matches RecoveryAction::Backoff { wait_ms, switch_to_fallback } ==> wait_ms == d.1
        && switch_to_fallback == d.2)
    &&& (a matches RecoveryAction::GiveUp(m) ==> m@ == retry_give_up_text(err))
}

/// `rand` `Rng::gen_range(0..=hi)` on the thread-local generator: a uniformly
/// random number in `0..=hi`. The range is never empty, so it never panics;
/// only the range of the result is stated.
#[verifier::external_body]
fn random_up_to(hi: u64) -> (r: u64)
    ensures
        r <= hi,
{
    rand::thread_rng().gen_range(0..=hi)
}

fn exp_backoff_exec(n: u32) -> (r: u64)
    ensures
        r == exp_backoff(n as nat),
{
    proof {
        lemma2_to64();
    }
    if n == 0 {
        500
    } else if n == 1 {
        1000
    } else if n == 2 {
        2000
    } else if n == 3 {
        4000
    } else if n == 4 {
        8000
    } else if n == 5 {
        16000
    } else {
        proof {
            let e: nat = if n < 20 {
                n as nat
            } else {
                20
            };
            if e > 6 {
                lemma_pow2_strictly_increases(6, e);
            }
            assert(pow2(e) >= 64);
        }
        32000
    }
}

impl RecoveryState {
    /// Whether a transient error can be answered from this state without the
    /// wait overflowing (a `Retry-After` near `u64::MAX`) or the counters
    /// wrapping.
    pub fn fits(&self, err: &LlmError) -> (r: bool)
        ensures
            r == transient_fits(*self, *err),
    {
        if self.retry_attempts == u32::MAX || self.consecutive_529 == u32::MAX {
            return false;
        }
        if self.retry_attempts + 1 > MAX_RETRY_ATTEMPTS {
            return true;
        }
        let base = match err {
            LlmError::RateLimited { retry_after_ms: Some(ms) } => *ms,
            _ => exp_backoff_exec(self.retry_attempts),
        };
        let bound = if base / 4 >= 1 {
            base / 4
        } else {
            1
        };
        base <= u64::MAX - bound
    }

    /// A fresh state: nothing escalated, nothing used, no retries.
    pub fn new() -> (r: RecoveryState)
        ensures
            r == (RecoveryState {
                has_escalated: false,
                reactive_compact_used: false,
                recovery_count: 0,
                consecutive_529: 0,
                retry_attempts: 0,
                current_model: None,
            }),
    {
        RecoveryState {
            has_escalated: false,
            reactive_compact_used: false,
            recovery_count: 0,
            consecutive_529: 0,
            retry_attempts: 0,
            current_model: None,
        }
    }

    /// A reply was cut off at the output limit: escalate the limit the first
    /// time, then continue up to `MAX_CONTINUATION_ATTEMPTS` times, then give up.
    pub fn on_max_tokens(&mut self) -> (r: RecoveryAction)
        ensures
            *final(self) == after_max_tokens(*old(self)),
            kind_of(r) == max_tokens_kind(*old(self)),
            r matches RecoveryAction::GiveUp(m) ==> m@ == truncation_give_up_text(),
    {
        if !self.has_escalated {
            self.has_escalated = true;
            return RecoveryAction::EscalateMaxTokens;
        }
        if self.recovery_count < MAX_CONTINUATION_ATTEMPTS {
            self.recovery_count += 1;
            return RecoveryAction::ContinueTruncated;
        }
        RecoveryAction::GiveUp(owned("输出多次截断 (3 次续写后仍未完成)"))
    }

    /// The request exceeded the context window: one emergency compaction, then
    /// give up.
    pub fn on_prompt_too_long(&mut self) -> (r: RecoveryAction)
        ensures
            *final(self) == (RecoveryState { reactive_compact_used: true, ..*old(self) }),
            !old(self).reactive_compact_used ==> r is ReactiveCompact,
            old(self).reactive_compact_used ==> (r matches RecoveryAction::GiveUp(m) && m@
                == compact_give_up_text()),
    {
        if !self.reactive_compact_used {
            self.reactive_compact_used = true;
            RecoveryAction::ReactiveCompact
        } else {
            RecoveryAction::GiveUp(owned("上下文仍然超限 (reactive compact 已用尽)"))
        }
    }

    /// A rate limit or overload, with the random jitter chosen by the caller:
    /// count the retry; past `MAX_RETRY_ATTEMPTS` give up, else back off by the
    /// `Retry-After` of a rate limit or by the exponential back-off, plus
    /// `jitter`, switching to the fallback model after
    /// `CONSECUTIVE_529_FALLBACK` consecutive overloads.
    pub fn on_transient_with_jitter(&mut self, err: &LlmError, jitter: u64) -> (r:
        RecoveryAction)
        requires
            transient_fits(*old(self), *err),
            old(self).retry_attempts + 1 <= MAX_RETRY_ATTEMPTS ==> jitter <= jitter_bound(
                backoff_base((old(self).retry_attempts + 1) as u32, *err),
            ),
        ensures
            *final(self) == after_transient(*old(self), *err),
            is_transient_decision(r, *old(self), *err, jitter),
    {
        self.retry_attempts += 1;
        if self.retry_attempts > MAX_RETRY_ATTEMPTS {
            let mut m = owned("重试 10 次仍失败: ");
            let d = err.describe();
            m.append(d.as_str());
            return RecoveryAction::GiveUp(m);
        }
        let is_529 = matches!(err, LlmError::Overloaded);
        if is_529 {
            self.consecutive_529 += 1;
        } else {
            self.consecutive_529 = 0;
        }
        let switch = is_529 && self.consecutive_529 >= CONSECUTIVE_529_FALLBACK;
        let base = match err {
            LlmError::RateLimited { retry_after_ms: Some(ms) } => *ms,
            _ => exp_backoff_exec(self.retry_attempts - 1),
        };
        RecoveryAction::Backoff { wait_ms: base + jitter, switch_to_fallback: switch }
    }

    /// A rate limit or overload: as `on_transient_with_jitter`, with a jitter
    /// drawn at random between 0 and a quarter of the base wait (at least 1).
    pub fn on_transient(&mut self, err: &LlmError) -> (r: RecoveryAction)
        requires
            transient_fits(*old(self), *err),
        ensures
            *final(self) == after_transient(*old(self), *err),
            exists|jitter: u64|
                #![trigger transient_decision(*old(self), *err, jitter)]
                is_transient_decision(r, *old(self), *err, jitter) && (old(self).retry_attempts
                    + 1 <= MAX_RETRY_ATTEMPTS ==> jitter <= jitter_bound(
                    backoff_base((old(self).retry_attempts + 1) as u32, *err),
                )),
    {
        let attempt = self.retry_attempts + 1;
        let mut jitter: u64 = 0;
        if attempt <= MAX_RETRY_ATTEMPTS {
            let base = match err {
                LlmError::RateLimited { retry_after_ms: Some(ms) } => *ms,
                _ => exp_backoff_exec(attempt - 1),
            };
            let quarter = base / 4;
            let hi = if quarter >= 1 {
                quarter
            } else {
                1
            };
            jitter = random_up_to(hi);
        }
        let r = self.on_transient_with_jitter(err, jitter);
        assert(is_transient_decision(r, *old(self), *err, jitter));
        r
    }

    /// A call succeeded: reset the retry and overload counters; escalation and
    /// compaction marks stay until the round ends.
    pub fn on_success(&mut self)
        ensures
            *final(self) == (RecoveryState {
                retry_attempts: 0,
                consecutive_529: 0,
                ..*old(self)
            }),
    {
        self.retry_attempts = 0;
        self.consecutive_529 = 0;
    }
}

impl Default for RecoveryState {
    fn default() -> (r: RecoveryState)
        ensures
            r == (RecoveryState {
                has_escalated: false,
                reactive_compact_used: false,
                recovery_count: 0,
                consecutive_529: 0,
                retry_attempts: 0,
                current_model: None,
            }),
    {
        RecoveryState::new()
    }
}

// ---------------------------------------------------------------------------
// Laws
// ---------------------------------------------------------------------------

/// From a fresh state, successive truncated replies are answered: first by
/// raising the limit, then by `MAX_CONTINUATION_ATTEMPTS` continuations, and
/// from then on by giving up.
pub proof fn law_truncation_schedule(s: RecoveryState, k: nat)
    requires
        !s.has_escalated,
        s.recovery_count == 0,
    ensures
        k == 0 ==> max_tokens_kind(after_max_tokens_n(s, k)) == RecoveryKind::Escalate,
        1 <= k <= MAX_CONTINUATION_ATTEMPTS ==> max_tokens_kind(after_max_tokens_n(s, k))
            == RecoveryKind::Continue,
        k > MAX_CONTINUATION_ATTEMPTS ==> max_tokens_kind(after_max_tokens_n(s, k))
            == RecoveryKind::GiveUp,
        k >= 1 ==> after_max_tokens_n(s, k).has_escalated,
        k >= 1 ==> after_max_tokens_n(s, k).recovery_count == (if k - 1
            <= MAX_CONTINUATION_ATTEMPTS {
            (k - 1) as nat
        } else {
            MAX_CONTINUATION_ATTEMPTS as nat
        }),
    decreases k,
{
    if k > 0 {
        law_truncation_schedule(s, (k - 1) as nat);
    }
}

/// The emergency compaction is granted at most once: after any number `k >= 1`
/// of over-long prompts the next one is given up.
pub proof fn law_compaction_once(s: RecoveryState, k: nat)
    requires
        k >= 1,
    ensures
        after_prompt_too_long_n(s, k).reactive_compact_used,
    decreases k,
{
}

/// A success after any failures leaves the escalation and compaction marks and
/// the continuation count as they were, and clears the retry counters, so the
/// next transient error starts the back-off from its first step.
pub proof fn law_success_resets_backoff(s: RecoveryState, err: LlmError)
    requires
        !(err matches LlmError::RateLimited { retry_after_ms: Some(_) }),
    ensures
        ({
            let t = RecoveryState { retry_attempts: 0, consecutive_529: 0, ..s };
            &&& t.has_escalated == s.has_escalated
            &&& t.reactive_compact_used == s.reactive_compact_used
            &&& t.recovery_count == s.recovery_count
            &&& t.current_model == s.current_model
            &&& backoff_base((t.retry_attempts + 1) as u32, err) == BACKOFF_BASE_MS
        }),
{
    lemma2_to64();
}

/// Overloads in a row switch to the fallback model exactly from the
/// `CONSECUTIVE_529_FALLBACK`-th one on, as long as retries remain.
pub proof fn law_overload_switch(s: RecoveryState)
    requires
        s.consecutive_529 == 0,
        s.retry_attempts + 3 <= MAX_RETRY_ATTEMPTS,
    ensures
        ({
            let s1 = after_transient(s, LlmError::Overloaded);
            let s2 = after_transient(s1, LlmError::Overloaded);
            &&& !switches_model(s, LlmError::Overloaded)
            &&& !switches_model(s1, LlmError::Overloaded)
            &&& switches_model(s2, LlmError::Overloaded)
            &&& transient_decision(s2, LlmError::Overloaded, 0).0 == RecoveryKind::Backoff
        }),
{
}

/// Once `MAX_RETRY_ATTEMPTS` retries are spent, every further transient error
/// is given up until a success resets the count.
pub proof fn law_retries_bounded(s: RecoveryState, err: LlmError, jitter: u64)
    requires
        s.retry_attempts >= MAX_RETRY_ATTEMPTS,
        s.retry_attempts < u32::MAX,
    ensures
        transient_decision(s, err, jitter).0 == RecoveryKind::GiveUp,
        after_transient(s, err).retry_attempts > MAX_RETRY_ATTEMPTS,
{
}

/// Without a `Retry-After`, the base wait of the first retry is 500 ms and
/// each further retry waits twice as long as the one before, up to 32 s: the
/// `k`-th retry waits `min(500 * 2^(k-1), 32000)` ms.
pub proof fn law_backoff_doubles(err: LlmError, k: u32)
    requires
        !(err matches LlmError::RateLimited { retry_after_ms: Some(_) }),
        1 <= k < u32::MAX,
    ensures
        backoff_base(1, err) == 500,
        backoff_base((k + 1) as u32, err) == if 2 * backoff_base(k, err) < 32000 {
            2 * backoff_base(k, err)
        } else {
            32000
        },
{
    lemma2_to64();
    let n: nat = (k - 1) as nat;
    assert(backoff_base(k, err) == exp_backoff(n));
    assert(backoff_base((k + 1) as u32, err) == exp_backoff(n + 1));
    assert(backoff_base(1, err) == exp_backoff(0));
    if n + 1 <= 20 {
        lemma_pow2_unfold(n + 1);
        assert(pow2(n + 1) == 2 * pow2(n));
    } else {
        assert(500 * pow2(20) >= 32000);
    }
}

} // verus!
