//! The life of a teammate: it works, then idles polling its mailbox and the
//! task graph, and leaves when asked to or when idle too long. The caller
//! runs the loop and the waiting; this module takes each decision.

use vstd::prelude::*;

use crate::constants::IDLE_TIMEOUT_SECS;
use crate::tasks::{claimable_pred, claimed, index_of, law_claimable_can_be_claimed, lemma_index_of_sorted, tasks_view, TaskStore, TaskView};
use crate::team::mailbox::MailMessage;
use crate::text::{append, owned, str_eq};

verus! {

/// What an idle teammate does after one poll.
#[derive(Debug)]
pub enum IdlePoll {
    /// Leave: it was told to stop.
    Shutdown,
    /// Leave, and record the stop: its mailbox holds a shutdown request.
    ShutdownRequested,
    /// Take the mail into the conversation and work.
    Drain,
    /// It claimed a task; put this text into the conversation and work.
    Claimed(String),
    /// Leave: idle too long.
    TimedOut,
    /// Wait and poll again.
    Wait,
}

/// Whether one of the messages asks for a shutdown.
pub open spec fn has_shutdown_request(inbox: Seq<MailMessage>) -> bool {
    exists|i: int| 0 <= i < inbox.len() && (#[trigger] inbox[i]).mtype@ == "shutdown_request"@
}

/// The text a claimed task is announced with.
pub open spec fn claimed_text(t: TaskView) -> Seq<char> {
    "你认领了任务 "@ + t.id + ": "@ + t.subject + "\n"@ + t.description
}

/// One poll of an idle teammate: a stop flag first, then its mailbox (a
/// shutdown request before anything else), then the first claimable task of
/// the graph (which it claims), then the idle limit.
pub fn idle_poll(shutdown: bool, inbox: &Vec<MailMessage>, tasks: &mut TaskStore, name: &str, idle_secs: u64) -> (r: IdlePoll)
    requires
        old(tasks).wf(),
    ensures
        final(tasks).wf(),
        shutdown ==> r is Shutdown && final(tasks).board() == old(tasks).board(),
        !shutdown && inbox@.len() > 0 && has_shutdown_request(inbox@) ==> r is ShutdownRequested
            && final(tasks).board() == old(tasks).board(),
        !shutdown && inbox@.len() > 0 && !has_shutdown_request(inbox@) ==> r is Drain && final(tasks).board()
            == old(tasks).board(),
        ({
            let b = old(tasks).board();
            let c = b.filter(claimable_pred(b));
            !shutdown && inbox@.len() == 0 ==> if c.len() > 0 {
                let i = index_of(b, c[0].id)->0;
                &&& (r matches IdlePoll::Claimed(t) && t@ == claimed_text(c[0]))
                &&& final(tasks).board() == b.update(i, claimed(b[i], name@))
            } else {
                &&& final(tasks).board() == b
                &&& (idle_secs > IDLE_TIMEOUT_SECS ==> r is TimedOut)
                &&& (idle_secs <= IDLE_TIMEOUT_SECS ==> r is Wait)
            }
        }),
{
    if shutdown {
        return IdlePoll::Shutdown;
    }
    if inbox.len() > 0 {
        let mut i: usize = 0;
        while i < inbox.len()
            invariant
                i <= inbox@.len(),
                !shutdown,
                tasks.wf(),
                tasks.board() == old(tasks).board(),
                forall|k: int| 0 <= k < i ==> (#[trigger] inbox@[k]).mtype@ != "shutdown_request"@,
            decreases inbox@.len() - i,
        {
            if str_eq(inbox[i].mtype.as_str(), "shutdown_request") {
                return IdlePoll::ShutdownRequested;
            }
            i += 1;
        }
        return IdlePoll::Drain;
    }
    let c = tasks.claimable();
    if c.len() > 0 {
        let ghost b = tasks.board();
        proof {
            let cv = b.filter(claimable_pred(b));
            assert(tasks_view(c@)[0] == cv[0]);
            assert(cv.contains(cv[0]));
            b.lemma_filter_contains_rev(claimable_pred(b), cv[0]);
            b.lemma_filter_pred(claimable_pred(b), 0);
            let k = choose|k: int| 0 <= k < b.len() && b[k] == cv[0];
            law_claimable_can_be_claimed(b, k);
            lemma_index_of_sorted(b, k);
        }
        let t = &c[0];
        let mut text = owned("你认领了任务 ");
        append(&mut text, t.id.as_str());
        append(&mut text, ": ");
        append(&mut text, t.subject.as_str());
        append(&mut text, "\n");
        append(&mut text, t.description.as_str());
        let _ = tasks.claim(t.id.as_str(), name);
        return IdlePoll::Claimed(text);
    }
    if idle_secs > IDLE_TIMEOUT_SECS {
        IdlePoll::TimedOut
    } else {
        IdlePoll::Wait
    }
}

/// The role prompt of teammate `name` with role `role`.
pub fn teammate_role_prompt(name: &str, role: &str) -> (r: String)
    ensures
        r@ == "你是团队成员 "@ + name@ + "，职责: "@ + role@
            + "。\n你可以用 send_message 与 lead 或其他成员沟通，用 task_claim/task_complete 认领和完成任务图中的任务。完成阶段性工作后向 lead 汇报。"@,
{
    let mut s = owned("你是团队成员 ");
    append(&mut s, name);
    append(&mut s, "，职责: ");
    append(&mut s, role);
    append(&mut s, "。\n你可以用 send_message 与 lead 或其他成员沟通，用 task_claim/task_complete 认领和完成任务图中的任务。完成阶段性工作后向 lead 汇报。");
    s
}

/// The text a drained mail becomes in a teammate's conversation.
pub fn teammate_mail_text(m: &MailMessage) -> (r: String)
    ensures
        r@ == "[来自 "@ + m.from@ + "]: "@ + m.content@,
{
    let mut s = owned("[来自 ");
    append(&mut s, m.from.as_str());
    append(&mut s, "]: ");
    append(&mut s, m.content.as_str());
    s
}

/// The summary a leaving teammate sends to the lead.
pub fn farewell(name: &str, ts: String) -> (r: MailMessage)
    ensures
        r.from@ == name@,
        r.to@ == "lead"@,
        r.content@ == "队友 "@ + name@ + " 已结束工作并退出。"@,
        r.mtype@ == "summary"@,
        r.ts@ == ts@,
        r.request_id is None,
{
    let mut c = owned("队友 ");
    append(&mut c, name);
    append(&mut c, " 已结束工作并退出。");
    MailMessage { from: owned(name), to: owned("lead"), content: c, mtype: owned("summary"), ts, request_id: None }
}

/// The session of teammate `name`.
pub fn teammate_session_id(name: &str) -> (r: String)
    ensures
        r@ == "teammate::"@ + name@,
{
    let mut s = owned("teammate::");
    append(&mut s, name);
    s
}

} // verus!
