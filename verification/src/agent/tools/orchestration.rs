//! What the task-graph, schedule, team, skill and memory tools do with the
//! state they work on: the arguments they read (with their defaults), the
//! change they make and the text they answer.

use vstd::prelude::*;

use crate::agent::tools::planning::{task_complete_text, task_list_text};
use crate::agent::tools::ToolOutput;
use crate::agent::memory::MemoryItem;
use crate::agent::skills::{by_name, loaded_text, SkillRegistry};
use crate::cron::{
    cron_list_text, cron_title_of, job_index, job_line, new_job, scheduled_text, spec_cron_error, CronJob,
    CronScheduler, JobView,
};
use crate::team::mailbox::MailMessage;
use crate::team::protocol::{stored, ProtocolRegistry, ProtocolStateView, ProtocolStatus};
use crate::team::registry::{TeamRegistry, TeammateView};
use crate::json::{json_bool_field, json_str_array_field, json_str_field, somes, spec_json_array_field, spec_json_bool_field, spec_json_str_field};
use crate::tasks::{claim_error, claimed, index_of, unlocked_by, TaskStore, TaskView};
use crate::text::{append, owned, seq_starts_with, trim, trim_str};

verus! {

/// The string field `key` of a tool's input, or `d` when there is none.
pub open spec fn str_arg(input: Seq<char>, key: Seq<char>, d: Seq<char>) -> Seq<char> {
    match spec_json_str_field(input, key) {
        Some(s) => s,
        None => d,
    }
}

/// The boolean field `key` of a tool's input, or `d` when there is none.
pub open spec fn bool_arg(input: Seq<char>, key: Seq<char>, d: bool) -> bool {
    match spec_json_bool_field(input, key) {
        Some(b) => b,
        None => d,
    }
}

/// The string field `key` of a tool's input, or `d`.
pub fn str_arg_of(input: &str, key: &str, d: &str) -> (r: String)
    ensures
        r@ == str_arg(input@, key@, d@),
{
    match json_str_field(input, key) {
        Some(s) => s,
        None => owned(d),
    }
}

/// The boolean field `key` of a tool's input, or `d`.
pub fn bool_arg_of(input: &str, key: &str, d: bool) -> (r: bool)
    ensures
        r == bool_arg(input@, key@, d),
{
    match json_bool_field(input, key) {
        Some(b) => b,
        None => d,
    }
}

/// The dependencies named by a `task_create` call: the strings of its
/// `blocked_by` array, none without one.
pub open spec fn blocked_arg(input: Seq<char>) -> Seq<Seq<char>> {
    match spec_json_array_field(input, "blocked_by"@) {
        Some(a) => somes(a),
        None => Seq::empty(),
    }
}

/// The task a `task_create` call makes under id `id`.
pub open spec fn created_task(input: Seq<char>, id: Seq<char>) -> TaskView {
    TaskView {
        id,
        subject: str_arg(input, "subject"@, ""@),
        description: str_arg(input, "description"@, ""@),
        status: "pending"@,
        owner: None,
        blocked_by: blocked_arg(input),
        worktree: None,
    }
}

/// `task_create`: a pending task with the call's subject, description and
/// dependencies under a fresh id, announced with its id and subject.
pub fn run_task_create(tasks: &mut TaskStore, input: &str) -> (r: ToolOutput)
    requires
        old(tasks).wf(),
    ensures
        final(tasks).wf(),
        !r.is_error,
        exists|id: Seq<char>| {
            &&& r.content@ == "已创建任务 "@ + id + " — "@ + str_arg(input@, "subject"@, ""@)
            &&& index_of(final(tasks).board(), id) matches Some(i) && final(tasks).board()[i]
                == #[trigger] created_task(input@, id)
        },
{
    let subject = str_arg_of(input, "subject", "");
    let desc = str_arg_of(input, "description", "");
    let blocked: Vec<String> = match json_str_array_field(input, "blocked_by") {
        Some(v) => v,
        None => Vec::new(),
    };
    proof {
        assert(crate::text::views(blocked@) =~= blocked_arg(input@));
    }
    let t = tasks.create(subject.as_str(), desc.as_str(), blocked);
    let mut s = owned("已创建任务 ");
    append(&mut s, t.id.as_str());
    append(&mut s, " — ");
    append(&mut s, t.subject.as_str());
    let out = ToolOutput::ok(s);
    proof {
        let tid = t@.id;
        assert(out.content@ == "已创建任务 "@ + tid + " — "@ + str_arg(input@, "subject"@, ""@));
        assert(t@ == created_task(input@, tid));
        assert(index_of(tasks.board(), tid) matches Some(i) && tasks.board()[i] == created_task(input@, tid));
    }
    out
}

/// `task_list`: the graph's tasks, one line each.
pub fn run_task_list(tasks: &TaskStore) -> (r: ToolOutput)
    requires
        tasks.wf(),
    ensures
        !r.is_error,
        tasks.board().len() == 0 ==> r.content@ == "(任务图为空)"@,
        tasks.board().len() > 0 ==> r.content@ == crate::text::join(
            tasks.board().map_values(|t: TaskView| crate::agent::tools::planning::task_line(t)),
            "\n"@,
        ),
{
    let all = tasks.all();
    ToolOutput::ok(task_list_text(&all))
}

/// `task_claim`: the call's `id` claimed by `agent`, or the reason it cannot be.
pub fn run_task_claim(tasks: &mut TaskStore, input: &str, agent: &str) -> (r: ToolOutput)
    requires
        old(tasks).wf(),
    ensures
        final(tasks).wf(),
        ({
            let id = str_arg(input@, "id"@, ""@);
            match claim_error(old(tasks).board(), id) {
                Some(e) => r.is_error && r.content@ == e && final(tasks).board() == old(tasks).board(),
                None => {
                    let i = index_of(old(tasks).board(), id)->0;
                    &&& !r.is_error
                    &&& r.content@ == "已认领 "@ + id + " — "@ + old(tasks).board()[i].subject
                    &&& final(tasks).board() == old(tasks).board().update(i, claimed(old(tasks).board()[i], agent@))
                },
            }
        }),
{
    let id = str_arg_of(input, "id", "");
    match tasks.claim(id.as_str(), agent) {
        Ok(t) => {
            let mut s = owned("已认领 ");
            append(&mut s, t.id.as_str());
            append(&mut s, " — ");
            append(&mut s, t.subject.as_str());
            ToolOutput::ok(s)
        },
        Err(e) => ToolOutput::err(e),
    }
}

/// `task_complete`: the call's `id` done, answered with the tasks it unlocked.
pub fn run_task_complete(tasks: &mut TaskStore, input: &str) -> (r: ToolOutput)
    requires
        old(tasks).wf(),
    ensures
        final(tasks).wf(),
        ({
            let id = str_arg(input@, "id"@, ""@);
            match index_of(old(tasks).board(), id) {
                None => r.is_error && r.content@ == "任务不存在"@ && final(tasks).board() == old(tasks).board(),
                Some(i) => {
                    let u = unlocked_by(final(tasks).board(), id);
                    &&& final(tasks).board() == old(tasks).board().update(
                        i,
                        TaskView { status: "completed"@, ..old(tasks).board()[i] },
                    )
                    &&& !r.is_error
                    &&& u.len() == 0 ==> r.content@ == "任务 "@ + id + " 已完成"@
                    &&& u.len() > 0 ==> r.content@ == "任务 "@ + id + " 已完成"@ + "\n解锁了下游任务: "@
                        + crate::text::join(u.map_values(|t: TaskView| t.id), ", "@)
                },
            }
        }),
{
    let id = str_arg_of(input, "id", "");
    match tasks.complete(id.as_str()) {
        Ok(unlocked) => ToolOutput::ok(task_complete_text(id.as_str(), &unlocked)),
        Err(e) => ToolOutput::err(e),
    }
}

// ---------------------------------------------------------------------------
// Schedules
// ---------------------------------------------------------------------------

/// `cron_schedule`: a job for the calling session (`recurring` and `durable`
/// default to true), refused when the expression does not parse; the added
/// job is handed back so that a durable one can be stored.
pub fn run_cron_schedule(cron: &mut CronScheduler, input: &str, session_id: &str) -> (r: (ToolOutput, Option<CronJob>))
    requires
        old(cron).wf(),
    ensures
        final(cron).wf(),
        final(cron).markers() == old(cron).markers(),
        ({
            let expr = str_arg(input@, "cron"@, ""@);
            let prompt = str_arg(input@, "prompt"@, ""@);
            match spec_cron_error(expr) {
                Some(e) => r.0.is_error && r.0.content@ == "cron 表达式无效: "@ + e && r.1 is None
                    && final(cron).job_list() == old(cron).job_list(),
                None => r.1 matches Some(j) && {
                    &&& seq_starts_with(j@.id, "cron-"@) && j@.id.len() == 37
                    &&& j@.title == cron_title_of(prompt)
                    &&& j@.expr == expr
                    &&& j@.prompt == prompt
                    &&& j@.recurring == bool_arg(input@, "recurring"@, true)
                    &&& j@.durable == bool_arg(input@, "durable"@, true)
                    &&& j@.session_id == session_id@
                    &&& !r.0.is_error
                    &&& r.0.content@ == "已创建定时任务 "@ + j@.id + ": ["@ + expr + "] "@ + prompt
                    &&& final(cron).job_list() == match job_index(old(cron).job_list(), j@.id) {
                        Some(i) => old(cron).job_list().update(i, j@),
                        None => old(cron).job_list().push(j@),
                    }
                },
            }
        }),
{
    let expr = str_arg_of(input, "cron", "");
    let prompt = str_arg_of(input, "prompt", "");
    let recurring = bool_arg_of(input, "recurring", true);
    let durable = bool_arg_of(input, "durable", true);
    let job = new_job(expr.as_str(), prompt.as_str(), recurring, durable, session_id);
    let kept = job.duplicate();
    match cron.add(job) {
        Err(e) => (ToolOutput::err(e), None),
        Ok(()) => {
            let text = scheduled_text(kept.id.as_str(), expr.as_str(), prompt.as_str());
            (ToolOutput::ok(text), Some(kept))
        },
    }
}

/// `cron_list`: the jobs, one line each.
pub fn run_cron_list(cron: &CronScheduler) -> (r: ToolOutput)
    requires
        cron.wf(),
    ensures
        !r.is_error,
        cron.job_list().len() == 0 ==> r.content@ == "(无定时任务)"@,
        cron.job_list().len() > 0 ==> r.content@ == crate::text::join(
            cron.job_list().map_values(|j: JobView| job_line(j)),
            "\n"@,
        ),
{
    let jobs = cron.list();
    ToolOutput::ok(cron_list_text(&jobs))
}

/// `cron_cancel`: the job with the call's `id` dropped (whether or not there
/// was one); the id is handed back so that a stored copy can be deleted too.
pub fn run_cron_cancel(cron: &mut CronScheduler, input: &str) -> (r: (ToolOutput, String))
    requires
        old(cron).wf(),
    ensures
        final(cron).wf(),
        r.1@ == str_arg(input@, "id"@, ""@),
        final(cron).job_list() == old(cron).job_list().filter(|j: JobView| j.id != r.1@),
        !r.0.is_error,
        r.0.content@ == "已取消定时任务 "@ + r.1@,
{
    let id = str_arg_of(input, "id", "");
    cron.remove(id.as_str());
    let mut s = owned("已取消定时任务 ");
    append(&mut s, id.as_str());
    (ToolOutput::ok(s), id)
}

// ---------------------------------------------------------------------------
// The team
// ---------------------------------------------------------------------------

/// `send_message`: the mail from `agent` (type `text` by default, with the
/// call's `request_id` if any) to deliver, and the answer.
pub fn run_send_message(input: &str, agent: &str, ts: String) -> (r: (MailMessage, ToolOutput))
    ensures
        r.0.from@ == agent@,
        r.0.to@ == str_arg(input@, "to"@, ""@),
        r.0.content@ == str_arg(input@, "content"@, ""@),
        r.0.mtype@ == str_arg(input@, "type"@, "text"@),
        r.0.ts@ == ts@,
        crate::tasks::opt_view(r.0.request_id) == spec_json_str_field(input@, "request_id"@),
        !r.1.is_error,
        r.1.content@ == "已发送消息给 "@ + str_arg(input@, "to"@, ""@),
{
    let to = str_arg_of(input, "to", "");
    let content = str_arg_of(input, "content", "");
    let mtype = str_arg_of(input, "type", "text");
    let request_id = json_str_field(input, "request_id");
    let mut s = owned("已发送消息给 ");
    append(&mut s, to.as_str());
    (MailMessage { from: owned(agent), to, content, mtype, ts, request_id }, ToolOutput::ok(s))
}

/// `spawn_teammate`: refused without a name (after trimming) or when a
/// teammate of that name exists; otherwise the answer and the trimmed name,
/// role and initial task with which to start the teammate.
pub fn run_spawn_teammate(team: &TeamRegistry, input: &str) -> (r: (ToolOutput, Option<(String, String, String)>))
    requires
        team.wf(),
    ensures
        ({
            let name = trim(str_arg(input@, "name"@, ""@));
            if name.len() == 0 {
                r.0.is_error && r.0.content@ == "name 不能为空"@ && r.1 is None
            } else if team.members_map().contains_key(name) {
                r.0.is_error && r.0.content@ == "队友 "@ + name + " 已存在"@ && r.1 is None
            } else {
                &&& !r.0.is_error
                &&& r.0.content@ == "已创建队友 "@ + name
                &&& r.1 matches Some((n, role, initial)) && n@ == name && role@ == str_arg(input@, "role"@, ""@)
                    && initial@ == str_arg(input@, "initial_task"@, ""@)
            }
        }),
{
    let raw = str_arg_of(input, "name", "");
    let name = trim_str(raw.as_str());
    let role = str_arg_of(input, "role", "");
    let initial = str_arg_of(input, "initial_task", "");
    if name.unicode_len() == 0 {
        return (ToolOutput::err(owned("name 不能为空")), None);
    }
    match team.get(name.as_str()) {
        Some(_) => {
            let mut e = owned("队友 ");
            append(&mut e, name.as_str());
            append(&mut e, " 已存在");
            (ToolOutput::err(e), None)
        },
        None => {
            let mut s = owned("已创建队友 ");
            append(&mut s, name.as_str());
            (ToolOutput::ok(s), Some((name, role, initial)))
        },
    }
}

/// The request text of a shutdown.
pub open spec fn shutdown_request_text() -> Seq<char> {
    "请完成当前工作后退出"@
}

/// `shutdown_teammate`: refused for an unknown teammate; otherwise a shutdown
/// request from `agent` is opened, the teammate is flagged, and the mail
/// carrying the request is handed back to deliver.
pub fn run_shutdown_teammate(
    team: &mut TeamRegistry,
    protocol: &mut ProtocolRegistry,
    input: &str,
    agent: &str,
    ts: String,
) -> (r: (ToolOutput, Option<MailMessage>))
    requires
        old(team).wf(),
        old(protocol).wf(),
    ensures
        final(team).wf(),
        final(protocol).wf(),
        ({
            let name = str_arg(input@, "name"@, ""@);
            if !old(team).members_map().contains_key(name) {
                &&& r.0.is_error && r.0.content@ == "队友 "@ + name + " 不存在"@ && r.1 is None
                &&& final(team).members_map() == old(team).members_map()
                &&& final(protocol).entries() == old(protocol).entries()
            } else {
                r.1 matches Some(m) && m.request_id matches Some(req) && {
                    &&& m.from@ == agent@ && m.to@ == name && m.content@ == shutdown_request_text()
                    &&& m.mtype@ == "shutdown_request"@ && m.ts@ == ts@
                    &&& seq_starts_with(req@, "req-"@) && req@.len() == 36
                    &&& final(protocol).entries() == stored(
                        old(protocol).entries(),
                        ProtocolStateView {
                            request_id: req@,
                            ptype: "shutdown"@,
                            sender: agent@,
                            target: name,
                            status: ProtocolStatus::Pending,
                            payload: shutdown_request_text(),
                        },
                    )
                    &&& final(team).members_map() == old(team).members_map().insert(
                        name,
                        TeammateView { shutdown: true, ..old(team).members_map()[name] },
                    )
                    &&& !r.0.is_error
                    &&& r.0.content@ == "已请求队友 "@ + name + " 关机 (request_id="@ + req@ + ")"@
                }
            }
        }),
{
    let name = str_arg_of(input, "name", "");
    match team.get(name.as_str()) {
        None => {
            let mut e = owned("队友 ");
            append(&mut e, name.as_str());
            append(&mut e, " 不存在");
            (ToolOutput::err(e), None)
        },
        Some(_) => {
            let req = protocol.create("shutdown", agent, name.as_str(), "请完成当前工作后退出");
            let _ = team.request_shutdown(name.as_str());
            let mut s = owned("已请求队友 ");
            append(&mut s, name.as_str());
            append(&mut s, " 关机 (request_id=");
            append(&mut s, req.as_str());
            append(&mut s, ")");
            let msg = MailMessage {
                from: owned(agent),
                to: name,
                content: owned("请完成当前工作后退出"),
                mtype: owned("shutdown_request"),
                ts,
                request_id: Some(req),
            };
            (ToolOutput::ok(s), Some(msg))
        },
    }
}

// ---------------------------------------------------------------------------
// Skills and memory
// ---------------------------------------------------------------------------

/// `load_skill`: the whole text of the named skill, or a refusal.
pub fn run_load_skill(skills: &SkillRegistry, input: &str) -> (r: ToolOutput)
    requires
        skills.wf(),
    ensures
        ({
            let name = str_arg(input@, "name"@, ""@);
            if by_name(skills.entries()).dom().contains(name) {
                !r.is_error && r.content@ == loaded_text(by_name(skills.entries())[name])
            } else {
                r.is_error && r.content@ == "未找到技能 '"@ + name + "' 或该技能未启用"@
            }
        }),
{
    let name = str_arg_of(input, "name", "");
    match skills.load(name.as_str()) {
        Some(t) => ToolOutput::ok(t),
        None => {
            let mut e = owned("未找到技能 '");
            append(&mut e, name.as_str());
            append(&mut e, "' 或该技能未启用");
            ToolOutput::err(e)
        },
    }
}

/// `remember`: the memory a call describes (type `reference` by default),
/// refused without a name.
pub fn remember_item(input: &str) -> (r: Result<MemoryItem, String>)
    ensures
        str_arg(input@, "name"@, ""@).len() == 0 ==> (r matches Err(m) && m@ == "name 不能为空"@),
        str_arg(input@, "name"@, ""@).len() > 0 ==> (r matches Ok(m) && m.name@ == str_arg(input@, "name"@, ""@)
            && m.description@ == str_arg(input@, "description"@, ""@) && m.mtype@ == str_arg(
            input@,
            "type"@,
            "reference"@,
        ) && m.content@ == str_arg(input@, "content"@, ""@)),
{
    let name = str_arg_of(input, "name", "");
    if name.unicode_len() == 0 {
        return Err(owned("name 不能为空"));
    }
    Ok(MemoryItem {
        name,
        description: str_arg_of(input, "description", ""),
        mtype: str_arg_of(input, "type", "reference"),
        content: str_arg_of(input, "content", ""),
    })
}

/// What `remember` answers once the store took (or refused) the memory.
pub fn remember_answer(name: &str, stored: Result<(), String>) -> (r: ToolOutput)
    ensures
        stored is Ok ==> !r.is_error && r.content@ == "已记住: "@ + name@,
        stored matches Err(e) ==> r.is_error && r.content@ == e@,
{
    match stored {
        Ok(()) => {
            let mut s = owned("已记住: ");
            append(&mut s, name);
            ToolOutput::ok(s)
        },
        Err(e) => ToolOutput::err(e),
    }
}

} // verus!
