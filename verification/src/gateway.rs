//! What the front end receives: event names and payloads, the records it
//! lists, and the small decisions behind its commands (storage summary,
//! automatic session titles).

use vstd::prelude::*;

use crate::cron::{cron_title_of, job_index, new_job, spec_cron_error, CronJob, CronScheduler};
use crate::llm::types::{
    blocks_view, join_texts_with, message_text, msgs_view, text_parts, ChatRequest, ContentBlock, Message,
    MessageView, Role, ThinkingLevel,
};
use crate::text::{all_ws, is_blank, join, join_strings, replace_chars, replace_chars_of, views};
use crate::text::{seq_lt, spec_to_lowercase, str_lt, to_lowercase};
use crate::text::{append, lines_of, owned, seq_starts_with, str_eq, str_starts_with, strip_leading, strip_leading_of,
    strip_trailing, strip_trailing_of, take_chars, take_chars_of, text_lines, trim, trim_str};

verus! {

/// Streamed text of the model.
pub const EV_DELTA: &'static str = "agent://delta";
/// A tool call starts.
pub const EV_TOOL_START: &'static str = "agent://tool-start";
/// A tool call ended.
pub const EV_TOOL_RESULT: &'static str = "agent://tool-result";
/// A whole assistant message.
pub const EV_ASSISTANT_MSG: &'static str = "agent://assistant-message";
/// A turn starts or ends.
pub const EV_TURN_STATE: &'static str = "agent://turn-state";
/// A tool call waits for the user's approval.
pub const EV_APPROVAL_REQUEST: &'static str = "agent://approval-request";
/// The to-do list changed.
pub const EV_TODO_UPDATE: &'static str = "agent://todo-update";
/// The team changed.
pub const EV_TEAM_UPDATE: &'static str = "agent://team-update";
/// A team message was sent.
pub const EV_TEAM_MESSAGE: &'static str = "agent://team-message";
/// The task graph changed.
pub const EV_TASK_UPDATE: &'static str = "agent://task-update";
/// A notice for the user.
pub const EV_NOTICE: &'static str = "agent://notice";
/// A background task changed.
pub const EV_BG_UPDATE: &'static str = "agent://background-update";
/// A session got a title.
pub const EV_SESSION_TITLE: &'static str = "session://title";

/// Streamed text.
#[derive(Debug, Clone)]
pub struct DeltaPayload {
    pub session_id: String,
    pub agent: String,
    pub text: String,
}

/// The end of a tool call.
#[derive(Debug, Clone)]
pub struct ToolResultPayload {
    pub session_id: String,
    pub agent: String,
    pub id: String,
    pub name: String,
    pub ok: bool,
    pub output: String,
}

/// A whole assistant message.
#[derive(Debug, Clone)]
pub struct AssistantMsgPayload {
    pub session_id: String,
    pub agent: String,
    pub text: String,
}

/// The state of a turn: `running` or `idle`.
#[derive(Debug, Clone)]
pub struct TurnStatePayload {
    pub session_id: String,
    pub state: String,
    pub detail: Option<String>,
}

/// A notice: level (`info`, `warn`, `error`) and text.
#[derive(Debug, Clone)]
pub struct NoticePayload {
    pub level: String,
    pub text: String,
}

/// A session's new title.
#[derive(Debug, Clone)]
pub struct SessionTitlePayload {
    pub session_id: String,
    pub title: String,
}

/// A session as listed.
#[derive(Debug, Clone)]
pub struct SessionDto {
    pub id: String,
    pub title: String,
    pub created_at: String,
    pub pinned: bool,
}

/// The working folder.
#[derive(Debug, Clone)]
pub struct WorkspaceDto {
    pub workspace: String,
}

/// What a part of the data folder takes.
#[derive(Debug, Clone)]
pub struct StorageItemDto {
    pub label: String,
    pub path: String,
    pub bytes: u64,
}

/// What the data folder takes, part by part.
#[derive(Debug, Clone)]
pub struct StorageInfoDto {
    pub workspace: String,
    pub default_workspace: String,
    pub data_dir: String,
    pub total_bytes: u64,
    pub items: Vec<StorageItemDto>,
}

/// An entry of a folder tree.
#[derive(Debug)]
pub struct DirEntryDto {
    pub name: String,
    pub path: String,
    pub is_dir: bool,
    pub children: Option<Vec<DirEntryDto>>,
}

/// A run of a scheduled job.
#[derive(Debug, Clone)]
pub struct CronRunDto {
    pub job_id: String,
    pub title: String,
    pub prompt: String,
    pub trigger: String,
    pub ran_at: String,
}

/// A notice payload.
pub fn notice_payload(level: &str, text: String) -> (r: NoticePayload)
    ensures
        r.level@ == level@,
        r.text@ == text@,
{
    NoticePayload { level: owned(level), text }
}

/// A turn-state payload without detail.
pub fn turn_state(session_id: &str, state: &str) -> (r: TurnStatePayload)
    ensures
        r.session_id@ == session_id@,
        r.state@ == state@,
        r.detail is None,
{
    TurnStatePayload { session_id: owned(session_id), state: owned(state), detail: None }
}

// ---------------------------------------------------------------------------
// Storage
// ---------------------------------------------------------------------------

/// The label of a known part of the data folder.
pub open spec fn storage_label_of(name: Seq<char>) -> Option<Seq<char>> {
    if name == "laver.db"@ {
        Some("会话数据库"@)
    } else if name == "skills"@ {
        Some("技能"@)
    } else if name == ".memory"@ {
        Some("记忆"@)
    } else if name == ".tasks"@ {
        Some("任务"@)
    } else if name == ".mailboxes"@ {
        Some("邮件"@)
    } else if name == ".task_outputs"@ {
        Some("任务输出"@)
    } else if name == ".transcripts"@ {
        Some("对话记录"@)
    } else {
        None
    }
}

/// The label of a known part of the data folder.
pub fn storage_label(name: &str) -> (r: Option<&'static str>)
    ensures
        match storage_label_of(name@) {
            Some(l) => r matches Some(x) && x@ == l,
            None => r is None,
        },
{
    if str_eq(name, "laver.db") {
        Some("会话数据库")
    } else if str_eq(name, "skills") {
        Some("技能")
    } else if str_eq(name, ".memory") {
        Some("记忆")
    } else if str_eq(name, ".tasks") {
        Some("任务")
    } else if str_eq(name, ".mailboxes") {
        Some("邮件")
    } else if str_eq(name, ".task_outputs") {
        Some("任务输出")
    } else if str_eq(name, ".transcripts") {
        Some("对话记录")
    } else {
        None
    }
}

/// The value of a storage item: label, path, bytes.
pub open spec fn item_view(i: StorageItemDto) -> (Seq<char>, Seq<char>, u64) {
    (i.label@, i.path@, i.bytes)
}

/// The values of storage items.
pub open spec fn items_view(v: Seq<StorageItemDto>) -> Seq<(Seq<char>, Seq<char>, u64)> {
    v.map_values(|i: StorageItemDto| item_view(i))
}

/// Puts an item into a list ordered by decreasing size, after every item at
/// least as large (so equal sizes keep their order).
pub open spec fn insert_by_size(s: Seq<(Seq<char>, Seq<char>, u64)>, x: (Seq<char>, Seq<char>, u64)) -> Seq<(Seq<char>, Seq<char>, u64)>
    decreases s.len(),
{
    if s.len() == 0 {
        seq![x]
    } else if s[0].2 >= x.2 {
        seq![s[0]] + insert_by_size(s.drop_first(), x)
    } else {
        seq![x] + s
    }
}

/// Items sorted by decreasing size, a stable sort.
pub open spec fn by_size(s: Seq<(Seq<char>, Seq<char>, u64)>) -> Seq<(Seq<char>, Seq<char>, u64)>
    decreases s.len(),
{
    if s.len() == 0 {
        Seq::empty()
    } else {
        insert_by_size(by_size(s.drop_last()), s.last())
    }
}

fn insert_sized(v: &mut Vec<StorageItemDto>, x: StorageItemDto)
    ensures
        items_view(final(v)@) == insert_by_size(items_view(old(v)@), item_view(x)),
{
    let ghost xv = item_view(x);
    let ghost o = items_view(v@);
    let mut p: usize = 0;
    assert(o.skip(0) =~= o);
    assert(o.take(0) =~= Seq::<(Seq<char>, Seq<char>, u64)>::empty());
    while p < v.len() && v[p].bytes >= x.bytes
        invariant
            p <= v@.len(),
            o == items_view(v@),
            xv == item_view(x),
            insert_by_size(o, xv) == o.take(p as int) + insert_by_size(o.skip(p as int), xv),
        decreases v@.len() - p,
    {
        proof {
            let t = o.skip(p as int);
            assert(t[0] == o[p as int]);
            assert(insert_by_size(t, xv) == seq![t[0]] + insert_by_size(t.drop_first(), xv));
            assert(t.drop_first() =~= o.skip(p + 1));
            assert(o.take(p + 1) =~= o.take(p as int) + seq![t[0]]);
            assert(o.take(p as int) + (seq![t[0]] + insert_by_size(t.drop_first(), xv)) =~= o.take(p + 1)
                + insert_by_size(o.skip(p + 1), xv));
        }
        p += 1;
    }
    proof {
        let t = o.skip(p as int);
        if p < o.len() {
            assert(t[0] == o[p as int]);
            assert(insert_by_size(t, xv) == seq![xv] + t);
        } else {
            assert(t =~= Seq::<(Seq<char>, Seq<char>, u64)>::empty());
        }
    }
    v.insert(p, x);
    assert(items_view(v@) =~= o.take(p as int) + (seq![xv] + o.skip(p as int)));
}

/// The sum of the sizes.
pub open spec fn total_size(s: Seq<(Seq<char>, Seq<char>, u64)>) -> int
    decreases s.len(),
{
    if s.len() == 0 {
        0
    } else {
        total_size(s.drop_last()) + s.last().2
    }
}

/// The known parts of a listing of the data folder, with their labels, in
/// order; the rest is summed.
pub open spec fn known_parts(entries: Seq<(Seq<char>, Seq<char>, u64)>) -> Seq<(Seq<char>, Seq<char>, u64)>
    decreases entries.len(),
{
    if entries.len() == 0 {
        Seq::empty()
    } else {
        let e = entries.last();
        let rest = known_parts(entries.drop_last());
        if e.2 == 0 {
            rest
        } else {
            match storage_label_of(e.0) {
                Some(l) => rest.push((l, e.1, e.2)),
                None => rest,
            }
        }
    }
}

/// The bytes of the parts that are not known.
pub open spec fn other_bytes(entries: Seq<(Seq<char>, Seq<char>, u64)>) -> int
    decreases entries.len(),
{
    if entries.len() == 0 {
        0
    } else {
        let e = entries.last();
        other_bytes(entries.drop_last()) + if e.2 != 0 && storage_label_of(e.0) is None {
            e.2 as int
        } else {
            0
        }
    }
}

/// The parts of a storage summary before sorting: the known parts, then,
/// when there is any, the rest under `其他`.
pub open spec fn summary_parts(data_dir: Seq<char>, entries: Seq<(Seq<char>, Seq<char>, u64)>) -> Seq<(Seq<char>, Seq<char>, u64)> {
    known_parts(entries) + if other_bytes(entries) > 0 {
        seq![("其他"@, data_dir, other_bytes(entries) as u64)]
    } else {
        Seq::empty()
    }
}

/// The parts of the data folder from its listing (name, path, bytes): known
/// parts by label, the rest together, largest first, and their total.
pub fn storage_summary(data_dir: &str, entries: &Vec<(String, String, u64)>) -> (r: (Vec<StorageItemDto>, u64))
    requires
        total_size(entries@.map_values(|e: (String, String, u64)| (e.0@, e.1@, e.2))) <= u64::MAX,
    ensures
        ({
            let ev = entries@.map_values(|e: (String, String, u64)| (e.0@, e.1@, e.2));
            &&& items_view(r.0@) == by_size(summary_parts(data_dir@, ev))
            &&& r.1 == total_size(summary_parts(data_dir@, ev))
        }),
{
    let ghost ev = entries@.map_values(|e: (String, String, u64)| (e.0@, e.1@, e.2));
    let mut parts: Vec<StorageItemDto> = Vec::new();
    let mut other: u64 = 0;
    let mut i: usize = 0;
    proof {
        lemma_parts_bounded(ev);
    }
    while i < entries.len()
        invariant
            i <= entries@.len(),
            ev == entries@.map_values(|e: (String, String, u64)| (e.0@, e.1@, e.2)),
            items_view(parts@) == known_parts(ev.take(i as int)),
            other == other_bytes(ev.take(i as int)),
            total_size(ev) <= u64::MAX,
            forall|k: int| 0 <= k <= ev.len() ==> #[trigger] other_bytes(ev.take(k)) + total_size(known_parts(ev.take(k))) <= total_size(ev),
        decreases entries@.len() - i,
    {
        proof {
            assert(ev.take(i + 1).drop_last() =~= ev.take(i as int));
            assert(ev.take(i + 1).last() == ev[i as int]);
        }
        let e = &entries[i];
        if e.2 != 0 {
            match storage_label(e.0.as_str()) {
                Some(l) => {
                    let ghost prev = parts@;
                    parts.push(StorageItemDto { label: owned(l), path: e.1.clone(), bytes: e.2 });
                    assert(items_view(parts@) =~= items_view(prev).push((storage_label_of(e.0@)->0, e.1@, e.2)));
                },
                None => {
                    proof {
                        assert(other_bytes(ev.take(i + 1)) + total_size(known_parts(ev.take(i + 1))) <= total_size(ev));
                        lemma_total_nonneg(known_parts(ev.take(i + 1)));
                        assert(other_bytes(ev.take(i + 1)) == other_bytes(ev.take(i as int)) + e.2);
                    }
                    other = other + e.2;
                },
            }
        }
        i += 1;
    }
    assert(ev.take(entries@.len() as int) =~= ev);
    if other > 0 {
        let ghost prev = parts@;
        parts.push(StorageItemDto { label: owned("其他"), path: owned(data_dir), bytes: other });
        assert(items_view(parts@) =~= items_view(prev) + seq![("其他"@, data_dir@, other)]);
    }
    let ghost sp = summary_parts(data_dir@, ev);
    assert(items_view(parts@) == sp);
    proof {
        lemma_total_concat(known_parts(ev), if other_bytes(ev) > 0 {
            seq![("其他"@, data_dir@, other_bytes(ev) as u64)]
        } else {
            Seq::empty()
        });
        if other_bytes(ev) > 0 {
            assert(ev.take(ev.len() as int) =~= ev);
            lemma_total_nonneg(known_parts(ev));
            assert(other_bytes(ev) <= u64::MAX);
            let single = seq![("其他"@, data_dir@, other_bytes(ev) as u64)];
            assert(single.drop_last() =~= Seq::<(Seq<char>, Seq<char>, u64)>::empty());
            assert(total_size(single) == total_size(single.drop_last()) + single.last().2);
            assert(total_size(single) == other_bytes(ev));
        } else {
            assert(total_size(Seq::<(Seq<char>, Seq<char>, u64)>::empty()) == 0);
        }
    }
    proof {
        assert forall|m: int| 0 <= m <= sp.len() implies total_size(#[trigger] sp.take(m)) <= total_size(sp) by {
            lemma_total_prefix(sp, m);
        }
        assert(sp.take(0) =~= Seq::<(Seq<char>, Seq<char>, u64)>::empty());
        lemma_parts_sum(ev);
        assert(ev.take(ev.len() as int) =~= ev);
        lemma_total_nonneg(known_parts(ev));
    }
    let mut sorted: Vec<StorageItemDto> = Vec::new();
    let mut total: u64 = 0;
    let mut k: usize = 0;
    while k < parts.len()
        invariant
            k <= parts@.len(),
            items_view(parts@) == sp,
            total_size(sp) <= u64::MAX,
            items_view(sorted@) == by_size(sp.take(k as int)),
            total == total_size(sp.take(k as int)),
            forall|m: int| 0 <= m <= sp.len() ==> total_size(#[trigger] sp.take(m)) <= total_size(sp),
        decreases parts@.len() - k,
    {
        proof {
            assert(sp.take(k + 1).drop_last() =~= sp.take(k as int));
            assert(sp.take(k + 1).last() == sp[k as int]);
            assert(total_size(sp.take(k + 1)) <= total_size(sp));
        }
        let p = &parts[k];
        total = total + p.bytes;
        let d = StorageItemDto { label: p.label.clone(), path: p.path.clone(), bytes: p.bytes };
        insert_sized(&mut sorted, d);
        k += 1;
    }
    assert(sp.take(parts@.len() as int) =~= sp);
    (sorted, total)
}

proof fn lemma_total_concat(a: Seq<(Seq<char>, Seq<char>, u64)>, b: Seq<(Seq<char>, Seq<char>, u64)>)
    ensures
        total_size(a + b) == total_size(a) + total_size(b),
    decreases b.len(),
{
    if b.len() == 0 {
        assert(a + b =~= a);
    } else {
        assert((a + b).drop_last() =~= a + b.drop_last());
        lemma_total_concat(a, b.drop_last());
    }
}

proof fn lemma_total_prefix(s: Seq<(Seq<char>, Seq<char>, u64)>, m: int)
    requires
        0 <= m <= s.len(),
    ensures
        total_size(s.take(m)) <= total_size(s),
        0 <= total_size(s.take(m)),
    decreases s.len(),
{
    if m < s.len() {
        assert(s.drop_last().take(m) =~= s.take(m));
        lemma_total_prefix(s.drop_last(), m);
    } else {
        assert(s.take(m) =~= s);
        lemma_total_nonneg(s);
    }
}

proof fn lemma_total_nonneg(s: Seq<(Seq<char>, Seq<char>, u64)>)
    ensures
        0 <= total_size(s),
    decreases s.len(),
{
    if s.len() > 0 {
        lemma_total_nonneg(s.drop_last());
    }
}

proof fn lemma_parts_bounded(ev: Seq<(Seq<char>, Seq<char>, u64)>)
    ensures
        forall|k: int| 0 <= k <= ev.len() ==> #[trigger] other_bytes(ev.take(k)) + total_size(known_parts(ev.take(k))) <= total_size(ev),
{
    assert forall|k: int| 0 <= k <= ev.len() implies #[trigger] other_bytes(ev.take(k)) + total_size(known_parts(ev.take(k)))
        <= total_size(ev) by {
        lemma_parts_sum(ev.take(k));
        lemma_total_prefix(ev, k);
    }
}

proof fn lemma_parts_sum(s: Seq<(Seq<char>, Seq<char>, u64)>)
    ensures
        other_bytes(s) + total_size(known_parts(s)) <= total_size(s),
        0 <= other_bytes(s),
        0 <= total_size(known_parts(s)),
    decreases s.len(),
{
    if s.len() > 0 {
        lemma_parts_sum(s.drop_last());
        let e = s.last();
        let rest = known_parts(s.drop_last());
        if e.2 != 0 {
            match storage_label_of(e.0) {
                Some(l) => {
                    assert(rest.push((l, e.1, e.2)).drop_last() =~= rest);
                },
                None => {},
            }
        }
    }
}

// ---------------------------------------------------------------------------
// Session titles
// ---------------------------------------------------------------------------

/// A session whose title is still the default one (`新对话…` or `会话`), or
/// that has none on record, gets a title from its first message.
pub open spec fn wants_title(current: Option<Seq<char>>) -> bool {
    match current {
        Some(t) => seq_starts_with(t, "新对话"@) || t == "会话"@,
        None => true,
    }
}

/// Whether a session gets a title from its first message.
pub fn should_auto_title(current: Option<&str>) -> (r: bool)
    ensures
        r == wants_title(
            match current {
                Some(t) => Some(t@),
                None => None,
            },
        ),
{
    match current {
        Some(t) => str_starts_with(t, "新对话") || str_eq(t, "会话"),
        None => true,
    }
}

/// The instructions of the title query.
pub const TITLE_SYSTEM: &'static str = "你是标题生成助手。根据用户的第一条消息，用不超过 12 个汉字概括一个简洁的会话标题。只输出标题本身，不要引号、标点、前后缀或任何解释。";

/// The query that asks the model for a session title.
pub fn title_request(model: &str, content: &str) -> (r: ChatRequest)
    ensures
        r.model@ == model@,
        r.system@ == TITLE_SYSTEM@,
        r.messages@.len() == 1,
        r.messages@[0]@ == Message::user_text_spec(content@),
        r.tools@.len() == 0,
        r.max_tokens == 32,
        r.thinking == ThinkingLevel::Off,
{
    ChatRequest {
        model: owned(model),
        system: owned(TITLE_SYSTEM),
        messages: vec![Message::user_text(owned(content))],
        tools: Vec::new(),
        max_tokens: 32,
        thinking: ThinkingLevel::Off,
    }
}

/// The characters stripped from the ends of a title.
pub open spec fn title_marks() -> Seq<char> {
    seq!['"', '\'', '「', '」', '《', '》', ':', '：', '。']
}

/// The title made of a model's answer: its first line, trimmed, without
/// quotes, colons and full stops at either end, trimmed, cut to 20
/// characters; none when nothing is left.
pub open spec fn title_of(raw: Seq<char>) -> Option<Seq<char>> {
    let lines = text_lines(raw);
    let first = trim(if lines.len() > 0 {
        lines[0]
    } else {
        Seq::empty()
    });
    let t = take_chars(trim(strip_trailing(strip_leading(first, title_marks()), title_marks())), 20);
    if t.len() == 0 {
        None
    } else {
        Some(t)
    }
}

/// The title made of a model's answer.
pub fn clean_title(raw: &str) -> (r: Option<String>)
    ensures
        match title_of(raw@) {
            Some(t) => r matches Some(x) && x@ == t,
            None => r is None,
        },
{
    let lines = lines_of(raw);
    let first = if lines.len() > 0 {
        trim_str(lines[0].as_str())
    } else {
        trim_str("")
    };
    proof {
        reveal_strlit("");
    }
    let marks: Vec<char> = vec!['"', '\'', '「', '」', '《', '》', ':', '：', '。'];
    assert(marks@ =~= title_marks());
    let a = strip_leading_of(first.as_str(), &marks);
    let b = strip_trailing_of(a.as_str(), &marks);
    let c = trim_str(b.as_str());
    let t = take_chars_of(c.as_str(), 20);
    if t.unicode_len() == 0 {
        None
    } else {
        Some(t)
    }
}

// ---------------------------------------------------------------------------
// Folder trees
// ---------------------------------------------------------------------------

/// How deep a folder tree goes below its root.
pub const TREE_MAX_DEPTH: usize = 4;

/// How many entries of a folder are looked at.
pub const TREE_ENTRY_LIMIT: usize = 300;

/// The folders and files a tree leaves out.
pub open spec fn tree_skip() -> Seq<Seq<char>> {
    seq![
        "node_modules"@, ".git"@, "target"@, "dist"@, ".idea"@, ".next"@, ".cache"@, "__pycache__"@, ".venv"@,
        "venv"@, ".vscode"@, "build"@, "coverage"@,
    ]
}

/// Whether a tree leaves out an entry of this name.
pub fn tree_skips(name: &str) -> (r: bool)
    ensures
        r == tree_skip().contains(name@),
{
    let r = str_eq(name, "node_modules") || str_eq(name, ".git") || str_eq(name, "target") || str_eq(name, "dist")
        || str_eq(name, ".idea") || str_eq(name, ".next") || str_eq(name, ".cache") || str_eq(name, "__pycache__")
        || str_eq(name, ".venv") || str_eq(name, "venv") || str_eq(name, ".vscode") || str_eq(name, "build")
        || str_eq(name, "coverage");
    proof {
        if r {
            assert(tree_skip().contains(name@)) by {
                let t = tree_skip();
                if name@ == "node_modules"@ { assert(t[0] == name@); }
                else if name@ == ".git"@ { assert(t[1] == name@); }
                else if name@ == "target"@ { assert(t[2] == name@); }
                else if name@ == "dist"@ { assert(t[3] == name@); }
                else if name@ == ".idea"@ { assert(t[4] == name@); }
                else if name@ == ".next"@ { assert(t[5] == name@); }
                else if name@ == ".cache"@ { assert(t[6] == name@); }
                else if name@ == "__pycache__"@ { assert(t[7] == name@); }
                else if name@ == ".venv"@ { assert(t[8] == name@); }
                else if name@ == "venv"@ { assert(t[9] == name@); }
                else if name@ == ".vscode"@ { assert(t[10] == name@); }
                else if name@ == "build"@ { assert(t[11] == name@); }
                else { assert(t[12] == name@); }
            }
        } else {
            assert(!tree_skip().contains(name@)) by {
                if tree_skip().contains(name@) {
                    let i = choose|i: int| 0 <= i < tree_skip().len() && tree_skip()[i] == name@;
                    assert(0 <= i < 13);
                }
            }
        }
    }
    r
}

/// A folder entry: name, path, whether it is a folder.
pub type TreeEntry = (String, String, bool);

/// The value of a folder entry.
pub open spec fn entry_view(e: (String, String, bool)) -> (Seq<char>, Seq<char>, bool) {
    (e.0@, e.1@, e.2)
}

/// `a` comes no later than `x`: folders first, then by lower-cased name.
pub open spec fn entry_le(a: (Seq<char>, Seq<char>, bool), x: (Seq<char>, Seq<char>, bool)) -> bool {
    (a.2 && !x.2) || (a.2 == x.2 && !seq_lt(spec_to_lowercase(x.0), spec_to_lowercase(a.0)))
}

/// Puts an entry into an ordered list, after every entry that comes no later
/// (so entries with equal keys keep their order).
pub open spec fn insert_entry(s: Seq<(Seq<char>, Seq<char>, bool)>, x: (Seq<char>, Seq<char>, bool)) -> Seq<(Seq<char>, Seq<char>, bool)>
    decreases s.len(),
{
    if s.len() == 0 {
        seq![x]
    } else if entry_le(s[0], x) {
        seq![s[0]] + insert_entry(s.drop_first(), x)
    } else {
        seq![x] + s
    }
}

/// The entries, folders first, then by lower-cased name (a stable sort).
pub open spec fn sorted_entries(s: Seq<(Seq<char>, Seq<char>, bool)>) -> Seq<(Seq<char>, Seq<char>, bool)>
    decreases s.len(),
{
    if s.len() == 0 {
        Seq::empty()
    } else {
        insert_entry(sorted_entries(s.drop_last()), s.last())
    }
}

/// What a folder shows in a tree: its entries sorted, the first
/// `TREE_ENTRY_LIMIT` of them, without those the tree leaves out.
pub open spec fn shown_entries(s: Seq<(Seq<char>, Seq<char>, bool)>) -> Seq<(Seq<char>, Seq<char>, bool)> {
    let t = sorted_entries(s);
    let n = if t.len() > TREE_ENTRY_LIMIT {
        TREE_ENTRY_LIMIT as int
    } else {
        t.len() as int
    };
    t.take(n).filter(|e: (Seq<char>, Seq<char>, bool)| !tree_skip().contains(e.0))
}

fn dup_entry(e: &TreeEntry) -> (r: TreeEntry)
    ensures
        entry_view(r) == entry_view(*e),
{
    (e.0.clone(), e.1.clone(), e.2)
}

fn entry_le_exec(a: &TreeEntry, x: &TreeEntry) -> (r: bool)
    ensures
        r == entry_le(entry_view(*a), entry_view(*x)),
{
    if a.2 && !x.2 {
        return true;
    }
    if a.2 != x.2 {
        return false;
    }
    let la = to_lowercase(a.0.as_str());
    let lx = to_lowercase(x.0.as_str());
    !str_lt(lx.as_str(), la.as_str())
}

fn insert_entry_exec(v: &mut Vec<TreeEntry>, x: TreeEntry)
    ensures
        final(v)@.map_values(|e: TreeEntry| entry_view(e)) == insert_entry(
            old(v)@.map_values(|e: TreeEntry| entry_view(e)),
            entry_view(x),
        ),
{
    let ghost xv = entry_view(x);
    let ghost o = v@.map_values(|e: TreeEntry| entry_view(e));
    let mut p: usize = 0;
    assert(o.skip(0) =~= o);
    assert(o.take(0) =~= Seq::<(Seq<char>, Seq<char>, bool)>::empty());
    while p < v.len() && entry_le_exec(&v[p], &x)
        invariant
            p <= v@.len(),
            o == v@.map_values(|e: TreeEntry| entry_view(e)),
            xv == entry_view(x),
            insert_entry(o, xv) == o.take(p as int) + insert_entry(o.skip(p as int), xv),
        decreases v@.len() - p,
    {
        proof {
            let t = o.skip(p as int);
            assert(t[0] == o[p as int]);
            assert(insert_entry(t, xv) == seq![t[0]] + insert_entry(t.drop_first(), xv));
            assert(t.drop_first() =~= o.skip(p + 1));
            assert(o.take(p + 1) =~= o.take(p as int) + seq![t[0]]);
            assert(o.take(p as int) + (seq![t[0]] + insert_entry(t.drop_first(), xv)) =~= o.take(p + 1)
                + insert_entry(o.skip(p + 1), xv));
        }
        p += 1;
    }
    proof {
        let t = o.skip(p as int);
        if p < o.len() {
            assert(t[0] == o[p as int]);
            assert(insert_entry(t, xv) == seq![xv] + t);
        } else {
            assert(t =~= Seq::<(Seq<char>, Seq<char>, bool)>::empty());
        }
    }
    v.insert(p, x);
    assert(v@.map_values(|e: TreeEntry| entry_view(e)) =~= o.take(p as int) + (seq![xv] + o.skip(p as int)));
}

/// What a folder shows in a tree, from its listing (name, path, whether a
/// folder).
pub fn tree_entries(entries: Vec<TreeEntry>) -> (r: Vec<TreeEntry>)
    ensures
        r@.map_values(|e: TreeEntry| entry_view(e)) == shown_entries(
            entries@.map_values(|e: TreeEntry| entry_view(e)),
        ),
{
    let ghost ev = entries@.map_values(|e: TreeEntry| entry_view(e));
    let mut sorted: Vec<TreeEntry> = Vec::new();
    let mut i: usize = 0;
    while i < entries.len()
        invariant
            i <= entries@.len(),
            ev == entries@.map_values(|e: TreeEntry| entry_view(e)),
            sorted@.map_values(|e: TreeEntry| entry_view(e)) == sorted_entries(ev.take(i as int)),
        decreases entries@.len() - i,
    {
        assert(ev.take(i + 1).drop_last() =~= ev.take(i as int));
        let e = dup_entry(&entries[i]);
        assert(entry_view(e) == ev[i as int]);
        insert_entry_exec(&mut sorted, e);
        i += 1;
    }
    assert(ev.take(entries@.len() as int) =~= ev);
    let ghost sv = sorted@.map_values(|e: TreeEntry| entry_view(e));
    let n = if sorted.len() > TREE_ENTRY_LIMIT {
        TREE_ENTRY_LIMIT
    } else {
        sorted.len()
    };
    let ghost pred = |e: (Seq<char>, Seq<char>, bool)| !tree_skip().contains(e.0);
    let mut out: Vec<TreeEntry> = Vec::new();
    let mut k: usize = 0;
    while k < n
        invariant
            k <= n <= sorted@.len(),
            sv == sorted@.map_values(|e: TreeEntry| entry_view(e)),
            pred == (|e: (Seq<char>, Seq<char>, bool)| !tree_skip().contains(e.0)),
            out@.map_values(|e: TreeEntry| entry_view(e)) == sv.take(k as int).filter(pred),
        decreases n - k,
    {
        let e = &sorted[k];
        let skip = tree_skips(e.0.as_str());
        let ghost prev = out@.map_values(|e: TreeEntry| entry_view(e));
        if !skip {
            out.push(dup_entry(e));
        }
        proof {
            assert(sv.take(k + 1).drop_last() =~= sv.take(k as int));
            reveal(Seq::filter);
            assert(sv.take(k + 1).last() == sv[k as int]);
            if !skip {
                assert(out@.map_values(|e: TreeEntry| entry_view(e)) =~= prev.push(sv[k as int]));
            } else {
                assert(out@.map_values(|e: TreeEntry| entry_view(e)) =~= prev);
            }
        }
        k += 1;
    }
    out
}

/// Whether a tree still lists the folder at `depth` below its root.
pub fn tree_descends(depth: usize) -> (r: bool)
    ensures
        r == (depth <= TREE_MAX_DEPTH),
{
    depth <= TREE_MAX_DEPTH
}

// ---------------------------------------------------------------------------
// Sessions
// ---------------------------------------------------------------------------

/// A new title for a session: the given one trimmed, refused when empty.
pub fn session_title(title: &str) -> (r: Result<String, String>)
    ensures
        trim(title@).len() == 0 ==> (r matches Err(m) && m@ == "会话名称不能为空"@),
        trim(title@).len() > 0 ==> (r matches Ok(t) && t@ == trim(title@)),
{
    let t = trim_str(title);
    if t.unicode_len() == 0 {
        Err(owned("会话名称不能为空"))
    } else {
        Ok(t)
    }
}

/// The note listing the files attached to a message.
pub open spec fn attachment_note(files: Seq<Seq<char>>) -> Seq<char> {
    "\n\n[附件] 用户提供了以下文件，需要时可用 read_file 读取或用 shell/技能处理：\n"@ + join(
        files.map_values(|p: Seq<char>| "- "@ + p),
        "\n"@,
    )
}

/// What is sent for a user's message: the text, and the list of attached
/// files when there are any.
pub fn message_with_attachments(content: String, attachments: Option<Vec<String>>) -> (r: String)
    ensures
        match attachments {
            Some(f) => if f@.len() > 0 {
                r@ == content@ + attachment_note(views(f@))
            } else {
                r@ == content@
            },
            None => r@ == content@,
        },
{
    match attachments {
        Some(files) => {
            if files.len() == 0 {
                return content;
            }
            let mut lines: Vec<String> = Vec::new();
            let mut i: usize = 0;
            while i < files.len()
                invariant
                    i <= files@.len(),
                    views(lines@) == views(files@).take(i as int).map_values(|p: Seq<char>| "- "@ + p),
                decreases files@.len() - i,
            {
                let mut l = owned("- ");
                append(&mut l, files[i].as_str());
                let ghost prev = views(lines@);
                lines.push(l);
                assert(views(lines@) =~= prev.push(l@));
                assert(views(files@).take(i + 1).map_values(|p: Seq<char>| "- "@ + p) =~= views(files@).take(
                    i as int,
                ).map_values(|p: Seq<char>| "- "@ + p).push("- "@ + files@[i as int]@));
                i += 1;
            }
            assert(views(files@).take(files@.len() as int) =~= views(files@));
            let list = join_strings(&lines, "\n");
            let mut full = content;
            append(&mut full, "\n\n[附件] 用户提供了以下文件，需要时可用 read_file 读取或用 shell/技能处理：\n");
            append(&mut full, list.as_str());
            full
        },
        None => content,
    }
}

/// The heading of a message in an exported session.
pub open spec fn export_role(r: Role) -> Seq<char> {
    if r == Role::User {
        "👤 用户"@
    } else {
        "🤖 助手"@
    }
}

/// The sections of the messages with some text, one after another.
pub open spec fn export_sections(ms: Seq<MessageView>) -> Seq<char>
    decreases ms.len(),
{
    if ms.len() == 0 {
        Seq::empty()
    } else {
        let m = ms.last();
        export_sections(ms.drop_last()) + if all_ws(message_text(m)) {
            Seq::empty()
        } else {
            "## "@ + export_role(m.role) + "\n\n"@ + message_text(m) + "\n\n"@
        }
    }
}

/// A session exported as Markdown: its title, then a section per message
/// that has some text.
pub fn export_markdown(title: &str, messages: &Vec<Message>) -> (r: String)
    ensures
        r@ == "# "@ + title@ + "\n\n"@ + export_sections(msgs_view(messages@)),
{
    let ghost mv = msgs_view(messages@);
    let mut md = owned("# ");
    append(&mut md, title);
    append(&mut md, "\n\n");
    let ghost head = md@;
    let mut i: usize = 0;
    while i < messages.len()
        invariant
            i <= messages@.len(),
            mv == msgs_view(messages@),
            md@ == head + export_sections(mv.take(i as int)),
        decreases messages@.len() - i,
    {
        assert(mv.take(i + 1).drop_last() =~= mv.take(i as int));
        let m = &messages[i];
        let text = m.text();
        if !is_blank(text.as_str()) {
            append(&mut md, "## ");
            match m.role {
                Role::User => append(&mut md, "👤 用户"),
                Role::Assistant => append(&mut md, "🤖 助手"),
            }
            append(&mut md, "\n\n");
            append(&mut md, text.as_str());
            append(&mut md, "\n\n");
        }
        i += 1;
    }
    assert(mv.take(messages@.len() as int) =~= mv);
    md
}

/// The characters a file name cannot hold.
pub open spec fn unsafe_file_chars() -> Seq<char> {
    seq!['\\', '/', ':', '*', '?', '"', '<', '>', '|']
}

/// The file an exported session is written to: its title with the characters
/// a file name cannot hold replaced by `_`, and `.md`.
pub fn export_file_name(title: &str) -> (r: String)
    ensures
        r@ == replace_chars(title@, unsafe_file_chars(), '_') + ".md"@,
{
    let bad: Vec<char> = vec!['\\', '/', ':', '*', '?', '"', '<', '>', '|'];
    let mut s = replace_chars_of(title, &bad, '_');
    append(&mut s, ".md");
    s
}

/// The title a model's reply proposes for a session: its texts run together,
/// cleaned as `clean_title` does.
pub fn title_from_reply(reply: &Vec<ContentBlock>) -> (r: Option<String>)
    ensures
        match title_of(join(text_parts(blocks_view(reply@)), ""@)) {
            Some(t) => r matches Some(x) && x@ == t,
            None => r is None,
        },
{
    let raw = join_texts_with(reply, "");
    clean_title(raw.as_str())
}

/// What a connection test answers: the reply's texts joined by spaces.
pub fn connection_reply(reply: &Vec<ContentBlock>) -> (r: String)
    ensures
        r@ == join(text_parts(blocks_view(reply@)), " "@),
{
    join_texts_with(reply, " ")
}

// ---------------------------------------------------------------------------
// Scheduled jobs created by hand
// ---------------------------------------------------------------------------

/// The title of a job created by hand: the given one trimmed, or, when none
/// is given or it is blank, the prompt's first line.
pub open spec fn manual_title(title: Option<Seq<char>>, prompt: Seq<char>) -> Seq<char> {
    match title {
        Some(t) => if trim(t).len() > 0 {
            trim(t)
        } else {
            cron_title_of(prompt)
        },
        None => cron_title_of(prompt),
    }
}

/// A job created by hand for session `session_id`: refused for a blank
/// prompt or an expression that does not parse; durable, recurring unless
/// said otherwise. The added job is handed back to be stored.
pub fn create_manual_job(
    cron: &mut CronScheduler,
    session_id: &str,
    title: Option<String>,
    expr: &str,
    prompt: &str,
    recurring: Option<bool>,
) -> (r: Result<CronJob, String>)
    requires
        old(cron).wf(),
    ensures
        final(cron).wf(),
        final(cron).markers() == old(cron).markers(),
        all_ws(prompt@) ==> (r matches Err(m) && m@ == "定时任务内容不能为空"@) && final(cron).job_list()
            == old(cron).job_list(),
        !all_ws(prompt@) && spec_cron_error(expr@) is Some ==> (r matches Err(m) && m@ == "cron 表达式无效: "@
            + spec_cron_error(expr@)->0) && final(cron).job_list() == old(cron).job_list(),
        !all_ws(prompt@) && spec_cron_error(expr@) is None ==> (r matches Ok(j) && {
            &&& seq_starts_with(j@.id, "cron-"@) && j@.id.len() == 37
            &&& j@.title == manual_title(crate::tasks::opt_view(title), prompt@)
            &&& j@.expr == expr@ && j@.prompt == prompt@ && j@.session_id == session_id@
            &&& j@.durable
            &&& j@.recurring == match recurring {
                Some(b) => b,
                None => true,
            }
            &&& final(cron).job_list() == match job_index(old(cron).job_list(), j@.id) {
                Some(i) => old(cron).job_list().update(i, j@),
                None => old(cron).job_list().push(j@),
            }
        }),
{
    if is_blank(prompt) {
        return Err(owned("定时任务内容不能为空"));
    }
    let rec = match recurring {
        Some(b) => b,
        None => true,
    };
    let mut job = new_job(expr, prompt, rec, true, session_id);
    match title {
        Some(t) => {
            let tt = trim_str(t.as_str());
            if tt.unicode_len() > 0 {
                job.title = tt;
            }
        },
        None => {},
    }
    let kept = job.duplicate();
    match cron.add(job) {
        Ok(()) => Ok(kept),
        Err(e) => Err(e),
    }
}

/// The job with id `id`, or "定时任务不存在".
pub fn find_job(cron: &CronScheduler, id: &str) -> (r: Result<CronJob, String>)
    requires
        cron.wf(),
    ensures
        match job_index(cron.job_list(), id@) {
            Some(i) => r matches Ok(j) && j@ == cron.job_list()[i],
            None => r matches Err(m) && m@ == "定时任务不存在"@,
        },
{
    let jobs = cron.list();
    let mut i: usize = 0;
    while i < jobs.len()
        invariant
            i <= jobs@.len(),
            cron.wf(),
            crate::cron::jobs_view(jobs@) == cron.job_list(),
            forall|k: int| 0 <= k < i ==> (#[trigger] cron.job_list()[k]).id != id@,
        decreases jobs@.len() - i,
    {
        if str_eq(jobs[i].id.as_str(), id) {
            proof {
                assert(cron.job_list()[i as int].id == id@);
                let c = choose|c: int| 0 <= c < cron.job_list().len() && (#[trigger] cron.job_list()[c]).id == id@;
                if c != i as int {
                    assert(cron.job_list()[c].id != cron.job_list()[i as int].id);
                }
            }
            return Ok(jobs[i].duplicate());
        }
        i += 1;
    }
    Err(owned("定时任务不存在"))
}

/// The prompt of a job fired by hand.
pub fn manual_prompt(prompt: &str) -> (r: String)
    ensures
        r@ == "[手动触发定时任务] "@ + prompt@,
{
    let mut s = owned("[手动触发定时任务] ");
    append(&mut s, prompt);
    s
}

} // verus!
