//! Team mailboxes: one file of JSON lines per agent, read by draining. The
//! file work is the caller's; this module names the files and says what the
//! messages become in a conversation.

use vstd::prelude::*;

use crate::agent::memory::{safe_file_name, safe_name};
use crate::paths::{path_join, spec_path_join};
use crate::text::{append, join, join_strings, owned, views};

verus! {

/// A message between team members.
#[derive(Debug, Clone)]
pub struct MailMessage {
    pub from: String,
    pub to: String,
    pub content: String,
    /// `text`, `summary`, `shutdown_request`, `shutdown_ack`, `plan_approval`
    /// or `plan_decision`.
    pub mtype: String,
    pub ts: String,
    pub request_id: Option<String>,
}

/// The mailboxes, as files in one folder.
pub struct MailBus {
    pub dir: String,
}

impl MailBus {
    /// The mailboxes under `data_dir`: its `.mailboxes` folder.
    pub fn new(data_dir: &str) -> (r: MailBus)
        ensures
            r.dir@ == spec_path_join(data_dir@, ".mailboxes"@),
    {
        MailBus { dir: path_join(data_dir, ".mailboxes") }
    }

    /// The mailbox file of `agent`: its name made safe, `.jsonl`.
    pub fn path(&self, agent: &str) -> (r: String)
        ensures
            r@ == spec_path_join(self.dir@, safe_file_name(agent@) + ".jsonl"@),
    {
        let mut f = safe_name(agent);
        append(&mut f, ".jsonl");
        path_join(self.dir.as_str(), f.as_str())
    }
}

/// The line a message becomes when put into the conversation of its
/// recipient between rounds.
pub open spec fn inbox_line(from: Seq<char>, mtype: Seq<char>, content: Seq<char>) -> Seq<char> {
    "[来自 "@ + from + " 的消息 ("@ + mtype + ")]: "@ + content
}

/// The values of the inbox lines of some messages.
pub open spec fn inbox_lines(msgs: Seq<MailMessage>) -> Seq<Seq<char>> {
    msgs.map_values(|m: MailMessage| inbox_line(m.from@, m.mtype@, m.content@))
}

/// What goes into a conversation between rounds: the finished background
/// tasks' notes, then the mails; nothing when there is neither.
pub open spec fn injection(notes: Seq<Seq<char>>, msgs: Seq<MailMessage>) -> Option<Seq<char>> {
    let all = notes + inbox_lines(msgs);
    if all.len() == 0 {
        None
    } else {
        Some(join(all, "\n\n"@))
    }
}

/// What goes into a conversation between rounds.
pub fn injection_text(notes: &Vec<String>, msgs: &Vec<MailMessage>) -> (r: Option<String>)
    ensures
        match injection(views(notes@), msgs@) {
            Some(t) => r matches Some(x) && x@ == t,
            None => r is None,
        },
{
    let mut all: Vec<String> = Vec::new();
    let mut i: usize = 0;
    while i < notes.len()
        invariant
            i <= notes@.len(),
            views(all@) == views(notes@).take(i as int),
        decreases notes@.len() - i,
    {
        let ghost prev = all@;
        all.push(notes[i].clone());
        assert(views(all@) =~= views(prev).push(notes@[i as int]@));
        assert(views(all@) =~= views(notes@).take(i + 1));
        i += 1;
    }
    assert(views(notes@).take(notes@.len() as int) =~= views(notes@));
    let mut j: usize = 0;
    while j < msgs.len()
        invariant
            j <= msgs@.len(),
            views(all@) == views(notes@) + inbox_lines(msgs@).take(j as int),
        decreases msgs@.len() - j,
    {
        let m = &msgs[j];
        let mut l = owned("[来自 ");
        append(&mut l, m.from.as_str());
        append(&mut l, " 的消息 (");
        append(&mut l, m.mtype.as_str());
        append(&mut l, ")]: ");
        append(&mut l, m.content.as_str());
        let ghost prev = all@;
        all.push(l);
        assert(views(all@) =~= views(prev).push(inbox_lines(msgs@)[j as int]));
        assert(views(all@) =~= views(notes@) + inbox_lines(msgs@).take(j + 1));
        j += 1;
    }
    assert(inbox_lines(msgs@).take(msgs@.len() as int) =~= inbox_lines(msgs@));
    if all.len() == 0 {
        None
    } else {
        Some(join_strings(&all, "\n\n"))
    }
}

} // verus!
