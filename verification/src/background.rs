//! Background shell tasks: a slow command runs apart and answers at once
//! with a placeholder; when it finishes, a note waits for the next round of
//! its session. The running is the caller's; this module keeps the records.

use vstd::prelude::*;

use crate::ids::random_hex_id;
use crate::tasks::opt_view;
use crate::text::{append, owned, str_eq};

verus! {

/// The state of a background task.
#[derive(Debug, Clone, Copy, PartialEq, Eq, Structural)]
pub enum BgStatus {
    Running,
    Done,
    Failed,
}

/// A background task.
#[derive(Debug, Clone)]
pub struct BgTask {
    pub bg_id: String,
    pub session_id: String,
    pub command: String,
    pub status: BgStatus,
    pub output: Option<String>,
}

/// The value of a background task.
pub struct BgView {
    pub bg_id: Seq<char>,
    pub session_id: Seq<char>,
    pub command: Seq<char>,
    pub status: BgStatus,
    pub output: Option<Seq<char>>,
}

impl View for BgTask {
    type V = BgView;

    open spec fn view(&self) -> BgView {
        BgView {
            bg_id: self.bg_id@,
            session_id: self.session_id@,
            command: self.command@,
            status: self.status,
            output: opt_view(self.output),
        }
    }
}

impl BgTask {
    /// A copy.
    pub fn duplicate(&self) -> (r: BgTask)
        ensures
            r@ == self@,
    {
        BgTask {
            bg_id: self.bg_id.clone(),
            session_id: self.session_id.clone(),
            command: self.command.clone(),
            status: self.status,
            output: match &self.output {
                Some(o) => Some(o.clone()),
                None => None,
            },
        }
    }
}

/// The values of a list of tasks.
pub open spec fn bg_view(v: Seq<BgTask>) -> Seq<BgView> {
    v.map_values(|t: BgTask| t@)
}

/// The note a finished task leaves for its session.
pub open spec fn note_text(bg_id: Seq<char>, ok: bool, command: Seq<char>, output: Seq<char>) -> Seq<char> {
    "<task_notification bg_id=\""@ + bg_id + "\" status=\""@ + (if ok {
        "done"@
    } else {
        "failed"@
    }) + "\">\n命令: "@ + command + "\n输出:\n"@ + output + "\n</task_notification>"@
}

/// The notes waiting for a session.
pub open spec fn notes_of(pending: Seq<(Seq<char>, Seq<Seq<char>>)>, session: Seq<char>) -> Seq<Seq<char>> {
    if exists|i: int| 0 <= i < pending.len() && (#[trigger] pending[i]).0 == session {
        pending[choose|i: int| 0 <= i < pending.len() && (#[trigger] pending[i]).0 == session].1
    } else {
        Seq::empty()
    }
}

/// The tasks with `t` recorded: it replaces the task with its id, or, when
/// there is none, comes last.
pub open spec fn put_record(rs: Seq<BgView>, t: BgView) -> Seq<BgView> {
    if exists|i: int| 0 <= i < rs.len() && (#[trigger] rs[i]).bg_id == t.bg_id {
        rs.update(choose|i: int| 0 <= i < rs.len() && (#[trigger] rs[i]).bg_id == t.bg_id, t)
    } else {
        rs.push(t)
    }
}

/// The background tasks, keyed by id, and the notes waiting per session.
pub struct BackgroundManager {
    tasks: Vec<BgTask>,
    pending: Vec<(String, Vec<String>)>,
}

/// The value of the waiting notes.
pub open spec fn pending_view(v: Seq<(String, Vec<String>)>) -> Seq<(Seq<char>, Seq<Seq<char>>)> {
    v.map_values(|p: (String, Vec<String>)| (p.0@, crate::text::views(p.1@)))
}

impl BackgroundManager {
    /// The tasks, in the order they were first recorded.
    pub closed spec fn records(&self) -> Seq<BgView> {
        bg_view(self.tasks@)
    }

    /// The notes waiting, per session.
    pub closed spec fn waiting(&self) -> Seq<(Seq<char>, Seq<Seq<char>>)> {
        pending_view(self.pending@)
    }

    /// Ids and sessions occur once each.
    pub open spec fn wf(&self) -> bool {
        &&& forall|a: int, b: int| 0 <= a < b < self.records().len() ==> self.records()[a].bg_id != self.records()[b].bg_id
        &&& forall|a: int, b: int| 0 <= a < b < self.waiting().len() ==> self.waiting()[a].0 != self.waiting()[b].0
    }

    /// No tasks, no notes.
    pub fn new() -> (r: BackgroundManager)
        ensures
            r.wf(),
            r.records().len() == 0,
            r.waiting().len() == 0,
    {
        BackgroundManager { tasks: Vec::new(), pending: Vec::new() }
    }

    fn put(&mut self, t: BgTask)
        requires
            old(self).wf(),
        ensures
            final(self).wf(),
            final(self).waiting() == old(self).waiting(),
            final(self).records() == put_record(old(self).records(), t@),
    {
        let ghost tv = t@;
        let mut i: usize = 0;
        while i < self.tasks.len()
            invariant
                i <= self.tasks@.len(),
                self.wf(),
                self.records() == old(self).records(),
                self.waiting() == old(self).waiting(),
                tv == t@,
                forall|k: int| 0 <= k < i ==> (#[trigger] self.records()[k]).bg_id != tv.bg_id,
            decreases self.tasks@.len() - i,
        {
            if str_eq(self.tasks[i].bg_id.as_str(), t.bg_id.as_str()) {
                assert(old(self).records()[i as int].bg_id == tv.bg_id);
                proof {
                    let o = old(self).records();
                    let c = choose|c: int| 0 <= c < o.len() && (#[trigger] o[c]).bg_id == tv.bg_id;
                    if c != i {
                        assert(o[c].bg_id == o[i as int].bg_id);
                    }
                }
                self.tasks.set(i, t);
                assert(self.records() =~= old(self).records().update(i as int, tv));
                assert forall|a: int, b: int| 0 <= a < b < self.records().len() implies self.records()[a].bg_id
                    != self.records()[b].bg_id by {
                    assert(self.records()[a].bg_id == old(self).records()[a].bg_id);
                    assert(self.records()[b].bg_id == old(self).records()[b].bg_id);
                }
                return;
            }
            i += 1;
        }
        self.tasks.push(t);
        assert(self.records() =~= old(self).records().push(tv));
    }

    /// Records a new running task of `session_id` for `command` and gives its
    /// id: `bg-` and 32 random lowercase hexadecimal digits.
    pub fn start(&mut self, session_id: &str, command: &str) -> (r: String)
        requires
            old(self).wf(),
        ensures
            final(self).wf(),
            r@.len() == 35,
            crate::text::seq_starts_with(r@, "bg-"@),
            crate::ids::hex_id(r@.skip(3)),
            final(self).waiting() == old(self).waiting(),
            final(self).records() == put_record(
                old(self).records(),
                BgView { bg_id: r@, session_id: session_id@, command: command@, status: BgStatus::Running, output: None },
            ),
            exists|i: int| 0 <= i < final(self).records().len() && final(self).records()[i] == (BgView {
                bg_id: r@,
                session_id: session_id@,
                command: command@,
                status: BgStatus::Running,
                output: None,
            }),
    {
        let mut id = owned("bg-");
        let h = random_hex_id();
        append(&mut id, h.as_str());
        proof {
            reveal_strlit("bg-");
            assert(id@.subrange(0, 3) =~= "bg-"@);
            assert(id@.skip(3) =~= h@);
        }
        let t = BgTask {
            bg_id: id.clone(),
            session_id: owned(session_id),
            command: owned(command),
            status: BgStatus::Running,
            output: None,
        };
        let ghost tv = t@;
        self.put(t);
        proof {
            let o = old(self).records();
            if exists|i: int| 0 <= i < o.len() && (#[trigger] o[i]).bg_id == tv.bg_id {
                let i = choose|i: int| 0 <= i < o.len() && (#[trigger] o[i]).bg_id == tv.bg_id;
                assert(self.records()[i] == tv);
            } else {
                assert(self.records()[o.len() as int] == tv);
            }
        }
        id
    }

    /// Records the end of task `bg_id` (done when `ok`, else failed, with its
    /// output), leaves the note for its session, and gives the record to
    /// show, whose output then only says a note was left.
    pub fn finish(&mut self, bg_id: &str, session_id: &str, command: &str, output: &str, ok: bool) -> (r: BgTask)
        requires
            old(self).wf(),
        ensures
            final(self).wf(),
            exists|i: int| 0 <= i < final(self).records().len() && final(self).records()[i] == (BgView {
                bg_id: bg_id@,
                session_id: session_id@,
                command: command@,
                status: if ok {
                    BgStatus::Done
                } else {
                    BgStatus::Failed
                },
                output: Some(output@),
            }),
            final(self).records() == put_record(
                old(self).records(),
                BgView {
                    bg_id: bg_id@,
                    session_id: session_id@,
                    command: command@,
                    status: if ok {
                        BgStatus::Done
                    } else {
                        BgStatus::Failed
                    },
                    output: Some(output@),
                },
            ),
            notes_of(final(self).waiting(), session_id@) == notes_of(old(self).waiting(), session_id@).push(
                note_text(bg_id@, ok, command@, output@),
            ),
            forall|s: Seq<char>| s != session_id@ ==> notes_of(final(self).waiting(), s) == notes_of(old(self).waiting(), s),
            r@ == (BgView {
                bg_id: bg_id@,
                session_id: session_id@,
                command: command@,
                status: if ok {
                    BgStatus::Done
                } else {
                    BgStatus::Failed
                },
                output: Some("(已生成通知)"@),
            }),
    {
        let status = if ok {
            BgStatus::Done
        } else {
            BgStatus::Failed
        };
        let t = BgTask {
            bg_id: owned(bg_id),
            session_id: owned(session_id),
            command: owned(command),
            status,
            output: Some(owned(output)),
        };
        let ghost tv = t@;
        self.put(t);
        proof {
            let o = old(self).records();
            if exists|i: int| 0 <= i < o.len() && (#[trigger] o[i]).bg_id == tv.bg_id {
                let i = choose|i: int| 0 <= i < o.len() && (#[trigger] o[i]).bg_id == tv.bg_id;
                assert(self.records()[i] == tv);
            } else {
                assert(self.records()[o.len() as int] == tv);
            }
        }
        let mut note = owned("<task_notification bg_id=\"");
        append(&mut note, bg_id);
        append(&mut note, "\" status=\"");
        if ok {
            append(&mut note, "done");
        } else {
            append(&mut note, "failed");
        }
        append(&mut note, "\">\n命令: ");
        append(&mut note, command);
        append(&mut note, "\n输出:\n");
        append(&mut note, output);
        append(&mut note, "\n</task_notification>");
        self.add_note(session_id, note);
        BgTask {
            bg_id: owned(bg_id),
            session_id: owned(session_id),
            command: owned(command),
            status,
            output: Some(owned("(已生成通知)")),
        }
    }

    fn add_note(&mut self, session_id: &str, note: String)
        requires
            old(self).wf(),
        ensures
            final(self).wf(),
            final(self).records() == old(self).records(),
            notes_of(final(self).waiting(), session_id@) == notes_of(old(self).waiting(), session_id@).push(note@),
            forall|s: Seq<char>| s != session_id@ ==> notes_of(final(self).waiting(), s) == notes_of(old(self).waiting(), s),
    {
        let ghost o = self.waiting();
        let mut i: usize = 0;
        while i < self.pending.len()
            invariant
                i <= self.pending@.len(),
                self.wf(),
                o == self.waiting(),
                self.records() == old(self).records(),
                o == old(self).waiting(),
                forall|k: int| 0 <= k < i ==> (#[trigger] o[k]).0 != session_id@,
            decreases self.pending@.len() - i,
        {
            if str_eq(self.pending[i].0.as_str(), session_id) {
                let mut notes = crate::tasks::dup_strings(&self.pending[i].1);
                let ghost before = crate::text::views(notes@);
                notes.push(note);
                assert(crate::text::views(notes@) =~= before.push(note@));
                let key = self.pending[i].0.clone();
                self.pending.set(i, (key, notes));
                proof {
                    let w = self.waiting();
                    assert(w =~= o.update(i as int, (session_id@, o[i as int].1.push(note@))));
                    assert forall|s: Seq<char>| #![auto] true implies notes_of(w, s) == (if s == session_id@ {
                        o[i as int].1.push(note@)
                    } else {
                        notes_of(o, s)
                    }) by {
                        if s == session_id@ {
                            assert(w[i as int].0 == s);
                            let c = choose|c: int| 0 <= c < w.len() && (#[trigger] w[c]).0 == s;
                            if c != i {
                                assert(o[c].0 == o[i as int].0);
                            }
                            let d = choose|d: int| 0 <= d < o.len() && (#[trigger] o[d]).0 == s;
                            assert(o[i as int].0 == s);
                            if d != i {
                                assert(o[d].0 == o[i as int].0);
                            }
                        } else {
                            if exists|k: int| 0 <= k < w.len() && (#[trigger] w[k]).0 == s {
                                let c = choose|c: int| 0 <= c < w.len() && (#[trigger] w[c]).0 == s;
                                assert(c != i);
                                assert(o[c].0 == s);
                                let d = choose|d: int| 0 <= d < o.len() && (#[trigger] o[d]).0 == s;
                                if d != c {
                                    assert(o[d].0 == o[c].0);
                                }
                            } else {
                                assert forall|k: int| 0 <= k < o.len() implies (#[trigger] o[k]).0 != s by {
                                    if k != i {
                                        assert(w[k].0 == o[k].0);
                                    }
                                }
                            }
                        }
                    }
                }
                return;
            }
            i += 1;
        }
        let mut notes: Vec<String> = Vec::new();
        notes.push(note);
        let ghost nv = crate::text::views(notes@);
        assert(nv =~= Seq::<Seq<char>>::empty().push(note@));
        self.pending.push((owned(session_id), notes));
        proof {
            let w = self.waiting();
            assert(w =~= o.push((session_id@, nv)));
            assert(w[o.len() as int].0 == session_id@);
            assert forall|s: Seq<char>| #![auto] true implies notes_of(w, s) == (if s == session_id@ {
                Seq::<Seq<char>>::empty().push(note@)
            } else {
                notes_of(o, s)
            }) by {
                if s == session_id@ {
                    let c = choose|c: int| 0 <= c < w.len() && (#[trigger] w[c]).0 == s;
                    if c < o.len() {
                        assert(o[c].0 == s);
                    }
                } else {
                    if exists|k: int| 0 <= k < w.len() && (#[trigger] w[k]).0 == s {
                        let c = choose|c: int| 0 <= c < w.len() && (#[trigger] w[c]).0 == s;
                        assert(c < o.len());
                        assert(o[c].0 == s);
                        let d = choose|d: int| 0 <= d < o.len() && (#[trigger] o[d]).0 == s;
                        if d != c {
                            assert(w[d].0 == w[c].0);
                        }
                    } else {
                        assert forall|k: int| 0 <= k < o.len() implies (#[trigger] o[k]).0 != s by {
                            assert(w[k].0 == o[k].0);
                        }
                    }
                }
            }
        }
    }

    /// Takes the notes waiting for a session, leaving none for it.
    pub fn take_notifications(&mut self, session_id: &str) -> (r: Vec<String>)
        requires
            old(self).wf(),
        ensures
            final(self).wf(),
            final(self).records() == old(self).records(),
            crate::text::views(r@) == notes_of(old(self).waiting(), session_id@),
            notes_of(final(self).waiting(), session_id@).len() == 0,
            forall|s: Seq<char>| s != session_id@ ==> notes_of(final(self).waiting(), s) == notes_of(old(self).waiting(), s),
    {
        let ghost o = self.waiting();
        let mut i: usize = 0;
        while i < self.pending.len()
            invariant
                i <= self.pending@.len(),
                self.wf(),
                o == self.waiting(),
                o == old(self).waiting(),
                self.records() == old(self).records(),
                forall|k: int| 0 <= k < i ==> (#[trigger] o[k]).0 != session_id@,
            decreases self.pending@.len() - i,
        {
            if str_eq(self.pending[i].0.as_str(), session_id) {
                let (_, notes) = self.pending.remove(i);
                proof {
                    let w = self.waiting();
                    assert(w =~= o.remove(i as int));
                    let c = choose|c: int| 0 <= c < o.len() && (#[trigger] o[c]).0 == session_id@;
                    if c != i {
                        assert(o[c].0 == o[i as int].0);
                    }
                    assert(crate::text::views(notes@) == o[i as int].1);
                    assert forall|k: int| 0 <= k < w.len() implies (#[trigger] w[k]).0 != session_id@ by {
                        if k < i {
                            assert(w[k] == o[k]);
                        } else {
                            assert(w[k] == o[k + 1]);
                            assert(o[k + 1].0 != o[i as int].0);
                        }
                    }
                    assert forall|a: int, b: int| 0 <= a < b < w.len() implies w[a].0 != w[b].0 by {
                        let oa = if a < i { a } else { a + 1 };
                        let ob = if b < i { b } else { b + 1 };
                        assert(w[a] == o[oa] && w[b] == o[ob]);
                    }
                    assert forall|s: Seq<char>| s != session_id@ implies notes_of(w, s) == notes_of(o, s) by {
                        if exists|k: int| 0 <= k < w.len() && (#[trigger] w[k]).0 == s {
                            let cw = choose|k: int| 0 <= k < w.len() && (#[trigger] w[k]).0 == s;
                            let oc = if cw < i { cw } else { cw + 1 };
                            assert(w[cw] == o[oc]);
                            let d = choose|d: int| 0 <= d < o.len() && (#[trigger] o[d]).0 == s;
                            if d != oc {
                                assert(o[d].0 == o[oc].0);
                            }
                        } else {
                            assert forall|k: int| 0 <= k < o.len() implies (#[trigger] o[k]).0 != s by {
                                if k < i {
                                    assert(w[k] == o[k]);
                                } else if k > i {
                                    assert(w[k - 1] == o[k]);
                                }
                            }
                        }
                    }
                }
                return notes;
            }
            i += 1;
        }
        proof {
            assert(notes_of(o, session_id@) == Seq::<Seq<char>>::empty());
        }
        let r: Vec<String> = Vec::new();
        assert(crate::text::views(r@) =~= Seq::<Seq<char>>::empty());
        r
    }

    /// The tasks of a session, in the order they were first recorded.
    pub fn list(&self, session_id: &str) -> (r: Vec<BgTask>)
        ensures
            bg_view(r@) == self.records().filter(|t: BgView| t.session_id == session_id@),
    {
        let ghost pred = |t: BgView| t.session_id == session_id@;
        let ghost rv = self.records();
        let mut out: Vec<BgTask> = Vec::new();
        let mut i: usize = 0;
        while i < self.tasks.len()
            invariant
                i <= self.tasks@.len(),
                rv == self.records(),
                pred == (|t: BgView| t.session_id == session_id@),
                bg_view(out@) == rv.take(i as int).filter(pred),
            decreases self.tasks@.len() - i,
        {
            let ghost prev = out@;
            if str_eq(self.tasks[i].session_id.as_str(), session_id) {
                out.push(self.tasks[i].duplicate());
                assert(bg_view(out@) =~= bg_view(prev).push(rv[i as int]));
            }
            proof {
                assert(rv.take(i + 1).drop_last() =~= rv.take(i as int));
                reveal(Seq::filter);
            }
            i += 1;
        }
        assert(rv.take(self.tasks@.len() as int) =~= rv);
        out
    }
}

/// The notes that a run of calls leaves for one session: each call adds
/// one note (`Some`) or none (`None`).
pub open spec fn queued(added: Seq<Option<Seq<char>>>) -> Seq<Seq<char>>
    decreases added.len(),
{
    if added.len() == 0 {
        Seq::empty()
    } else {
        match added.last() {
            Some(n) => queued(added.drop_last()).push(n),
            None => queued(added.drop_last()),
        }
    }
}

/// Notes reach a session in completion order: once its notes were taken,
/// a run of calls each of which adds one note for it (`finish` of one of its
/// tasks) or none (`start`, `list`, or `finish` of another session's task)
/// leaves exactly those notes, in the order of the calls, for the next
/// `take_notifications`.
pub proof fn law_notes_in_completion_order(states: Seq<BackgroundManager>, sid: Seq<char>, added: Seq<Option<Seq<char>>>)
    requires
        states.len() == added.len() + 1,
        notes_of(states[0].waiting(), sid).len() == 0,
        forall|i: int|
            0 <= i < added.len() ==> notes_of(#[trigger] states[i + 1].waiting(), sid) == match added[i] {
                Some(n) => notes_of(states[i].waiting(), sid).push(n),
                None => notes_of(states[i].waiting(), sid),
            },
    ensures
        notes_of(states.last().waiting(), sid) == queued(added),
    decreases added.len(),
{
    if added.len() > 0 {
        let k = added.len() - 1;
        assert forall|i: int| 0 <= i < added.drop_last().len() implies notes_of(
            #[trigger] states.drop_last()[i + 1].waiting(),
            sid,
        ) == match added.drop_last()[i] {
            Some(n) => notes_of(states.drop_last()[i].waiting(), sid).push(n),
            None => notes_of(states.drop_last()[i].waiting(), sid),
        } by {
            assert(states.drop_last()[i + 1] == states[i + 1]);
            assert(states[i + 1].waiting() == states[i + 1].waiting());
        }
        law_notes_in_completion_order(states.drop_last(), sid, added.drop_last());
        assert(states[k + 1].waiting() == states.last().waiting());
    } else {
        assert(queued(added) =~= Seq::<Seq<char>>::empty());
    }
}

} // verus!
