//! The task graph: tasks with dependencies (`blocked_by`), claimed by one
//! owner at a time. Status moves pending -> in_progress (claim) -> completed.
//!
//! `TaskStore` holds the board in id order (the order in which tasks are
//! listed); the caller persists each task.

use vstd::prelude::*;

use crate::ids::random_hex_id;
use crate::text::{
    append, lemma_seq_lt_total, lemma_seq_lt_transitive, owned, seq_lt, str_eq, str_lt, views,
};

verus! {

/// A task.
#[derive(Debug, Clone)]
pub struct Task {
    pub id: String,
    pub subject: String,
    pub description: String,
    /// `pending`, `in_progress` or `completed`.
    pub status: String,
    pub owner: Option<String>,
    pub blocked_by: Vec<String>,
    pub worktree: Option<String>,
}

/// The value of a task.
pub struct TaskView {
    pub id: Seq<char>,
    pub subject: Seq<char>,
    pub description: Seq<char>,
    pub status: Seq<char>,
    pub owner: Option<Seq<char>>,
    pub blocked_by: Seq<Seq<char>>,
    pub worktree: Option<Seq<char>>,
}

/// The view of an optional text.
pub open spec fn opt_view(o: Option<String>) -> Option<Seq<char>> {
    match o {
        Some(s) => Some(s@),
        None => None,
    }
}

impl View for Task {
    type V = TaskView;

    open spec fn view(&self) -> TaskView {
        TaskView {
            id: self.id@,
            subject: self.subject@,
            description: self.description@,
            status: self.status@,
            owner: opt_view(self.owner),
            blocked_by: views(self.blocked_by@),
            worktree: opt_view(self.worktree),
        }
    }
}

/// A copy of an optional text.
pub fn dup_opt(o: &Option<String>) -> (r: Option<String>)
    ensures
        opt_view(r) == opt_view(*o),
{
    match o {
        Some(s) => Some(s.clone()),
        None => None,
    }
}

/// A copy of a list of texts.
pub fn dup_strings(v: &Vec<String>) -> (r: Vec<String>)
    ensures
        views(r@) == views(v@),
{
    let mut out: Vec<String> = Vec::new();
    let mut i: usize = 0;
    while i < v.len()
        invariant
            i <= v@.len(),
            views(out@) == views(v@).take(i as int),
        decreases v@.len() - i,
    {
        let ghost prev = out@;
        out.push(v[i].clone());
        assert(views(out@) =~= views(prev).push(v@[i as int]@));
        assert(views(out@) =~= views(v@).take(i + 1));
        i += 1;
    }
    assert(views(v@).take(v@.len() as int) =~= views(v@));
    out
}

impl Task {
    /// Duplicates a task.
    pub fn duplicate(&self) -> (r: Task)
        ensures
            r@ == self@,
    {
        Task {
            id: self.id.clone(),
            subject: self.subject.clone(),
            description: self.description.clone(),
            status: self.status.clone(),
            owner: dup_opt(&self.owner),
            blocked_by: dup_strings(&self.blocked_by),
            worktree: dup_opt(&self.worktree),
        }
    }
}

/// The values of a list of tasks.
pub open spec fn tasks_view(v: Seq<Task>) -> Seq<TaskView> {
    v.map_values(|t: Task| t@)
}

/// The ids strictly increase along the board (so each id occurs once).
pub open spec fn sorted_ids(s: Seq<TaskView>) -> bool {
    forall|a: int, b: int| 0 <= a < b < s.len() ==> seq_lt(s[a].id, s[b].id)
}

/// The position of the task with id `id`, if any.
pub open spec fn index_of(s: Seq<TaskView>, id: Seq<char>) -> Option<int> {
    if exists|i: int| 0 <= i < s.len() && (#[trigger] s[i]).id == id {
        Some(choose|i: int| 0 <= i < s.len() && (#[trigger] s[i]).id == id)
    } else {
        None
    }
}

/// Every task that `t` depends on is completed or unknown (a missing
/// dependency counts as done).
pub open spec fn can_start_in(s: Seq<TaskView>, t: TaskView) -> bool {
    forall|k: int|
        0 <= k < t.blocked_by.len() ==> match index_of(s, #[trigger] t.blocked_by[k]) {
            Some(i) => s[i].status == "completed"@,
            None => true,
        }
}

/// Why a claim of task `id` by `owner` fails, if it does.
pub open spec fn claim_error(s: Seq<TaskView>, id: Seq<char>) -> Option<Seq<char>> {
    match index_of(s, id) {
        None => Some("任务不存在"@),
        Some(i) => if s[i].status != "pending"@ {
            Some("任务状态为 "@ + s[i].status + "，无法认领"@)
        } else if s[i].owner is Some {
            Some("任务已被认领"@)
        } else if !can_start_in(s, s[i]) {
            Some("上游依赖未完成，暂不可认领"@)
        } else {
            None
        },
    }
}

/// Task `t` claimed by `owner`.
pub open spec fn claimed(t: TaskView, owner: Seq<char>) -> TaskView {
    TaskView { owner: Some(owner), status: "in_progress"@, ..t }
}

/// A task is claimable: pending, without owner, all dependencies done.
pub open spec fn claimable_in(s: Seq<TaskView>, t: TaskView) -> bool {
    &&& t.status == "pending"@
    &&& t.owner is None
    &&& can_start_in(s, t)
}

/// A task of board `after` unlocked by completing `id`: pending, depending on
/// `id` and now startable.
pub open spec fn unlocks(after: Seq<TaskView>, id: Seq<char>) -> spec_fn(TaskView) -> bool {
    |t: TaskView| t.status == "pending"@ && t.blocked_by.contains(id) && can_start_in(after, t)
}

/// The tasks of board `after` unlocked by completing `id`, in board order.
pub open spec fn unlocked_by(after: Seq<TaskView>, id: Seq<char>) -> Seq<TaskView> {
    after.filter(unlocks(after, id))
}

/// The claimable tasks of a board, as a predicate.
pub open spec fn claimable_pred(b: Seq<TaskView>) -> spec_fn(TaskView) -> bool {
    |t: TaskView| claimable_in(b, t)
}

/// The task graph.
pub struct TaskStore {
    tasks: Vec<Task>,
}

impl TaskStore {
    /// The tasks, in id order.
    pub closed spec fn board(&self) -> Seq<TaskView> {
        tasks_view(self.tasks@)
    }

    /// The board is in strictly increasing id order.
    pub open spec fn wf(&self) -> bool {
        sorted_ids(self.board())
    }

    /// An empty graph.
    pub fn new() -> (r: TaskStore)
        ensures
            r.wf(),
            r.board().len() == 0,
    {
        TaskStore { tasks: Vec::new() }
    }

    /// Where `id` is, or where it would be inserted to keep the order.
    fn locate(&self, id: &str) -> (r: (usize, bool))
        requires
            self.wf(),
        ensures
            r.0 <= self.board().len(),
            r.1 ==> r.0 < self.board().len() && self.board()[r.0 as int].id == id@,
            !r.1 ==> index_of(self.board(), id@) is None,
            forall|a: int| 0 <= a < r.0 ==> seq_lt(#[trigger] self.board()[a].id, id@),
            !r.1 ==> forall|b: int|
                r.0 <= b < self.board().len() ==> seq_lt(id@, #[trigger] self.board()[b].id),
    {
        let mut i: usize = 0;
        while i < self.tasks.len()
            invariant
                i <= self.tasks@.len(),
                self.wf(),
                forall|a: int| 0 <= a < i ==> seq_lt(#[trigger] self.board()[a].id, id@),
            decreases self.tasks@.len() - i,
        {
            let t = &self.tasks[i];
            if str_eq(t.id.as_str(), id) {
                return (i, true);
            }
            if !str_lt(t.id.as_str(), id) {
                proof {
                    lemma_seq_lt_total(t.id@, id@);
                    assert forall|b: int| i <= b < self.board().len() implies seq_lt(
                        id@,
                        #[trigger] self.board()[b].id,
                    ) by {
                        if b > i {
                            lemma_seq_lt_transitive(id@, self.board()[i as int].id, self.board()[b].id);
                        }
                    }
                    assert forall|k: int| 0 <= k < self.board().len() implies (#[trigger] self.board()[k]).id != id@ by {
                        if k >= i {
                            lemma_seq_lt_total(id@, self.board()[k].id);
                        } else {
                            lemma_seq_lt_total(self.board()[k].id, id@);
                        }
                    }
                }
                return (i, false);
            }
            i += 1;
        }
        proof {
            assert forall|k: int| 0 <= k < self.board().len() implies (#[trigger] self.board()[k]).id != id@ by {
                lemma_seq_lt_total(self.board()[k].id, id@);
            }
        }
        (i, false)
    }

    proof fn lemma_index(&self, i: int)
        requires
            self.wf(),
            0 <= i < self.board().len(),
        ensures
            index_of(self.board(), self.board()[i].id) == Some(i),
    {
        let id = self.board()[i].id;
        assert(self.board()[i].id == id);
        let c = choose|k: int| 0 <= k < self.board().len() && (#[trigger] self.board()[k]).id == id;
        if c != i {
            if c < i {
                lemma_seq_lt_total(self.board()[c].id, id);
            } else {
                lemma_seq_lt_total(id, self.board()[c].id);
            }
        }
    }

    /// The task with id `id`.
    pub fn get(&self, id: &str) -> (r: Option<Task>)
        requires
            self.wf(),
        ensures
            match index_of(self.board(), id@) {
                Some(i) => r matches Some(t) && t@ == self.board()[i],
                None => r is None,
            },
    {
        let (i, found) = self.locate(id);
        if found {
            proof {
                self.lemma_index(i as int);
            }
            Some(self.tasks[i].duplicate())
        } else {
            None
        }
    }

    /// All tasks, in id order.
    pub fn all(&self) -> (r: Vec<Task>)
        ensures
            tasks_view(r@) == self.board(),
    {
        let mut out: Vec<Task> = Vec::new();
        let mut i: usize = 0;
        while i < self.tasks.len()
            invariant
                i <= self.tasks@.len(),
                tasks_view(out@) == self.board().take(i as int),
            decreases self.tasks@.len() - i,
        {
            let ghost prev = out@;
            out.push(self.tasks[i].duplicate());
            assert(tasks_view(out@) =~= tasks_view(prev).push(self.board()[i as int]));
            assert(self.board().take(i + 1) =~= self.board().take(i as int).push(self.board()[i as int]));
            i += 1;
        }
        assert(self.board().take(self.board().len() as int) =~= self.board());
        out
    }

    /// Whether every dependency of `task` is completed or unknown.
    pub fn can_start(&self, task: &Task) -> (r: bool)
        requires
            self.wf(),
        ensures
            r == can_start_in(self.board(), task@),
    {
        let mut k: usize = 0;
        while k < task.blocked_by.len()
            invariant
                k <= task.blocked_by@.len(),
                self.wf(),
                forall|q: int| 0 <= q < k ==> match index_of(self.board(), #[trigger] task@.blocked_by[q]) {
                    Some(i) => self.board()[i].status == "completed"@,
                    None => true,
                },
            decreases task.blocked_by@.len() - k,
        {
            let dep = &task.blocked_by[k];
            assert(task@.blocked_by[k as int] == dep@);
            let (i, found) = self.locate(dep.as_str());
            if found {
                proof {
                    self.lemma_index(i as int);
                }
                if !str_eq(self.tasks[i].status.as_str(), "completed") {
                    return false;
                }
            }
            k += 1;
        }
        true
    }

    /// Stores a task under its id, keeping the id order (a task with the same
    /// id is replaced).
    pub fn put(&mut self, task: Task)
        requires
            old(self).wf(),
        ensures
            final(self).wf(),
            match index_of(old(self).board(), task@.id) {
                Some(i) => final(self).board() == old(self).board().update(i, task@),
                None => exists|p: int|
                    0 <= p <= old(self).board().len() && final(self).board() == old(self).board().insert(p, task@),
            },
    {
        let ghost tv = task@;
        let (i, found) = self.locate(task.id.as_str());
        if found {
            proof {
                self.lemma_index(i as int);
            }
            self.tasks.set(i, task);
            assert(self.board() =~= old(self).board().update(i as int, tv));
        } else {
            self.tasks.insert(i, task);
            assert(self.board() =~= old(self).board().insert(i as int, tv));
            proof {
                let b = self.board();
                assert forall|x: int, y: int| 0 <= x < y < b.len() implies seq_lt(b[x].id, b[y].id) by {
                    let o = old(self).board();
                    if y < i {
                        assert(b[x] == o[x] && b[y] == o[y]);
                    } else if y == i {
                        assert(b[x] == o[x]);
                    } else if x == i {
                        assert(b[y] == o[y - 1]);
                    } else if x < i {
                        assert(b[x] == o[x] && b[y] == o[y - 1]);
                    } else {
                        assert(b[x] == o[x - 1] && b[y] == o[y - 1]);
                    }
                }
            }
        }
    }

    /// Creates a pending task under the given id (replacing one with that id)
    /// and returns it.
    pub fn create_with_id(&mut self, id: String, subject: &str, description: &str, blocked_by: Vec<String>) -> (r: Task)
        requires
            old(self).wf(),
        ensures
            final(self).wf(),
            r@ == (TaskView {
                id: id@,
                subject: subject@,
                description: description@,
                status: "pending"@,
                owner: None,
                blocked_by: views(blocked_by@),
                worktree: None,
            }),
            index_of(final(self).board(), id@) matches Some(i) && final(self).board()[i] == r@,
    {
        let t = Task {
            id,
            subject: owned(subject),
            description: owned(description),
            status: owned("pending"),
            owner: None,
            blocked_by,
            worktree: None,
        };
        let out = t.duplicate();
        let ghost tv = t@;
        self.put(t);
        proof {
            let b = self.board();
            let k = match index_of(old(self).board(), tv.id) {
                Some(i) => i,
                None => choose|p: int| 0 <= p <= old(self).board().len() && b == old(self).board().insert(p, tv),
            };
            assert(b[k] == tv);
            self.lemma_index(k);
        }
        out
    }

    /// Creates a pending task under a fresh random id `t-<32 hex digits>`.
    pub fn create(&mut self, subject: &str, description: &str, blocked_by: Vec<String>) -> (r: Task)
        requires
            old(self).wf(),
        ensures
            final(self).wf(),
            r@.status == "pending"@,
            r@.owner is None,
            r@.worktree is None,
            r@.subject == subject@,
            r@.description == description@,
            r@.blocked_by == views(blocked_by@),
            index_of(final(self).board(), r@.id) matches Some(i) && final(self).board()[i] == r@,
    {
        let mut id = owned("t-");
        let hex = random_hex_id();
        append(&mut id, hex.as_str());
        self.create_with_id(id, subject, description, blocked_by)
    }

    /// Claims task `id` for `owner`: it must exist, be pending, have no owner
    /// and have all its dependencies done; it then is in progress, owned by
    /// `owner`.
    pub fn claim(&mut self, id: &str, owner: &str) -> (r: Result<Task, String>)
        requires
            old(self).wf(),
        ensures
            final(self).wf(),
            match claim_error(old(self).board(), id@) {
                Some(e) => (r matches Err(m) && m@ == e) && final(self).board() == old(self).board(),
                None => {
                    let i = index_of(old(self).board(), id@)->0;
                    &&& r matches Ok(t) && t@ == claimed(old(self).board()[i], owner@)
                    &&& final(self).board() == old(self).board().update(i, claimed(old(self).board()[i], owner@))
                },
            },
    {
        let (i, found) = self.locate(id);
        if !found {
            return Err(owned("任务不存在"));
        }
        proof {
            self.lemma_index(i as int);
        }
        let t = &self.tasks[i];
        if !str_eq(t.status.as_str(), "pending") {
            let mut m = owned("任务状态为 ");
            append(&mut m, t.status.as_str());
            append(&mut m, "，无法认领");
            return Err(m);
        }
        if t.owner.is_some() {
            return Err(owned("任务已被认领"));
        }
        if !self.can_start(t) {
            return Err(owned("上游依赖未完成，暂不可认领"));
        }
        let mut nt = t.duplicate();
        nt.owner = Some(owned(owner));
        nt.status = owned("in_progress");
        let out = nt.duplicate();
        let ghost nv = nt@;
        self.tasks.set(i, nt);
        assert(self.board() =~= old(self).board().update(i as int, nv));
        assert(self.board()[i as int].id == old(self).board()[i as int].id);
        Ok(out)
    }

    /// Marks task `id` completed and returns the tasks this unlocks: pending
    /// tasks that depend on it and whose dependencies are now all done, in id
    /// order.
    pub fn complete(&mut self, id: &str) -> (r: Result<Vec<Task>, String>)
        requires
            old(self).wf(),
        ensures
            final(self).wf(),
            match index_of(old(self).board(), id@) {
                None => (r matches Err(m) && m@ == "任务不存在"@) && final(self).board() == old(self).board(),
                Some(i) => {
                    &&& final(self).board() == old(self).board().update(
                        i,
                        TaskView { status: "completed"@, ..old(self).board()[i] },
                    )
                    &&& r matches Ok(v) && tasks_view(v@) == unlocked_by(final(self).board(), id@)
                },
            },
    {
        let (i, found) = self.locate(id);
        if !found {
            return Err(owned("任务不存在"));
        }
        proof {
            self.lemma_index(i as int);
        }
        let mut nt = self.tasks[i].duplicate();
        nt.status = owned("completed");
        let ghost nv = nt@;
        self.tasks.set(i, nt);
        assert(self.board() =~= old(self).board().update(i as int, nv));
        let ghost after = self.board();
        let mut out: Vec<Task> = Vec::new();
        let mut k: usize = 0;
        while k < self.tasks.len()
            invariant
                k <= self.tasks@.len(),
                self.wf(),
                after == self.board(),
                tasks_view(out@) == after.take(k as int).filter(unlocks(after, id@)),
            decreases self.tasks@.len() - k,
        {
            let t = &self.tasks[k];
            let mut depends = false;
            let mut q: usize = 0;
            while q < t.blocked_by.len()
                invariant
                    q <= t.blocked_by@.len(),
                    depends == exists|w: int| 0 <= w < q && t@.blocked_by[w] == id@,
                decreases t.blocked_by@.len() - q,
            {
                assert(t@.blocked_by[q as int] == t.blocked_by@[q as int]@);
                if str_eq(t.blocked_by[q].as_str(), id) {
                    depends = true;
                }
                q += 1;
            }
            let ghost prev = out@;
            let keep = str_eq(t.status.as_str(), "pending") && depends && self.can_start(t);
            if keep {
                out.push(t.duplicate());
                assert(tasks_view(out@) =~= tasks_view(prev).push(after[k as int]));
            }
            proof {
                assert(after[k as int] == t@);
                assert(after.take(k + 1).drop_last() =~= after.take(k as int));
                assert(after.take(k + 1).last() == after[k as int]);
                if depends {
                    let w = choose|w: int| 0 <= w < q && t@.blocked_by[w] == id@;
                    assert(t@.blocked_by.contains(id@));
                } else {
                    if t@.blocked_by.contains(id@) {
                        let w = choose|w: int| 0 <= w < t@.blocked_by.len() && t@.blocked_by[w] == id@;
                        assert(false);
                    }
                }
                assert(keep == unlocks(after, id@)(after[k as int]));
                reveal(Seq::filter);
            }
            k += 1;
        }
        assert(after.take(after.len() as int) =~= after);
        Ok(out)
    }

    /// Records the worktree bound to task `id`.
    pub fn bind_worktree(&mut self, id: &str, worktree: &str) -> (r: Result<(), String>)
        requires
            old(self).wf(),
        ensures
            final(self).wf(),
            match index_of(old(self).board(), id@) {
                None => (r matches Err(m) && m@ == "任务不存在"@) && final(self).board() == old(self).board(),
                Some(i) => r is Ok && final(self).board() == old(self).board().update(
                    i,
                    TaskView { worktree: Some(worktree@), ..old(self).board()[i] },
                ),
            },
    {
        let (i, found) = self.locate(id);
        if !found {
            return Err(owned("任务不存在"));
        }
        proof {
            self.lemma_index(i as int);
        }
        let mut nt = self.tasks[i].duplicate();
        nt.worktree = Some(owned(worktree));
        let ghost nv = nt@;
        self.tasks.set(i, nt);
        assert(self.board() =~= old(self).board().update(i as int, nv));
        Ok(())
    }

    /// The claimable tasks (pending, without owner, dependencies done), in id
    /// order.
    pub fn claimable(&self) -> (r: Vec<Task>)
        requires
            self.wf(),
        ensures
            tasks_view(r@) == self.board().filter(claimable_pred(self.board())),
    {
        let ghost b = self.board();
        let mut out: Vec<Task> = Vec::new();
        let mut k: usize = 0;
        while k < self.tasks.len()
            invariant
                k <= self.tasks@.len(),
                self.wf(),
                b == self.board(),
                tasks_view(out@) == b.take(k as int).filter(claimable_pred(b)),
            decreases self.tasks@.len() - k,
        {
            let t = &self.tasks[k];
            let keep = str_eq(t.status.as_str(), "pending") && t.owner.is_none() && self.can_start(t);
            let ghost prev = out@;
            if keep {
                out.push(t.duplicate());
                assert(tasks_view(out@) =~= tasks_view(prev).push(b[k as int]));
            }
            proof {
                assert(b[k as int] == t@);
                assert(b.take(k + 1).drop_last() =~= b.take(k as int));
                assert(b.take(k + 1).last() == b[k as int]);
                assert(keep == claimable_pred(b)(b[k as int]));
                reveal(Seq::filter);
            }
            k += 1;
        }
        assert(b.take(b.len() as int) =~= b);
        out
    }
}

/// In a board sorted by id, each task is found at its own position.
pub proof fn lemma_index_of_sorted(s: Seq<TaskView>, i: int)
    requires
        sorted_ids(s),
        0 <= i < s.len(),
    ensures
        index_of(s, s[i].id) == Some(i),
{
    let id = s[i].id;
    assert(s[i].id == id);
    let c = choose|k: int| 0 <= k < s.len() && (#[trigger] s[k]).id == id;
    if c != i {
        if c < i {
            lemma_seq_lt_total(s[c].id, id);
        } else {
            lemma_seq_lt_total(id, s[c].id);
        }
    }
}

/// Every task that `claimable` lists can be claimed.
pub proof fn law_claimable_can_be_claimed(b: Seq<TaskView>, k: int)
    requires
        sorted_ids(b),
        0 <= k < b.len(),
        claimable_pred(b)(b[k]),
    ensures
        claim_error(b, b[k].id) is None,
{
    lemma_index_of_sorted(b, k);
}

/// A task is claimed at most once: after a successful claim, any further
/// claim of it fails, and it keeps its first owner.
pub proof fn law_claim_once(b: Seq<TaskView>, id: Seq<char>, first: Seq<char>, second: Seq<char>)
    requires
        sorted_ids(b),
        claim_error(b, id) is None,
    ensures
        ({
            let i = index_of(b, id)->0;
            let b2 = b.update(i, claimed(b[i], first));
            &&& claim_error(b2, id) is Some
            &&& b2[i].owner == Some(first)
        }),
{
    let i = index_of(b, id)->0;
    let b2 = b.update(i, claimed(b[i], first));
    assert(b[i].id == id);
    assert(sorted_ids(b2)) by {
        assert forall|x: int, y: int| 0 <= x < y < b2.len() implies seq_lt(b2[x].id, b2[y].id) by {
            assert(b2[x].id == b[x].id);
            assert(b2[y].id == b[y].id);
        }
    }
    assert(b2[i].id == id);
    lemma_index_of_sorted(b2, i);
    reveal_strlit("pending");
    reveal_strlit("in_progress");
    assert(b2[i].status == "in_progress"@);
    assert("in_progress"@.len() != "pending"@.len());
    assert(b2[i].status != "pending"@);
}

/// Completing a task unlocks only pending tasks that depend on it and whose
/// dependencies are all done afterwards.
pub proof fn law_unlocked_are_startable(after: Seq<TaskView>, id: Seq<char>, k: int)
    requires
        0 <= k < unlocked_by(after, id).len(),
    ensures
        unlocked_by(after, id)[k].status == "pending"@,
        unlocked_by(after, id)[k].blocked_by.contains(id),
        can_start_in(after, unlocked_by(after, id)[k]),
{
    after.lemma_filter_pred(unlocks(after, id), k);
}

} // verus!
