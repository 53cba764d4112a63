//! The to-do list tool and the texts of the task-graph tools.

use vstd::prelude::*;

use crate::json::{json_array_items, json_str_field, spec_json_array_items, spec_json_str_field};
use crate::tasks::{tasks_view, Task, TaskView};
use crate::text::{append, join, join_strings, owned, str_eq, views};

verus! {

/// An entry of the to-do list.
#[derive(Debug, Clone)]
pub struct TodoItem {
    pub content: String,
    /// `pending`, `in_progress` or `completed`.
    pub status: String,
}

/// The value of a to-do entry: content and status.
pub open spec fn todo_view(t: TodoItem) -> (Seq<char>, Seq<char>) {
    (t.content@, t.status@)
}

/// The values of a to-do list.
pub open spec fn todos_view(v: Seq<TodoItem>) -> Seq<(Seq<char>, Seq<char>)> {
    v.map_values(|t: TodoItem| todo_view(t))
}

/// The entry an element of the `todos` array gives: none without a string
/// `content`; the status defaults to `pending`.
pub open spec fn todo_of(item: Seq<char>) -> Option<(Seq<char>, Seq<char>)> {
    match spec_json_str_field(item, "content"@) {
        None => None,
        Some(c) => Some(
            (
                c,
                match spec_json_str_field(item, "status"@) {
                    Some(s) => s,
                    None => "pending"@,
                },
            ),
        ),
    }
}

/// The entries that the elements of the `todos` array give, in order.
pub open spec fn todos_of(items: Seq<Seq<char>>) -> Seq<(Seq<char>, Seq<char>)>
    decreases items.len(),
{
    if items.len() == 0 {
        Seq::empty()
    } else {
        match todo_of(items.last()) {
            Some(t) => todos_of(items.drop_last()).push(t),
            None => todos_of(items.drop_last()),
        }
    }
}

/// The to-do list of a `todo_write` call, or the refusal of a call whose
/// `todos` is not an array.
pub fn todo_items(input: &str) -> (r: Result<Vec<TodoItem>, String>)
    ensures
        match spec_json_array_items(input@, "todos"@) {
            None => r matches Err(m) && m@ == "todos 必须是数组"@,
            Some(items) => r matches Ok(v) && todos_view(v@) == todos_of(items),
        },
{
    let items = match json_array_items(input, "todos") {
        Some(a) => a,
        None => return Err(owned("todos 必须是数组")),
    };
    let ghost iv = views(items@);
    assert(items@.map_values(|s: String| s@) =~= iv);
    let mut out: Vec<TodoItem> = Vec::new();
    let mut i: usize = 0;
    while i < items.len()
        invariant
            i <= items@.len(),
            iv == views(items@),
            todos_view(out@) == todos_of(iv.take(i as int)),
        decreases items@.len() - i,
    {
        proof {
            assert(iv.take(i + 1).drop_last() =~= iv.take(i as int));
            assert(iv.take(i + 1).last() == items@[i as int]@);
        }
        let item = items[i].as_str();
        match json_str_field(item, "content") {
            Some(c) => {
                let status = match json_str_field(item, "status") {
                    Some(s) => s,
                    None => owned("pending"),
                };
                let ghost prev = out@;
                out.push(TodoItem { content: c, status });
                assert(todos_view(out@) =~= todos_view(prev).push(todo_of(iv[i as int])->0));
            },
            None => {},
        }
        i += 1;
    }
    assert(iv.take(items@.len() as int) =~= iv);
    Ok(out)
}

/// The mark of a status: `[x]` done, `[~]` in progress, `[ ]` otherwise.
pub open spec fn status_mark(status: Seq<char>) -> Seq<char> {
    if status == "completed"@ {
        "[x]"@
    } else if status == "in_progress"@ {
        "[~]"@
    } else {
        "[ ]"@
    }
}

/// The line of a to-do entry.
pub open spec fn todo_line(t: (Seq<char>, Seq<char>)) -> Seq<char> {
    status_mark(t.1) + " "@ + t.0
}

/// What `todo_write` answers: the updated list, one marked line per entry.
pub fn todo_summary(items: &Vec<TodoItem>) -> (r: String)
    ensures
        r@ == "待办已更新:\n"@ + join(todos_view(items@).map_values(|t: (Seq<char>, Seq<char>)| todo_line(t)), "\n"@),
{
    let mut lines: Vec<String> = Vec::new();
    let mut i: usize = 0;
    while i < items.len()
        invariant
            i <= items@.len(),
            views(lines@) == todos_view(items@).take(i as int).map_values(
                |t: (Seq<char>, Seq<char>)| todo_line(t),
            ),
        decreases items@.len() - i,
    {
        let t = &items[i];
        let mut line = if str_eq(t.status.as_str(), "completed") {
            owned("[x]")
        } else if str_eq(t.status.as_str(), "in_progress") {
            owned("[~]")
        } else {
            owned("[ ]")
        };
        append(&mut line, " ");
        append(&mut line, t.content.as_str());
        let ghost prev = lines@;
        lines.push(line);
        assert(views(lines@) =~= views(prev).push(todo_line(todo_view(items@[i as int]))));
        assert(views(lines@) =~= todos_view(items@).take(i + 1).map_values(
            |t: (Seq<char>, Seq<char>)| todo_line(t),
        ));
        i += 1;
    }
    assert(todos_view(items@).take(items@.len() as int) =~= todos_view(items@));
    let body = join_strings(&lines, "\n");
    let mut s = owned("待办已更新:\n");
    append(&mut s, body.as_str());
    s
}

/// The line of a task in `task_list`: id, status, subject, owner, and its
/// dependencies.
pub open spec fn task_line(t: TaskView) -> Seq<char> {
    t.id + " ["@ + t.status + "] "@ + t.subject + match t.owner {
        Some(o) => " @"@ + o,
        None => Seq::empty(),
    } + if t.blocked_by.len() == 0 {
        Seq::empty()
    } else {
        " (依赖: "@ + join(t.blocked_by, ","@) + ")"@
    }
}

/// What `task_list` answers for the tasks of the graph.
pub fn task_list_text(tasks: &Vec<Task>) -> (r: String)
    ensures
        tasks@.len() == 0 ==> r@ == "(任务图为空)"@,
        tasks@.len() > 0 ==> r@ == join(tasks_view(tasks@).map_values(|t: TaskView| task_line(t)), "\n"@),
{
    if tasks.len() == 0 {
        return owned("(任务图为空)");
    }
    let mut lines: Vec<String> = Vec::new();
    let mut i: usize = 0;
    while i < tasks.len()
        invariant
            i <= tasks@.len(),
            views(lines@) == tasks_view(tasks@).take(i as int).map_values(|t: TaskView| task_line(t)),
        decreases tasks@.len() - i,
    {
        let t = &tasks[i];
        let mut line = owned(t.id.as_str());
        append(&mut line, " [");
        append(&mut line, t.status.as_str());
        append(&mut line, "] ");
        append(&mut line, t.subject.as_str());
        match &t.owner {
            Some(o) => {
                append(&mut line, " @");
                append(&mut line, o.as_str());
            },
            None => {},
        }
        if t.blocked_by.len() > 0 {
            append(&mut line, " (依赖: ");
            let deps = join_strings(&t.blocked_by, ",");
            append(&mut line, deps.as_str());
            append(&mut line, ")");
        }
        assert(t@ == tasks@[i as int]@);
        assert(line@ == task_line(t@));
        let ghost prev = lines@;
        lines.push(line);
        assert(views(lines@) =~= views(prev).push(task_line(tasks@[i as int]@)));
        assert(views(lines@) =~= tasks_view(tasks@).take(i + 1).map_values(|t: TaskView| task_line(t)));
        i += 1;
    }
    assert(tasks_view(tasks@).take(tasks@.len() as int) =~= tasks_view(tasks@));
    join_strings(&lines, "\n")
}

/// What `task_complete` answers: the task is done, and which tasks it
/// unlocked.
pub fn task_complete_text(id: &str, unlocked: &Vec<Task>) -> (r: String)
    ensures
        unlocked@.len() == 0 ==> r@ == "任务 "@ + id@ + " 已完成"@,
        unlocked@.len() > 0 ==> r@ == "任务 "@ + id@ + " 已完成"@ + "\n解锁了下游任务: "@ + join(
            tasks_view(unlocked@).map_values(|t: TaskView| t.id),
            ", "@,
        ),
{
    let mut s = owned("任务 ");
    append(&mut s, id);
    append(&mut s, " 已完成");
    if unlocked.len() > 0 {
        let mut ids: Vec<String> = Vec::new();
        let mut i: usize = 0;
        while i < unlocked.len()
            invariant
                i <= unlocked@.len(),
                views(ids@) == tasks_view(unlocked@).take(i as int).map_values(|t: TaskView| t.id),
            decreases unlocked@.len() - i,
        {
            let ghost prev = ids@;
            ids.push(unlocked[i].id.clone());
            assert(views(ids@) =~= views(prev).push(unlocked@[i as int]@.id));
            assert(views(ids@) =~= tasks_view(unlocked@).take(i + 1).map_values(|t: TaskView| t.id));
            i += 1;
        }
        assert(tasks_view(unlocked@).take(unlocked@.len() as int) =~= tasks_view(unlocked@));
        append(&mut s, "\n解锁了下游任务: ");
        let joined = join_strings(&ids, ", ");
        append(&mut s, joined.as_str());
    }
    s
}

} // verus!
