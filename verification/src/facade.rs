//! The read-only side of the ledger, shaped for presentation.

use crate::store::{
    filter_text, listed_logs, listed_tasks, log_views, task_views, TaskLogView, TaskStore,
    TaskView,
};
use crate::text::{chars_of, text_of};
use vstd::prelude::*;

verus! {

/// A task as it is shown.
#[derive(Debug, PartialEq)]
pub struct TaskRow {
    pub task_id: String,
    /// The time of the run, to the second, date and time parted by a blank.
    pub run_time: String,
    pub sku: String,
    pub module: String,
    /// 0 for a pending task, 1 for a completed one.
    pub status: i32,
}

/// The model of a [`TaskRow`].
pub struct TaskRowView {
    pub task_id: Seq<char>,
    pub run_time: Seq<char>,
    pub sku: Seq<char>,
    pub module: Seq<char>,
    pub status: int,
}

impl View for TaskRow {
    type V = TaskRowView;

    open spec fn view(&self) -> TaskRowView {
        TaskRowView {
            task_id: self.task_id@,
            run_time: self.run_time@,
            sku: self.sku@,
            module: self.module@,
            status: self.status as int,
        }
    }
}

/// A log row as it is shown.
#[derive(Debug, PartialEq)]
pub struct LogRow {
    pub log_time: String,
    pub message: String,
}

/// The model of a [`LogRow`].
pub struct LogRowView {
    pub log_time: Seq<char>,
    pub message: Seq<char>,
}

impl View for LogRow {
    type V = LogRowView;

    open spec fn view(&self) -> LogRowView {
        LogRowView { log_time: self.log_time@, message: self.message@ }
    }
}

/// A character of a time as it is shown: a blank for `T`.
pub open spec fn blanked(c: char) -> char {
    if c == 'T' {
        ' '
    } else {
        c
    }
}

/// A time as it is shown: its first nineteen characters, each `T` among
/// them replaced by a blank.
pub open spec fn shown_time(time: Seq<char>) -> Seq<char> {
    time.take(
        if time.len() < 19 {
            time.len() as int
        } else {
            19
        },
    ).map_values(|c: char| blanked(c))
}

/// A task as it is shown.
pub open spec fn task_row(task: TaskView) -> TaskRowView {
    TaskRowView {
        task_id: task.task_id,
        run_time: shown_time(task.run_time),
        sku: task.sku,
        module: task.module,
        status: task.status.code(),
    }
}

/// A log row as it is shown.
pub open spec fn log_row(log: TaskLogView) -> LogRowView {
    LogRowView { log_time: log.log_time, message: log.message }
}

/// Shapes a time for showing; see [`shown_time`].
pub fn show_time(time: &str) -> (r: String)
    ensures
        r@ == shown_time(time@),
{
    let cs = chars_of(time);
    let n: usize = if cs.len() < 19 {
        cs.len()
    } else {
        19
    };
    let mut out: Vec<char> = Vec::new();
    let mut i: usize = 0;
    while i < n
        invariant
            i <= n,
            n <= cs.len(),
            out@ == cs@.take(i as int).map_values(|c: char| blanked(c)),
        decreases n - i,
    {
        let c = cs[i];
        proof {
            assert(cs@.take(i as int + 1).map_values(|c: char| blanked(c)) =~= cs@.take(
                i as int,
            ).map_values(|c: char| blanked(c)).push(blanked(c)));
        }
        if c == 'T' {
            out.push(' ');
        } else {
            out.push(c);
        }
        i += 1;
    }
    text_of(&out)
}

/// The models of a list of task rows.
pub open spec fn task_row_views(rows: Seq<TaskRow>) -> Seq<TaskRowView> {
    rows.map_values(|r: TaskRow| r@)
}

/// The models of a list of log rows.
pub open spec fn log_row_views(rows: Seq<LogRow>) -> Seq<LogRowView> {
    rows.map_values(|r: LogRow| r@)
}

/// The tasks wanted under the filters, the latest run first, each as it is
/// shown.
pub fn get_task_list(store: &TaskStore, sku: Option<&str>, module: Option<&str>) -> (rows: Vec<
    TaskRow,
>)
    ensures
        task_row_views(rows@) == listed_tasks(
            store@.tasks,
            filter_text(sku),
            filter_text(module),
        ).map_values(|t: TaskView| task_row(t)),
{
    let tasks = store.list_tasks(sku, module);
    let ghost listing = task_views(tasks@);
    let ghost shape = |t: TaskView| task_row(t);
    let mut rows: Vec<TaskRow> = Vec::new();
    let mut i: usize = 0;
    while i < tasks.len()
        invariant
            i <= tasks.len(),
            listing == task_views(tasks@),
            shape == |t: TaskView| task_row(t),
            task_row_views(rows@) == listing.take(i as int).map_values(shape),
        decreases tasks.len() - i,
    {
        let task = &tasks[i];
        let row = TaskRow {
            task_id: task.task_id.clone(),
            run_time: show_time(task.run_time.as_str()),
            sku: task.sku.clone(),
            module: task.module.clone(),
            status: task.status.to_code(),
        };
        let ghost before = task_row_views(rows@);
        proof {
            assert(row@ == task_row(task@));
            assert(listing.take(i as int + 1).map_values(shape) =~= listing.take(
                i as int,
            ).map_values(shape).push(shape(listing[i as int])));
        }
        rows.push(row);
        proof {
            assert(task_row_views(rows@) =~= before.push(task_row(task@)));
        }
        i += 1;
    }
    proof {
        assert(listing.take(listing.len() as int) =~= listing);
    }
    rows
}

/// The log rows of one task, the earliest first, each as it is shown.
pub fn get_task_logs(store: &TaskStore, task_id: &str) -> (rows: Vec<LogRow>)
    ensures
        log_row_views(rows@) == listed_logs(store@.logs, task_id@).map_values(
            |l: TaskLogView| log_row(l),
        ),
{
    let logs = store.list_logs(task_id);
    let ghost listing = log_views(logs@);
    let ghost shape = |l: TaskLogView| log_row(l);
    let mut rows: Vec<LogRow> = Vec::new();
    let mut i: usize = 0;
    while i < logs.len()
        invariant
            i <= logs.len(),
            listing == log_views(logs@),
            shape == |l: TaskLogView| log_row(l),
            log_row_views(rows@) == listing.take(i as int).map_values(shape),
        decreases logs.len() - i,
    {
        let log = &logs[i];
        let row = LogRow { log_time: log.log_time.clone(), message: log.message.clone() };
        let ghost before = log_row_views(rows@);
        proof {
            assert(listing.take(i as int + 1).map_values(shape) =~= listing.take(
                i as int,
            ).map_values(shape).push(shape(listing[i as int])));
        }
        rows.push(row);
        proof {
            assert(log_row_views(rows@) =~= before.push(log_row(log@)));
        }
        i += 1;
    }
    proof {
        assert(listing.take(listing.len() as int) =~= listing);
    }
    rows
}

} // verus!
