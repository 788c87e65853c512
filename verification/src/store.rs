//! The ledger of tasks and of their logs.

use crate::rank::{
    key_views, lemma_ranked_rearranges, lemma_ranking, lemma_ranking_range, positions, rank,
    ranked, ranking, ranks_before, slot,
};
use crate::text::{chars_occur, chars_of, occurs_in, precedes};
use vstd::prelude::*;

verus! {

/// Where a task stands: dispatched and not yet known to have succeeded, or
/// completed. A task whose dispatch fails stays `Pending`.
#[derive(Debug, Clone, Copy, PartialEq, Eq, Structural)]
pub enum TaskStatus {
    Pending,
    Completed,
}

impl TaskStatus {
    /// The number under which a status is stored: 0 for `Pending`, 1 for
    /// `Completed`.
    pub open spec fn code(self) -> int {
        match self {
            TaskStatus::Pending => 0,
            TaskStatus::Completed => 1,
        }
    }

    /// The status that a stored number stands for: `Completed` for 1,
    /// `Pending` for any other number.
    pub open spec fn of_code(code: int) -> TaskStatus {
        if code == 1 {
            TaskStatus::Completed
        } else {
            TaskStatus::Pending
        }
    }

    /// The status that a stored number stands for.
    pub fn from_code(code: i32) -> (s: TaskStatus)
        ensures
            s == TaskStatus::of_code(code as int),
    {
        if code == 1 {
            TaskStatus::Completed
        } else {
            TaskStatus::Pending
        }
    }

    /// The number under which this status is stored.
    pub fn to_code(self) -> (c: i32)
        ensures
            c == self.code(),
    {
        match self {
            TaskStatus::Pending => 0,
            TaskStatus::Completed => 1,
        }
    }
}

/// One attempted unit of work.
#[derive(Debug, PartialEq)]
pub struct Task {
    pub task_id: String,
    pub run_time: String,
    pub sku: String,
    pub module: String,
    pub create_time: String,
    pub status: TaskStatus,
}

/// The model of a [`Task`].
pub struct TaskView {
    pub task_id: Seq<char>,
    pub run_time: Seq<char>,
    pub sku: Seq<char>,
    pub module: Seq<char>,
    pub create_time: Seq<char>,
    pub status: TaskStatus,
}

impl View for Task {
    type V = TaskView;

    open spec fn view(&self) -> TaskView {
        TaskView {
            task_id: self.task_id@,
            run_time: self.run_time@,
            sku: self.sku@,
            module: self.module@,
            create_time: self.create_time@,
            status: self.status,
        }
    }
}

/// One timestamped message about a task's execution.
#[derive(Debug, PartialEq)]
pub struct TaskLog {
    pub task_id: String,
    pub log_time: String,
    pub message: String,
}

/// The model of a [`TaskLog`].
pub struct TaskLogView {
    pub task_id: Seq<char>,
    pub log_time: Seq<char>,
    pub message: Seq<char>,
}

impl View for TaskLog {
    type V = TaskLogView;

    open spec fn view(&self) -> TaskLogView {
        TaskLogView { task_id: self.task_id@, log_time: self.log_time@, message: self.message@ }
    }
}

impl Task {
    /// A copy of the task.
    pub fn duplicate(&self) -> (r: Task)
        ensures
            r@ == self@,
    {
        Task {
            task_id: self.task_id.clone(),
            run_time: self.run_time.clone(),
            sku: self.sku.clone(),
            module: self.module.clone(),
            create_time: self.create_time.clone(),
            status: self.status,
        }
    }
}

impl TaskLog {
    /// A copy of the log row.
    pub fn duplicate(&self) -> (r: TaskLog)
        ensures
            r@ == self@,
    {
        TaskLog {
            task_id: self.task_id.clone(),
            log_time: self.log_time.clone(),
            message: self.message.clone(),
        }
    }
}

/// The models of a list of tasks.
pub open spec fn task_views(tasks: Seq<Task>) -> Seq<TaskView> {
    tasks.map_values(|t: Task| t@)
}

/// The models of a list of log rows.
pub open spec fn log_views(logs: Seq<TaskLog>) -> Seq<TaskLogView> {
    logs.map_values(|l: TaskLog| l@)
}

/// The ledger: every task row and every log row, in the order in which
/// they were written. Rows are added and tasks are marked complete; nothing
/// is ever removed.
#[derive(Debug, PartialEq)]
pub struct TaskStore {
    pub tasks: Vec<Task>,
    pub logs: Vec<TaskLog>,
}

/// The model of a [`TaskStore`].
pub struct TaskStoreView {
    pub tasks: Seq<TaskView>,
    pub logs: Seq<TaskLogView>,
}

impl View for TaskStore {
    type V = TaskStoreView;

    open spec fn view(&self) -> TaskStoreView {
        TaskStoreView { tasks: task_views(self.tasks@), logs: log_views(self.logs@) }
    }
}

/// Whether a field passes a filter: there is no filter, or the filter
/// occurs in the field, letter for letter.
pub open spec fn passes(filter: Option<Seq<char>>, field: Seq<char>) -> bool {
    match filter {
        Some(wanted) => occurs_in(wanted, field),
        None => true,
    }
}

/// Whether a task is wanted under the two filters.
pub open spec fn wanted(task: TaskView, sku: Option<Seq<char>>, module: Option<Seq<char>>) -> bool {
    passes(sku, task.sku) && passes(module, task.module)
}

/// The tasks wanted under the two filters, in the order in which they stand.
pub open spec fn wanted_tasks(
    tasks: Seq<TaskView>,
    sku: Option<Seq<char>>,
    module: Option<Seq<char>>,
) -> Seq<TaskView>
    decreases tasks.len(),
{
    if tasks.len() == 0 {
        Seq::empty()
    } else {
        let before = wanted_tasks(tasks.drop_last(), sku, module);
        if wanted(tasks.last(), sku, module) {
            before.push(tasks.last())
        } else {
            before
        }
    }
}

/// The log rows of one task, in the order in which they stand.
pub open spec fn logs_of(logs: Seq<TaskLogView>, task_id: Seq<char>) -> Seq<TaskLogView>
    decreases logs.len(),
{
    if logs.len() == 0 {
        Seq::empty()
    } else {
        let before = logs_of(logs.drop_last(), task_id);
        if logs.last().task_id == task_id {
            before.push(logs.last())
        } else {
            before
        }
    }
}

/// The listing of the tasks: those wanted under the filters, the latest
/// run first.
pub open spec fn listed_tasks(
    tasks: Seq<TaskView>,
    sku: Option<Seq<char>>,
    module: Option<Seq<char>>,
) -> Seq<TaskView> {
    let rows = wanted_tasks(tasks, sku, module);
    ranked(rows, rows.map_values(|t: TaskView| t.run_time), true)
}

/// The listing of the logs of one task: the earliest first.
pub open spec fn listed_logs(logs: Seq<TaskLogView>, task_id: Seq<char>) -> Seq<TaskLogView> {
    let rows = logs_of(logs, task_id);
    ranked(rows, rows.map_values(|l: TaskLogView| l.log_time), false)
}

/// The tasks after one of them is marked complete: every task with that
/// identifier is completed, every other is as it was.
pub open spec fn marked_complete(tasks: Seq<TaskView>, task_id: Seq<char>) -> Seq<TaskView> {
    tasks.map_values(
        |t: TaskView|
            if t.task_id == task_id {
                TaskView { status: TaskStatus::Completed, ..t }
            } else {
                t
            },
    )
}

/// The text of a filter, where there is one.
pub open spec fn filter_text(filter: Option<&str>) -> Option<Seq<char>> {
    match filter {
        Some(s) => Some(s@),
        None => None,
    }
}

/// The characters of a filter, where there is one.
fn filter_chars(filter: Option<&str>) -> (r: Option<Vec<char>>)
    ensures
        match r {
            Some(cs) => filter_text(filter) == Some(cs@),
            None => filter_text(filter) is None,
        },
{
    match filter {
        Some(s) => Some(chars_of(s)),
        None => None,
    }
}

/// Whether a field passes a filter.
fn field_passes(filter: &Option<Vec<char>>, field: &str) -> (r: bool)
    ensures
        r == passes(
            match filter {
                Some(cs) => Some(cs@),
                None => None,
            },
            field@,
        ),
{
    match filter {
        Some(wanted) => {
            let cs = chars_of(field);
            chars_occur(wanted, &cs)
        },
        None => true,
    }
}

impl TaskStore {
    /// A ledger without rows.
    pub fn new() -> (store: TaskStore)
        ensures
            store@.tasks.len() == 0,
            store@.logs.len() == 0,
    {
        TaskStore { tasks: Vec::new(), logs: Vec::new() }
    }

    /// The ledger that holds the given rows.
    pub fn from_rows(tasks: Vec<Task>, logs: Vec<TaskLog>) -> (store: TaskStore)
        ensures
            store@.tasks == task_views(tasks@),
            store@.logs == log_views(logs@),
    {
        TaskStore { tasks, logs }
    }

    /// Writes a task row.
    pub fn insert_task(&mut self, task: Task)
        ensures
            final(self)@.tasks == old(self)@.tasks.push(task@),
            final(self)@.logs == old(self)@.logs,
    {
        self.tasks.push(task);
        proof {
            assert(task_views(self.tasks@) =~= task_views(old(self).tasks@).push(task@));
        }
    }

    /// Writes a log row.
    pub fn append_log(&mut self, log: TaskLog)
        ensures
            final(self)@.logs == old(self)@.logs.push(log@),
            final(self)@.tasks == old(self)@.tasks,
    {
        self.logs.push(log);
        proof {
            assert(log_views(self.logs@) =~= log_views(old(self).logs@).push(log@));
        }
    }

    /// Marks the task with the given identifier complete. Without such a
    /// task nothing changes.
    pub fn mark_task_complete(&mut self, task_id: &str)
        ensures
            final(self)@.tasks == marked_complete(old(self)@.tasks, task_id@),
            final(self)@.logs == old(self)@.logs,
    {
        let ghost before = task_views(self.tasks@);
        let mut i: usize = 0;
        while i < self.tasks.len()
            invariant
                i <= self.tasks.len(),
                self.tasks@.len() == before.len(),
                self.logs == old(self).logs,
                forall|k: int|
                    0 <= k < i ==> #[trigger] self.tasks@[k]@ == marked_complete(before, task_id@)[k],
                forall|k: int| i <= k < before.len() ==> #[trigger] self.tasks@[k]@ == before[k],
            decreases self.tasks.len() - i,
        {
            proof {
                assert(self.tasks@[i as int]@ == before[i as int]);
            }
            let ghost entered = self.tasks@;
            if self.tasks[i].task_id.as_str().eq(task_id) {
                let task = &self.tasks[i];
                let done = Task {
                    task_id: task.task_id.clone(),
                    run_time: task.run_time.clone(),
                    sku: task.sku.clone(),
                    module: task.module.clone(),
                    create_time: task.create_time.clone(),
                    status: TaskStatus::Completed,
                };
                self.tasks.set(i, done);
            }
            proof {
                assert(self.tasks@[i as int]@ == marked_complete(before, task_id@)[i as int]);
                assert forall|k: int| 0 <= k < i implies #[trigger] self.tasks@[k]@
                    == marked_complete(before, task_id@)[k] by {
                    assert(self.tasks@[k] == entered[k]);
                }
                assert forall|k: int| i < k < before.len() implies #[trigger] self.tasks@[k]@
                    == before[k] by {
                    assert(self.tasks@[k] == entered[k]);
                }
            }
            i += 1;
        }
        proof {
            assert(task_views(self.tasks@) =~= marked_complete(before, task_id@));
        }
    }

    /// Lists the tasks wanted under the filters, the latest run first; see
    /// [`listed_tasks`].
    pub fn list_tasks(&self, sku: Option<&str>, module: Option<&str>) -> (r: Vec<Task>)
        ensures
            task_views(r@) == listed_tasks(self@.tasks, filter_text(sku), filter_text(module)),
    {
        let sku_chars = filter_chars(sku);
        let module_chars = filter_chars(module);
        let ghost all = task_views(self.tasks@);
        let ghost fs = filter_text(sku);
        let ghost fm = filter_text(module);
        let mut rows: Vec<&Task> = Vec::new();
        let mut keys: Vec<Vec<char>> = Vec::new();
        let mut i: usize = 0;
        while i < self.tasks.len()
            invariant
                i <= self.tasks.len(),
                all == task_views(self.tasks@),
                fs == filter_text(sku),
                fm == filter_text(module),
                match sku_chars {
                    Some(cs) => fs == Some(cs@),
                    None => fs is None,
                },
                match module_chars {
                    Some(cs) => fm == Some(cs@),
                    None => fm is None,
                },
                rows@.len() == keys@.len(),
                rows@.map_values(|t: &Task| t@) == wanted_tasks(all.take(i as int), fs, fm),
                key_views(keys@) == rows@.map_values(|t: &Task| t@.run_time),
            decreases self.tasks.len() - i,
        {
            let task = &self.tasks[i];
            proof {
                assert(all.take(i as int + 1).drop_last() =~= all.take(i as int));
                assert(all.take(i as int + 1).last() == task@);
            }
            if field_passes(&sku_chars, task.sku.as_str()) && field_passes(
                &module_chars,
                task.module.as_str(),
            ) {
                let ghost rows_before = rows@.map_values(|t: &Task| t@);
                let ghost keys_before = key_views(keys@);
                rows.push(task);
                keys.push(chars_of(task.run_time.as_str()));
                proof {
                    assert(rows@.map_values(|t: &Task| t@) =~= rows_before.push(task@));
                    assert(key_views(keys@) =~= keys_before.push(task@.run_time));
                    assert(key_views(keys@) =~= rows@.map_values(|t: &Task| t@.run_time));
                }
            }
            i += 1;
        }
        proof {
            assert(all.take(all.len() as int) =~= all);
        }
        let order = rank(&keys, true);
        let ghost wanted_rows = rows@.map_values(|t: &Task| t@);
        let ghost texts = wanted_rows.map_values(|t: TaskView| t.run_time);
        proof {
            assert(key_views(keys@) =~= texts);
            lemma_ranking_range(texts, wanted_rows.len(), true);
        }
        let mut out: Vec<Task> = Vec::new();
        let mut k: usize = 0;
        while k < order.len()
            invariant
                k <= order.len(),
                order@.len() == rows@.len(),
                wanted_rows == rows@.map_values(|t: &Task| t@),
                forall|j: int| 0 <= j < order@.len() ==> order@[j] < rows@.len(),
                positions(order@) == ranking(texts, wanted_rows.len(), true),
                task_views(out@) == ranked(wanted_rows, texts, true).take(k as int),
            decreases order.len() - k,
        {
            let row = rows[order[k]];
            let ghost before = task_views(out@);
            out.push(row.duplicate());
            proof {
                let whole = ranked(wanted_rows, texts, true);
                assert(positions(order@)[k as int] == order@[k as int] as int);
                assert(whole[k as int] == wanted_rows[order@[k as int] as int]);
                assert(task_views(out@) =~= before.push(row@));
                assert(whole.take(k as int + 1) =~= whole.take(k as int).push(whole[k as int]));
            }
            k += 1;
        }
        proof {
            let whole = ranked(wanted_rows, texts, true);
            assert(whole.take(whole.len() as int) =~= whole);
        }
        out
    }

    /// Lists the log rows of one task, the earliest first; see
    /// [`listed_logs`].
    pub fn list_logs(&self, task_id: &str) -> (r: Vec<TaskLog>)
        ensures
            log_views(r@) == listed_logs(self@.logs, task_id@),
    {
        let ghost all = log_views(self.logs@);
        let mut rows: Vec<&TaskLog> = Vec::new();
        let mut keys: Vec<Vec<char>> = Vec::new();
        let mut i: usize = 0;
        while i < self.logs.len()
            invariant
                i <= self.logs.len(),
                all == log_views(self.logs@),
                rows@.len() == keys@.len(),
                rows@.map_values(|l: &TaskLog| l@) == logs_of(all.take(i as int), task_id@),
                key_views(keys@) == rows@.map_values(|l: &TaskLog| l@.log_time),
            decreases self.logs.len() - i,
        {
            let log = &self.logs[i];
            proof {
                assert(all.take(i as int + 1).drop_last() =~= all.take(i as int));
                assert(all.take(i as int + 1).last() == log@);
            }
            if log.task_id.as_str().eq(task_id) {
                let ghost rows_before = rows@.map_values(|l: &TaskLog| l@);
                let ghost keys_before = key_views(keys@);
                rows.push(log);
                keys.push(chars_of(log.log_time.as_str()));
                proof {
                    assert(rows@.map_values(|l: &TaskLog| l@) =~= rows_before.push(log@));
                    assert(key_views(keys@) =~= keys_before.push(log@.log_time));
                    assert(key_views(keys@) =~= rows@.map_values(|l: &TaskLog| l@.log_time));
                }
            }
            i += 1;
        }
        proof {
            assert(all.take(all.len() as int) =~= all);
        }
        let order = rank(&keys, false);
        let ghost own_rows = rows@.map_values(|l: &TaskLog| l@);
        let ghost texts = own_rows.map_values(|l: TaskLogView| l.log_time);
        proof {
            assert(key_views(keys@) =~= texts);
            lemma_ranking_range(texts, own_rows.len(), false);
        }
        let mut out: Vec<TaskLog> = Vec::new();
        let mut k: usize = 0;
        while k < order.len()
            invariant
                k <= order.len(),
                order@.len() == rows@.len(),
                own_rows == rows@.map_values(|l: &TaskLog| l@),
                forall|j: int| 0 <= j < order@.len() ==> order@[j] < rows@.len(),
                positions(order@) == ranking(texts, own_rows.len(), false),
                log_views(out@) == ranked(own_rows, texts, false).take(k as int),
            decreases order.len() - k,
        {
            let row = rows[order[k]];
            let ghost before = log_views(out@);
            out.push(row.duplicate());
            proof {
                let whole = ranked(own_rows, texts, false);
                assert(positions(order@)[k as int] == order@[k as int] as int);
                assert(whole[k as int] == own_rows[order@[k as int] as int]);
                assert(log_views(out@) =~= before.push(row@));
                assert(whole.take(k as int + 1) =~= whole.take(k as int).push(whole[k as int]));
            }
            k += 1;
        }
        proof {
            let whole = ranked(own_rows, texts, false);
            assert(whole.take(whole.len() as int) =~= whole);
        }
        out
    }
}

/// The wanted tasks are those of the tasks that pass both filters; without
/// filters they are all the tasks.
pub proof fn lemma_wanted_tasks(
    tasks: Seq<TaskView>,
    sku: Option<Seq<char>>,
    module: Option<Seq<char>>,
)
    ensures
        forall|t: TaskView|
            #[trigger] wanted_tasks(tasks, sku, module).contains(t) <==> tasks.contains(t)
                && wanted(t, sku, module),
        sku is None && module is None ==> wanted_tasks(tasks, sku, module) == tasks,
    decreases tasks.len(),
{
    let all = wanted_tasks(tasks, sku, module);
    if tasks.len() > 0 {
        let front = tasks.drop_last();
        let before = wanted_tasks(front, sku, module);
        lemma_wanted_tasks(front, sku, module);
        assert forall|t: TaskView| #[trigger] all.contains(t) <==> tasks.contains(t) && wanted(
            t,
            sku,
            module,
        ) by {
            if all.contains(t) {
                let i = choose|i: int| 0 <= i < all.len() && all[i] == t;
                if i < before.len() {
                    assert(before[i] == t);
                    assert(before.contains(t));
                    let j = choose|j: int| 0 <= j < front.len() && front[j] == t;
                    assert(tasks[j] == t);
                } else {
                    assert(tasks[tasks.len() - 1] == t);
                }
            }
            if tasks.contains(t) && wanted(t, sku, module) {
                let j = choose|j: int| 0 <= j < tasks.len() && tasks[j] == t;
                if j < front.len() {
                    assert(front[j] == t);
                    assert(front.contains(t));
                    assert(before.contains(t));
                    let i = choose|i: int| 0 <= i < before.len() && before[i] == t;
                    assert(all[i] == t);
                } else {
                    assert(all[all.len() - 1] == t);
                }
            }
        }
        if sku is None && module is None {
            assert(all =~= tasks);
        }
    } else {
        assert(all =~= tasks);
    }
}

/// What a listing of the tasks holds, and in which order.
///
/// It holds the tasks that stand in the ledger and pass both filters, and
/// no other; each as often as it stands in the ledger among those. Without
/// filters these are all the tasks. No task in the listing ran before a
/// task behind it.
pub proof fn law_task_listing(
    tasks: Seq<TaskView>,
    sku: Option<Seq<char>>,
    module: Option<Seq<char>>,
)
    ensures
        forall|t: TaskView|
            #[trigger] listed_tasks(tasks, sku, module).contains(t) <==> tasks.contains(t)
                && wanted(t, sku, module),
        listed_tasks(tasks, sku, module).to_multiset() == wanted_tasks(
            tasks,
            sku,
            module,
        ).to_multiset(),
        sku is None && module is None ==> listed_tasks(tasks, sku, module).to_multiset()
            == tasks.to_multiset(),
        forall|a: int, b: int|
            0 <= a < b < listed_tasks(tasks, sku, module).len() ==> !precedes(
                #[trigger] listed_tasks(tasks, sku, module)[a].run_time,
                #[trigger] listed_tasks(tasks, sku, module)[b].run_time,
            ),
{
    broadcast use vstd::seq_lib::group_to_multiset_ensures;

    let rows = wanted_tasks(tasks, sku, module);
    let keys = rows.map_values(|t: TaskView| t.run_time);
    let listing = listed_tasks(tasks, sku, module);
    lemma_wanted_tasks(tasks, sku, module);
    lemma_ranked_rearranges(rows, keys, true);
    lemma_ranking(keys, rows.len(), true);
    assert forall|t: TaskView| #[trigger] listing.contains(t) <==> tasks.contains(t) && wanted(
        t,
        sku,
        module,
    ) by {
        assert(listing.contains(t) <==> listing.to_multiset().count(t) > 0);
        assert(rows.contains(t) <==> rows.to_multiset().count(t) > 0);
    }
    assert forall|a: int, b: int| 0 <= a < b < listing.len() implies !precedes(
        #[trigger] listing[a].run_time,
        #[trigger] listing[b].run_time,
    ) by {
        let r = ranking(keys, rows.len(), true);
        assert(listing[a] == rows[r[a]]);
        assert(listing[b] == rows[r[b]]);
        assert(!ranks_before(keys[r[b]], keys[r[a]], true));
    }
}

/// A task that was just written is found by its own SKU, and alone where no
/// other task's SKU holds that SKU.
pub proof fn law_written_task_is_listed(tasks: Seq<TaskView>, task: TaskView)
    requires
        forall|i: int| 0 <= i < tasks.len() ==> !occurs_in(task.sku, #[trigger] tasks[i].sku),
    ensures
        listed_tasks(tasks.push(task), Some(task.sku), None) == seq![task],
{
    let sku = Some(task.sku);
    let module = None::<Seq<char>>;
    let after = tasks.push(task);
    let before = wanted_tasks(tasks, sku, module);
    lemma_wanted_tasks(tasks, sku, module);
    if before.len() > 0 {
        assert(before.contains(before[0]));
        let j = choose|j: int| 0 <= j < tasks.len() && tasks[j] == before[0];
        assert(!occurs_in(task.sku, tasks[j].sku));
    }
    assert(after.drop_last() =~= tasks);
    assert(task.sku.subrange(0, 0 + task.sku.len() as int) =~= task.sku);
    assert(crate::text::occurs_at(task.sku, task.sku, 0));
    let rows = wanted_tasks(after, sku, module);
    assert(rows =~= seq![task]);
    let keys = rows.map_values(|t: TaskView| t.run_time);
    assert(ranking(keys, 0, true) =~= Seq::<int>::empty());
    assert(slot(Seq::<int>::empty(), keys, keys[0], true) == 0);
    assert(ranking(keys, 1, true) =~= seq![0int]);
    assert(listed_tasks(after, sku, module) =~= seq![task]);
}

/// The log rows of one task are those of the rows that bear its
/// identifier.
pub proof fn lemma_logs_of(logs: Seq<TaskLogView>, task_id: Seq<char>)
    ensures
        forall|l: TaskLogView|
            #[trigger] logs_of(logs, task_id).contains(l) <==> logs.contains(l) && l.task_id
                == task_id,
    decreases logs.len(),
{
    let all = logs_of(logs, task_id);
    if logs.len() > 0 {
        let front = logs.drop_last();
        let before = logs_of(front, task_id);
        lemma_logs_of(front, task_id);
        assert forall|l: TaskLogView| #[trigger] all.contains(l) <==> logs.contains(l) && l.task_id
            == task_id by {
            if all.contains(l) {
                let i = choose|i: int| 0 <= i < all.len() && all[i] == l;
                if i < before.len() {
                    assert(before[i] == l);
                    assert(before.contains(l));
                    let j = choose|j: int| 0 <= j < front.len() && front[j] == l;
                    assert(logs[j] == l);
                } else {
                    assert(logs[logs.len() - 1] == l);
                }
            }
            if logs.contains(l) && l.task_id == task_id {
                let j = choose|j: int| 0 <= j < logs.len() && logs[j] == l;
                if j < front.len() {
                    assert(front[j] == l);
                    assert(front.contains(l));
                    assert(before.contains(l));
                    let i = choose|i: int| 0 <= i < before.len() && before[i] == l;
                    assert(all[i] == l);
                } else {
                    assert(all[all.len() - 1] == l);
                }
            }
        }
    }
}

/// What a listing of the logs of a task holds, and in which order.
///
/// It holds the log rows of that task and no other, each as often as it
/// stands in the ledger. No row in the listing is later than a row behind
/// it, and rows of the same time stand as they were written.
pub proof fn law_log_listing(logs: Seq<TaskLogView>, task_id: Seq<char>)
    ensures
        forall|l: TaskLogView|
            #[trigger] listed_logs(logs, task_id).contains(l) <==> logs.contains(l) && l.task_id
                == task_id,
        listed_logs(logs, task_id).to_multiset() == logs_of(logs, task_id).to_multiset(),
        forall|a: int, b: int|
            0 <= a < b < listed_logs(logs, task_id).len() ==> !precedes(
                #[trigger] listed_logs(logs, task_id)[b].log_time,
                #[trigger] listed_logs(logs, task_id)[a].log_time,
            ),
{
    broadcast use vstd::seq_lib::group_to_multiset_ensures;

    let rows = logs_of(logs, task_id);
    let keys = rows.map_values(|l: TaskLogView| l.log_time);
    let listing = listed_logs(logs, task_id);
    lemma_logs_of(logs, task_id);
    lemma_ranked_rearranges(rows, keys, false);
    lemma_ranking(keys, rows.len(), false);
    assert forall|l: TaskLogView| #[trigger] listing.contains(l) <==> logs.contains(l) && l.task_id
        == task_id by {
        assert(listing.contains(l) <==> listing.to_multiset().count(l) > 0);
        assert(rows.contains(l) <==> rows.to_multiset().count(l) > 0);
    }
    assert forall|a: int, b: int| 0 <= a < b < listing.len() implies !precedes(
        #[trigger] listing[b].log_time,
        #[trigger] listing[a].log_time,
    ) by {
        let r = ranking(keys, rows.len(), false);
        assert(listing[a] == rows[r[a]]);
        assert(listing[b] == rows[r[b]]);
        assert(!ranks_before(keys[r[b]], keys[r[a]], false));
    }
}

} // verus!
