//! What holds of a dispatch cycle, whatever is fetched and whatever the
//! worker answers.

use crate::action::{ActionView, EventView, ReportFlag};
use crate::dispatch::{advance, initial, next, task_of, DispatcherView, StampView, Waiting};
use crate::item::{item_of, listed_items, reports_failure, workable_item, PendingItemView};
use crate::json::JsonView;
use crate::reply::{entry_log, failure_log, is_error_reply, log_entries, reply_of, reply_script};
use crate::store::{marked_complete, TaskLogView, TaskStoreView};
use vstd::prelude::*;

verus! {

/// What the machine hands out while the events come in one after the
/// other, each with the stamp at hand when it comes.
pub open spec fn run(s: DispatcherView, inputs: Seq<(EventView, StampView)>) -> Seq<ActionView>
    decreases inputs.len(),
{
    if inputs.len() == 0 {
        Seq::empty()
    } else {
        let (after, action) = next(s, inputs[0].0, inputs[0].1);
        seq![action] + run(after, inputs.drop_first())
    }
}

/// The state of the machine after the events have come in.
pub open spec fn state_after(
    s: DispatcherView,
    inputs: Seq<(EventView, StampView)>,
) -> DispatcherView
    decreases inputs.len(),
{
    if inputs.len() == 0 {
        s
    } else {
        state_after(next(s, inputs[0].0, inputs[0].1).0, inputs.drop_first())
    }
}

/// Success reported once for each of the stamps.
pub open spec fn dones(stamps: Seq<StampView>) -> Seq<(EventView, StampView)> {
    stamps.map_values(|stamp: StampView| (EventView::Done, stamp))
}

impl Waiting {
    /// Whether the outstanding action is one that succeeds without an
    /// answer.
    pub open spec fn answers_done(self) -> bool {
        self is InsertTask || self is AppendLog || self is MarkComplete || self is Report
    }
}

impl ActionView {
    /// Whether the action is one of those that follow a worker's answer: a
    /// log row, the mark of completion, or a report.
    pub open spec fn follows_reply(self) -> bool {
        self is AppendLog || self is MarkComplete || self is Report
    }
}

/// A run over two lists of events is the run over the first, and then the
/// run over the second from where the first has left the machine.
pub proof fn lemma_run_append(
    s: DispatcherView,
    first: Seq<(EventView, StampView)>,
    second: Seq<(EventView, StampView)>,
)
    ensures
        run(s, first + second) == run(s, first) + run(state_after(s, first), second),
        state_after(s, first + second) == state_after(state_after(s, first), second),
    decreases first.len(),
{
    if first.len() == 0 {
        assert(first + second =~= second);
        assert(run(s, first) + run(s, second) =~= run(s, second));
    } else {
        let (after, action) = next(s, first[0].0, first[0].1);
        assert((first + second)[0] == first[0]);
        assert((first + second).drop_first() =~= first.drop_first() + second);
        lemma_run_append(after, first.drop_first(), second);
        assert(seq![action] + (run(after, first.drop_first()) + run(
            state_after(after, first.drop_first()),
            second,
        )) =~= (seq![action] + run(after, first.drop_first())) + run(
            state_after(after, first.drop_first()),
            second,
        ));
    }
}

/// A script is handed out as it stands: while each action succeeds, the
/// machine hands out the actions of the script in their order, and nothing
/// else; the item in hand, the entries to come and the count stay as they
/// are.
pub proof fn lemma_script_runs(s: DispatcherView, stamps: Seq<StampView>)
    requires
        s.waiting.answers_done(),
        stamps.len() == s.script.len(),
        forall|i: int| 0 <= i < s.script.len() ==> (#[trigger] s.script[i]).follows_reply(),
    ensures
        run(s, dones(stamps)) == s.script,
        state_after(s, dones(stamps)) == (DispatcherView {
            waiting: state_after(s, dones(stamps)).waiting,
            script: Seq::empty(),
            ..s
        }),
        state_after(s, dones(stamps)).waiting.answers_done(),
    decreases stamps.len(),
{
    let inputs = dones(stamps);
    if stamps.len() == 0 {
        assert(run(s, inputs) =~= s.script);
        assert(s.script =~= Seq::empty());
    } else {
        let (after, action) = next(s, inputs[0].0, inputs[0].1);
        assert(inputs[0] == (EventView::Done, stamps[0]));
        assert(action == s.script[0]);
        assert(action.follows_reply());
        assert(inputs.drop_first() =~= dones(stamps.drop_first()));
        assert forall|i: int| 0 <= i < after.script.len() implies (
        #[trigger] after.script[i]).follows_reply() by {
            assert(after.script[i] == s.script[i + 1]);
        }
        lemma_script_runs(after, stamps.drop_first());
        assert(seq![action] + after.script =~= s.script);
    }
}

/// The script for an answer that reports a failure: exactly one log row,
/// which says so, then the report `No`; the task is not marked complete.
pub proof fn law_failure_script(
    task_id: Seq<char>,
    row_id: Seq<char>,
    reply: JsonView,
    now: Seq<char>,
)
    requires
        is_error_reply(reply),
    ensures
        reply_script(task_id, row_id, reply, now) == seq![
            ActionView::AppendLog(failure_log(task_id, reply, now)),
            ActionView::Report(row_id, ReportFlag::No),
        ],
        forall|i: int|
            0 <= i < reply_script(task_id, row_id, reply, now).len() ==> !(#[trigger] reply_script(
                task_id,
                row_id,
                reply,
                now,
            )[i] is MarkComplete),
{
}

/// The script for an answer that reports no failure and holds `n` log
/// entries: `n` log rows, one for each entry and in the order of the
/// entries, then the mark of completion, then the report `Yes`.
pub proof fn law_success_script(
    task_id: Seq<char>,
    row_id: Seq<char>,
    reply: JsonView,
    now: Seq<char>,
)
    requires
        !is_error_reply(reply),
    ensures
        reply_script(task_id, row_id, reply, now).len() == log_entries(reply).len() + 2,
        forall|i: int|
            0 <= i < log_entries(reply).len() ==> #[trigger] reply_script(
                task_id,
                row_id,
                reply,
                now,
            )[i] == ActionView::AppendLog(entry_log(task_id, log_entries(reply)[i])),
        reply_script(task_id, row_id, reply, now)[log_entries(reply).len() as int]
            == ActionView::MarkComplete(task_id),
        reply_script(task_id, row_id, reply, now)[log_entries(reply).len() as int + 1]
            == ActionView::Report(row_id, ReportFlag::Yes),
{
}

/// Every action of a script for a worker's answer is a log row, the mark
/// of completion or a report, and a script is never empty.
pub proof fn lemma_reply_script_shape(
    task_id: Seq<char>,
    row_id: Seq<char>,
    reply: JsonView,
    now: Seq<char>,
)
    ensures
        reply_script(task_id, row_id, reply, now).len() >= 2,
        forall|i: int|
            0 <= i < reply_script(task_id, row_id, reply, now).len() ==> (#[trigger] reply_script(
                task_id,
                row_id,
                reply,
                now,
            )[i]).follows_reply(),
{
}

/// A worker's answer is carried out to the letter.
///
/// From the moment the worker has answered, and while every action
/// succeeds, the machine hands out the script for the answer, action by
/// action, and then moves on to the next entry; the item counts as
/// completed exactly where the answer reports no failure.
pub proof fn law_reply_is_carried_out(
    s: DispatcherView,
    body: Seq<char>,
    first: StampView,
    stamps: Seq<StampView>,
    last: StampView,
)
    requires
        s.waiting is CallWorker,
        stamps.len() + 1 == reply_script(s.task_id, s.row_id, reply_of(body), first.now).len(),
    ensures
        run(
            s,
            seq![(EventView::Reply(body), first)] + dones(stamps) + seq![(EventView::Done, last)],
        ) == reply_script(s.task_id, s.row_id, reply_of(body), first.now).push(
            advance(
                s.pending,
                if is_error_reply(reply_of(body)) {
                    s.completed
                } else {
                    s.completed + 1
                },
                last,
            ).1,
        ),
        state_after(
            s,
            seq![(EventView::Reply(body), first)] + dones(stamps) + seq![(EventView::Done, last)],
        ) == advance(
            s.pending,
            if is_error_reply(reply_of(body)) {
                s.completed
            } else {
                s.completed + 1
            },
            last,
        ).0,
{
    let reply = reply_of(body);
    let script = reply_script(s.task_id, s.row_id, reply, first.now);
    lemma_reply_script_shape(s.task_id, s.row_id, reply, first.now);
    let head = seq![(EventView::Reply(body), first)];
    let tail = seq![(EventView::Done, last)];
    let (s1, a1) = next(s, EventView::Reply(body), first);
    assert(a1 == script[0]);
    assert(s1.script == script.drop_first());
    assert(run(s, head) =~= seq![a1]) by {
        reveal_with_fuel(run, 2);
        assert(head.drop_first() =~= Seq::empty());
    }
    assert(state_after(s, head) == s1) by {
        reveal_with_fuel(state_after, 2);
        assert(head.drop_first() =~= Seq::empty());
    }
    assert forall|i: int| 0 <= i < s1.script.len() implies (
    #[trigger] s1.script[i]).follows_reply() by {
        assert(s1.script[i] == script[i + 1]);
    }
    lemma_script_runs(s1, stamps);
    let s2 = state_after(s1, dones(stamps));
    let (s3, a3) = next(s2, EventView::Done, last);
    assert(run(s2, tail) =~= seq![a3]) by {
        reveal_with_fuel(run, 2);
        assert(tail.drop_first() =~= Seq::empty());
    }
    assert(state_after(s2, tail) == s3) by {
        reveal_with_fuel(state_after, 2);
        assert(tail.drop_first() =~= Seq::empty());
    }
    lemma_run_append(s, head, dones(stamps));
    lemma_run_append(s, head + dones(stamps), tail);
    assert(seq![a1] + s1.script =~= script);
    assert(run(s, head + dones(stamps) + tail) =~= script.push(a3));
}

/// An entry that is no item to work on is passed over without a trace: the
/// machine goes on exactly as if the entry were not there. Such are the
/// entries without a field map, with an empty SKU or with an empty module.
pub proof fn law_unworkable_entry_is_passed_over(
    raw: JsonView,
    rest: Seq<JsonView>,
    completed: nat,
    stamp: StampView,
)
    requires
        match item_of(raw) {
            Some(item) => item.sku.len() == 0 || item.module.len() == 0,
            None => true,
        },
    ensures
        advance(seq![raw] + rest, completed, stamp) == advance(rest, completed, stamp),
{
    assert((seq![raw] + rest).drop_first() =~= rest);
}

impl DispatcherView {
    /// Whether an action is one for the item in hand: the call of the
    /// worker, or a log row, a mark of completion or a report that speaks
    /// of the task and the row in hand.
    pub open spec fn speaks_of_item(self, action: ActionView) -> bool {
        match action {
            ActionView::CallWorker(_) => true,
            ActionView::AppendLog(log) => log.task_id == self.task_id,
            ActionView::MarkComplete(task_id) => task_id == self.task_id,
            ActionView::Report(row_id, _) => row_id == self.row_id,
            _ => false,
        }
    }

    /// What holds of the machine at every moment of a cycle: the script of
    /// the item in hand holds only actions for that item.
    pub open spec fn coherent(self) -> bool {
        forall|i: int|
            0 <= i < self.script.len() ==> self.speaks_of_item(#[trigger] self.script[i])
    }
}

/// Moving on leaves the machine coherent, and a task that it asks to be
/// written has a SKU and a module.
pub proof fn lemma_advance_is_sound(pending: Seq<JsonView>, completed: nat, stamp: StampView)
    ensures
        advance(pending, completed, stamp).0.coherent(),
        advance(pending, completed, stamp).1 matches ActionView::InsertTask(task) ==> task.sku.len()
            > 0 && task.module.len() > 0 && task.status is Pending && task.task_id == advance(
            pending,
            completed,
            stamp,
        ).0.task_id,
        !(advance(pending, completed, stamp).1 is AppendLog),
        !(advance(pending, completed, stamp).1 is MarkComplete),
    decreases pending.len(),
{
    if pending.len() > 0 && workable_item(pending[0]) is None {
        lemma_advance_is_sound(pending.drop_first(), completed, stamp);
    }
}

/// No task and no log row without an item to work on.
///
/// Whatever events come in, a cycle stays coherent. A task that the
/// machine asks to be written has a SKU and a module, and becomes the task
/// in hand. A log row or a mark of completion that it asks for is for the
/// task in hand.
pub proof fn law_rows_are_for_workable_items(s: DispatcherView, e: EventView, stamp: StampView)
    requires
        s.coherent(),
    ensures
        initial().coherent(),
        next(s, e, stamp).0.coherent(),
        next(s, e, stamp).1 matches ActionView::InsertTask(task) ==> task.sku.len() > 0
            && task.module.len() > 0 && task.status is Pending && task.task_id == next(
            s,
            e,
            stamp,
        ).0.task_id,
        next(s, e, stamp).1 matches ActionView::AppendLog(log) ==> s.waiting.in_item()
            && log.task_id == s.task_id,
        next(s, e, stamp).1 matches ActionView::MarkComplete(task_id) ==> s.waiting.in_item()
            && task_id == s.task_id,
{
    match (s.waiting, e) {
        (Waiting::Fetch, EventView::Envelope(envelope)) => {
            if !reports_failure(envelope) {
                match listed_items(envelope) {
                    Some(items) => lemma_advance_is_sound(items, 0, stamp),
                    None => {},
                }
            }
        },
        (Waiting::CallWorker, EventView::Reply(body)) => {
            let reply = reply_of(body);
            let script = reply_script(s.task_id, s.row_id, reply, stamp.now);
            lemma_reply_script_shape(s.task_id, s.row_id, reply, stamp.now);
            let after = next(s, e, stamp).0;
            assert(after.script == script.drop_first());
            assert forall|i: int| 0 <= i < after.script.len() implies after.speaks_of_item(
                #[trigger] after.script[i],
            ) by {
                assert(after.script[i] == script[i + 1]);
            }
        },
        (Waiting::InsertTask, EventView::Done)
        | (Waiting::AppendLog, EventView::Done)
        | (Waiting::MarkComplete, EventView::Done)
        | (Waiting::Report, EventView::Done) => {
            if s.script.len() > 0 {
                let after = next(s, e, stamp).0;
                assert forall|i: int| 0 <= i < after.script.len() implies after.speaks_of_item(
                    #[trigger] after.script[i],
                ) by {
                    assert(after.script[i] == s.script[i + 1]);
                    assert(s.speaks_of_item(s.script[i + 1]));
                }
            } else {
                lemma_advance_is_sound(
                    s.pending,
                    if s.counts {
                        s.completed + 1
                    } else {
                        s.completed
                    },
                    stamp,
                );
            }
        },
        _ => {},
    }
}

/// What comes from outside while one item is worked on.
pub struct Turn {
    /// The stamp at hand when the item is taken in hand: its task gets the
    /// identifier and the time of this stamp.
    pub born: StampView,
    /// The body of the worker's answer.
    pub body: Seq<char>,
    /// The stamp at hand when the worker's answer comes in.
    pub answered: StampView,
}

impl Turn {
    /// The script for the worker's answer to the item.
    pub open spec fn script(self, item: PendingItemView) -> Seq<ActionView> {
        reply_script(self.born.task_id, item.row_id, reply_of(self.body), self.answered.now)
    }

    /// Everything that is done for the item, in order: its task row, the
    /// call of the worker, and the script for the worker's answer.
    pub open spec fn actions(self, item: PendingItemView) -> Seq<ActionView> {
        seq![
            ActionView::InsertTask(task_of(item, self.born)),
            ActionView::CallWorker(item.fields),
        ] + self.script(item)
    }

    /// The count of completed items once the item is done.
    pub open spec fn counted(self, completed: nat) -> nat {
        if is_error_reply(reply_of(self.body)) {
            completed
        } else {
            completed + 1
        }
    }
}

/// The number of entries that are items to work on.
pub open spec fn workable_count(entries: Seq<JsonView>) -> nat
    decreases entries.len(),
{
    if entries.len() == 0 {
        0
    } else {
        workable_count(entries.drop_first()) + if workable_item(entries[0]) is Some {
            1nat
        } else {
            0nat
        }
    }
}

/// The stamp at hand when the machine moves on: that of the next turn, or
/// `idle` where no turn is left.
pub open spec fn stamp_ahead(turns: Seq<Turn>, idle: StampView) -> StampView {
    if turns.len() > 0 {
        turns[0].born
    } else {
        idle
    }
}

/// Everything that a cycle does from the first entry on, where every action
/// succeeds: for each entry that is an item to work on, in the order of
/// the entries, what is done for that item; at the end the number of items
/// completed. Entries that are no such item do not show. The turns are
/// those of the items, in their order.
pub open spec fn cycle_actions(entries: Seq<JsonView>, turns: Seq<Turn>, completed: nat) -> Seq<
    ActionView,
>
    decreases entries.len(),
{
    if entries.len() == 0 {
        seq![ActionView::Finish(Ok(completed))]
    } else {
        match workable_item(entries[0]) {
            Some(item) => if turns.len() > 0 {
                turns[0].actions(item) + cycle_actions(
                    entries.drop_first(),
                    turns.drop_first(),
                    turns[0].counted(completed),
                )
            } else {
                Seq::empty()
            },
            None => cycle_actions(entries.drop_first(), turns, completed),
        }
    }
}

/// The events that come in while a cycle goes through, from the moment the
/// first item is taken in hand: every action succeeds, and the worker
/// answers each call with the body of the item's turn. Where no stamp
/// matters, `idle` is at hand.
pub open spec fn cycle_inputs(entries: Seq<JsonView>, turns: Seq<Turn>, idle: StampView) -> Seq<
    (EventView, StampView),
>
    decreases entries.len(),
{
    if entries.len() == 0 {
        Seq::empty()
    } else {
        match workable_item(entries[0]) {
            Some(item) => if turns.len() > 0 {
                seq![(EventView::Done, idle), (EventView::Reply(turns[0].body), turns[0].answered)]
                    + dones(Seq::new((turns[0].script(item).len() - 1) as nat, |i: int| idle))
                    + seq![(EventView::Done, stamp_ahead(turns.drop_first(), idle))] + cycle_inputs(
                    entries.drop_first(),
                    turns.drop_first(),
                    idle,
                )
            } else {
                Seq::empty()
            },
            None => cycle_inputs(entries.drop_first(), turns, idle),
        }
    }
}

/// A cycle that goes through, from the moment the machine moves on to the
/// entries: what it hands out is what [`cycle_actions`] says.
pub proof fn lemma_cycle_goes_through(
    entries: Seq<JsonView>,
    turns: Seq<Turn>,
    completed: nat,
    idle: StampView,
)
    requires
        turns.len() == workable_count(entries),
    ensures
        seq![advance(entries, completed, stamp_ahead(turns, idle)).1] + run(
            advance(entries, completed, stamp_ahead(turns, idle)).0,
            cycle_inputs(entries, turns, idle),
        ) == cycle_actions(entries, turns, completed),
    decreases entries.len(),
{
    let ahead = stamp_ahead(turns, idle);
    let (s0, a0) = advance(entries, completed, ahead);
    if entries.len() == 0 {
        assert(seq![a0] + run(s0, cycle_inputs(entries, turns, idle)) =~= cycle_actions(
            entries,
            turns,
            completed,
        ));
    } else {
        let rest = entries.drop_first();
        match workable_item(entries[0]) {
            None => {
                lemma_cycle_goes_through(rest, turns, completed, idle);
            },
            Some(item) => {
                let turn = turns[0];
                let more = turns.drop_first();
                let script = turn.script(item);
                lemma_reply_script_shape(
                    turn.born.task_id,
                    item.row_id,
                    reply_of(turn.body),
                    turn.answered.now,
                );
                let waits = Seq::new((script.len() - 1) as nat, |i: int| idle);
                let after = stamp_ahead(more, idle);
                let entered = seq![(EventView::Done, idle)];
                let answered = seq![(EventView::Reply(turn.body), turn.answered)] + dones(waits)
                    + seq![(EventView::Done, after)];
                let remaining = cycle_inputs(rest, more, idle);
                assert(cycle_inputs(entries, turns, idle) =~= entered + answered + remaining);
                // the task row is in; the worker is called
                let (s1, a1) = next(s0, EventView::Done, idle);
                assert(a1 == ActionView::CallWorker(item.fields));
                assert(run(s0, entered) =~= seq![a1]) by {
                    reveal_with_fuel(run, 2);
                    assert(entered.drop_first() =~= Seq::empty());
                }
                assert(state_after(s0, entered) == s1) by {
                    reveal_with_fuel(state_after, 2);
                    assert(entered.drop_first() =~= Seq::empty());
                }
                // the worker answers; its answer is carried out
                assert(s1.script =~= Seq::empty());
                law_reply_is_carried_out(s1, turn.body, turn.answered, waits, after);
                let counted = turn.counted(completed);
                let (s2, a2) = advance(rest, counted, after);
                // the rest of the entries
                lemma_cycle_goes_through(rest, more, counted, idle);
                lemma_run_append(s0, entered, answered);
                lemma_run_append(s0, entered + answered, remaining);
                assert(seq![a0] + run(s0, entered + answered + remaining) =~= turn.actions(item)
                    + (seq![a2] + run(s2, remaining)));
            },
        }
    }
}

/// A cycle that goes through, from its start to its end.
///
/// Where the fetch answers with a list of entries, every action succeeds
/// and the worker answers each call, the machine asks for exactly this, in
/// this order: for each entry that is an item to work on, in the order of
/// the entries, the task row, the call of the worker with the item's field
/// map, and the script for the worker's answer; then it ends with the
/// number of items whose answer reported no failure. There is one task row
/// for each such entry, and nothing at all for any other entry.
pub proof fn law_cycle_goes_through(
    envelope: JsonView,
    entries: Seq<JsonView>,
    turns: Seq<Turn>,
    idle: StampView,
)
    requires
        !reports_failure(envelope),
        listed_items(envelope) == Some(entries),
        turns.len() == workable_count(entries),
    ensures
        run(
            initial(),
            seq![(EventView::Envelope(envelope), stamp_ahead(turns, idle))] + cycle_inputs(
                entries,
                turns,
                idle,
            ),
        ) == cycle_actions(entries, turns, 0),
{
    let ahead = stamp_ahead(turns, idle);
    let fetched = seq![(EventView::Envelope(envelope), ahead)];
    let (s0, a0) = next(initial(), EventView::Envelope(envelope), ahead);
    assert((s0, a0) == advance(entries, 0, ahead));
    assert(run(initial(), fetched) =~= seq![a0]) by {
        reveal_with_fuel(run, 2);
        assert(fetched.drop_first() =~= Seq::empty());
    }
    assert(state_after(initial(), fetched) == s0) by {
        reveal_with_fuel(state_after, 2);
        assert(fetched.drop_first() =~= Seq::empty());
    }
    lemma_run_append(initial(), fetched, cycle_inputs(entries, turns, idle));
    lemma_cycle_goes_through(entries, turns, 0, idle);
}

/// The ledger once an action is carried out. Only three actions touch the
/// ledger: a task row is added, a log row is added, a task is marked
/// complete.
pub open spec fn ledger_after(ledger: TaskStoreView, action: ActionView) -> TaskStoreView {
    match action {
        ActionView::InsertTask(task) => TaskStoreView { tasks: ledger.tasks.push(task), ..ledger },
        ActionView::AppendLog(log) => TaskStoreView { logs: ledger.logs.push(log), ..ledger },
        ActionView::MarkComplete(task_id) => TaskStoreView {
            tasks: marked_complete(ledger.tasks, task_id),
            ..ledger
        },
        _ => ledger,
    }
}

/// The ledger once the actions are carried out, in their order.
pub open spec fn ledger_after_all(ledger: TaskStoreView, actions: Seq<ActionView>) -> TaskStoreView
    decreases actions.len(),
{
    if actions.len() == 0 {
        ledger
    } else {
        ledger_after_all(ledger_after(ledger, actions[0]), actions.drop_first())
    }
}

/// The log rows for the entries of an answer, in the order of the entries.
pub open spec fn entry_logs(task_id: Seq<char>, entries: Seq<JsonView>) -> Seq<TaskLogView> {
    entries.map_values(|entry: JsonView| entry_log(task_id, entry))
}

/// Carrying out one action after the others.
pub proof fn lemma_ledger_after_push(
    ledger: TaskStoreView,
    actions: Seq<ActionView>,
    last: ActionView,
)
    ensures
        ledger_after_all(ledger, actions.push(last)) == ledger_after(
            ledger_after_all(ledger, actions),
            last,
        ),
    decreases actions.len(),
{
    reveal_with_fuel(ledger_after_all, 2);
    if actions.len() == 0 {
        assert(actions.push(last).drop_first() =~= Seq::empty());
    } else {
        assert(actions.push(last).drop_first() =~= actions.drop_first().push(last));
        lemma_ledger_after_push(ledger_after(ledger, actions[0]), actions.drop_first(), last);
    }
}

/// Log rows written one after the other stand in the ledger in that order,
/// behind the rows that were there; the tasks are as they were.
pub proof fn lemma_logs_are_appended(ledger: TaskStoreView, logs: Seq<TaskLogView>)
    ensures
        ledger_after_all(ledger, logs.map_values(|log: TaskLogView| ActionView::AppendLog(log)))
            == (TaskStoreView { tasks: ledger.tasks, logs: ledger.logs + logs }),
    decreases logs.len(),
{
    let rows = |log: TaskLogView| ActionView::AppendLog(log);
    if logs.len() == 0 {
        assert(ledger.logs + logs =~= ledger.logs);
    } else {
        let front = logs.drop_last();
        lemma_logs_are_appended(ledger, front);
        assert(logs.map_values(rows) =~= front.map_values(rows).push(rows(logs.last())));
        lemma_ledger_after_push(ledger, front.map_values(rows), rows(logs.last()));
        assert((ledger.logs + front).push(logs.last()) =~= ledger.logs + logs);
    }
}

/// What an answer that reports a failure leaves in the ledger: exactly one
/// more log row, the one that says so; every task is as it was, so the task
/// of the item is not marked complete.
pub proof fn law_failure_in_the_ledger(
    ledger: TaskStoreView,
    task_id: Seq<char>,
    row_id: Seq<char>,
    reply: JsonView,
    now: Seq<char>,
)
    requires
        is_error_reply(reply),
    ensures
        ledger_after_all(ledger, reply_script(task_id, row_id, reply, now)) == (TaskStoreView {
            tasks: ledger.tasks,
            logs: ledger.logs.push(failure_log(task_id, reply, now)),
        }),
{
    reveal_with_fuel(ledger_after_all, 3);
    let script = reply_script(task_id, row_id, reply, now);
    assert(script.drop_first() =~= seq![ActionView::Report(row_id, ReportFlag::No)]);
    assert(script.drop_first().drop_first() =~= Seq::empty());
}

/// What any other answer leaves in the ledger: one more log row for each
/// entry of its logs, in the order of the entries, and the task of the item
/// marked complete.
pub proof fn law_success_in_the_ledger(
    ledger: TaskStoreView,
    task_id: Seq<char>,
    row_id: Seq<char>,
    reply: JsonView,
    now: Seq<char>,
)
    requires
        !is_error_reply(reply),
    ensures
        ledger_after_all(ledger, reply_script(task_id, row_id, reply, now)) == (TaskStoreView {
            tasks: marked_complete(ledger.tasks, task_id),
            logs: ledger.logs + entry_logs(task_id, log_entries(reply)),
        }),
{
    let logs = entry_logs(task_id, log_entries(reply));
    let rows = logs.map_values(|log: TaskLogView| ActionView::AppendLog(log));
    let script = reply_script(task_id, row_id, reply, now);
    let mark = ActionView::MarkComplete(task_id);
    let report = ActionView::Report(row_id, ReportFlag::Yes);
    assert(script =~= rows.push(mark).push(report));
    lemma_logs_are_appended(ledger, logs);
    lemma_ledger_after_push(ledger, rows, mark);
    lemma_ledger_after_push(ledger, rows.push(mark), report);
}

/// Carrying out two lists of actions, one after the other.
pub proof fn lemma_ledger_after_both(
    ledger: TaskStoreView,
    first: Seq<ActionView>,
    second: Seq<ActionView>,
)
    ensures
        ledger_after_all(ledger, first + second) == ledger_after_all(
            ledger_after_all(ledger, first),
            second,
        ),
    decreases first.len(),
{
    if first.len() == 0 {
        assert(first + second =~= second);
    } else {
        assert((first + second)[0] == first[0]);
        assert((first + second).drop_first() =~= first.drop_first() + second);
        lemma_ledger_after_both(ledger_after(ledger, first[0]), first.drop_first(), second);
    }
}

/// What is done for one item leaves one more task row in the ledger: the
/// task of the item, pending or marked complete.
pub proof fn lemma_item_leaves_one_task(ledger: TaskStoreView, turn: Turn, item: PendingItemView)
    ensures
        ledger_after_all(ledger, turn.actions(item)).tasks.len() == ledger.tasks.len() + 1,
{
    let opening = seq![
        ActionView::InsertTask(task_of(item, turn.born)),
        ActionView::CallWorker(item.fields),
    ];
    let entered = TaskStoreView { tasks: ledger.tasks.push(task_of(item, turn.born)), ..ledger };
    assert(ledger_after_all(ledger, opening) == entered) by {
        reveal_with_fuel(ledger_after_all, 3);
        assert(opening.drop_first() =~= seq![ActionView::CallWorker(item.fields)]);
        assert(opening.drop_first().drop_first() =~= Seq::empty());
    }
    lemma_ledger_after_both(ledger, opening, turn.script(item));
    let reply = reply_of(turn.body);
    if is_error_reply(reply) {
        law_failure_in_the_ledger(
            entered,
            turn.born.task_id,
            item.row_id,
            reply,
            turn.answered.now,
        );
    } else {
        law_success_in_the_ledger(
            entered,
            turn.born.task_id,
            item.row_id,
            reply,
            turn.answered.now,
        );
    }
}

/// One task row for each item, in every cycle.
///
/// A cycle that goes through leaves in the ledger exactly one more task
/// row for each entry that is an item to work on, and none for any other
/// entry.
pub proof fn law_one_task_row_per_item(
    ledger: TaskStoreView,
    entries: Seq<JsonView>,
    turns: Seq<Turn>,
    completed: nat,
)
    requires
        turns.len() == workable_count(entries),
    ensures
        ledger_after_all(ledger, cycle_actions(entries, turns, completed)).tasks.len()
            == ledger.tasks.len() + workable_count(entries),
    decreases entries.len(),
{
    if entries.len() == 0 {
        reveal_with_fuel(ledger_after_all, 2);
        let actions = cycle_actions(entries, turns, completed);
        assert(actions.drop_first() =~= Seq::empty());
    } else {
        let rest = entries.drop_first();
        match workable_item(entries[0]) {
            None => {
                law_one_task_row_per_item(ledger, rest, turns, completed);
            },
            Some(item) => {
                let turn = turns[0];
                let done = ledger_after_all(ledger, turn.actions(item));
                lemma_item_leaves_one_task(ledger, turn, item);
                lemma_ledger_after_both(
                    ledger,
                    turn.actions(item),
                    cycle_actions(rest, turns.drop_first(), turn.counted(completed)),
                );
                law_one_task_row_per_item(
                    done,
                    rest,
                    turns.drop_first(),
                    turn.counted(completed),
                );
            },
        }
    }
}

} // verus!
