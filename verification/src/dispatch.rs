//! The dispatch pipeline: from the pending items of the remote source to
//! tasks, worker calls, logs and status reports.
//!
//! The pipeline never performs an outside call itself. It is a machine that
//! hands out one [`Action`] at a time and is told, by an [`Event`], how the
//! action went; whoever drives it performs the actions in order.

use crate::action::{
    action_views, Action, ActionView, DispatchError, DispatchErrorView, Event, EventView, Fault,
};
use crate::item::{
    envelope_reports_failure, listed_items, read_item, reports_failure, take_items,
    workable_item, PendingItem, PendingItemView,
};
use crate::json::{lemma_views, views, Json, JsonView};
use crate::reply::{
    is_error_reply, plan_reply, read_reply, reply_of, reply_reports_error, reply_script,
};
use crate::store::{Task, TaskStatus, TaskView};
use crate::text::{is_decimal_digit, is_lower_hex, is_sign};
use std::collections::VecDeque;
use vstd::prelude::*;
use vstd::string::StringExecFns;

verus! {

/// The identifier and the time that a step may need: both come from
/// outside, so a step takes them as given.
#[derive(Debug, PartialEq)]
pub struct Stamp {
    /// A fresh task identifier.
    pub task_id: String,
    /// The local time.
    pub now: String,
}

/// The model of a [`Stamp`].
pub struct StampView {
    pub task_id: Seq<char>,
    pub now: Seq<char>,
}

impl View for Stamp {
    type V = StampView;

    open spec fn view(&self) -> StampView {
        StampView { task_id: self.task_id@, now: self.now@ }
    }
}

/// Whether a text is an identifier of version 7 as `uuid` writes it: 36
/// characters, hexadecimal digits in lower case in five groups of 8, 4, 4,
/// 4 and 12 with a hyphen between two groups; the third group begins with
/// the version, `7`.
pub open spec fn is_uuid_v7_text(s: Seq<char>) -> bool {
    &&& s.len() == 36
    &&& forall|i: int|
        #![trigger s[i]]
        0 <= i < 36 ==> if i == 8 || i == 13 || i == 18 || i == 23 {
            s[i] == '-'
        } else {
            is_lower_hex(s[i])
        }
    &&& s[14] == '7'
}

/// Whether a text reads as a date and a time with an offset, with the `T`
/// between date and time at position `t`.
///
/// Before the `T` stands the date: the year, of four digits or of a sign
/// and four digits or more, then `-mm-dd`. Behind it stands the time
/// `hh:mm:ss`, then maybe a point and 3, 6 or 9 digits of a fraction, and
/// at the end the offset, a sign and `hh:mm`.
pub open spec fn is_rfc3339_text_at(s: Seq<char>, t: int) -> bool {
    let n = s.len() as int;
    &&& 10 <= t
    &&& t + 15 <= n
    &&& forall|i: int|
        #![trigger s[i]]
        0 <= i < t - 6 ==> is_decimal_digit(s[i]) || (i == 0 && t > 10 && is_sign(s[i]))
    &&& s[t - 6] == '-'
    &&& is_decimal_digit(s[t - 5])
    &&& is_decimal_digit(s[t - 4])
    &&& s[t - 3] == '-'
    &&& is_decimal_digit(s[t - 2])
    &&& is_decimal_digit(s[t - 1])
    &&& s[t] == 'T'
    &&& is_decimal_digit(s[t + 1])
    &&& is_decimal_digit(s[t + 2])
    &&& s[t + 3] == ':'
    &&& is_decimal_digit(s[t + 4])
    &&& is_decimal_digit(s[t + 5])
    &&& s[t + 6] == ':'
    &&& is_decimal_digit(s[t + 7])
    &&& is_decimal_digit(s[t + 8])
    &&& (n == t + 15 || n == t + 19 || n == t + 22 || n == t + 25)
    &&& n > t + 15 ==> s[t + 9] == '.'
    &&& forall|i: int| #![trigger s[i]] t + 10 <= i < n - 6 ==> is_decimal_digit(s[i])
    &&& is_sign(s[n - 6])
    &&& is_decimal_digit(s[n - 5])
    &&& is_decimal_digit(s[n - 4])
    &&& s[n - 3] == ':'
    &&& is_decimal_digit(s[n - 2])
    &&& is_decimal_digit(s[n - 1])
}

/// Whether a text reads as a date and a time with an offset, as `chrono`
/// writes them with `to_rfc3339`; see [`is_rfc3339_text_at`].
pub open spec fn is_rfc3339_text(s: Seq<char>) -> bool {
    exists|t: int| is_rfc3339_text_at(s, t)
}

impl StampView {
    /// Whether the stamp is one that the clock and the source of
    /// identifiers give: its identifier has the form of a version 7
    /// identifier, its time that of a date and a time with an offset.
    pub open spec fn is_genuine(self) -> bool {
        is_uuid_v7_text(self.task_id) && is_rfc3339_text(self.now)
    }
}

/// Calls `uuid::Uuid::now_v7` and writes the identifier out as text, with
/// `to_string`. Each call gives another identifier; what all of them share
/// is their form, which `uuid` gives to every identifier of version 7 that
/// it writes out: see [`is_uuid_v7_text`].
#[verifier::external_body]
fn new_task_id() -> (id: String)
    ensures
        is_uuid_v7_text(id@),
{
    uuid::Uuid::now_v7().to_string()
}

/// Calls `chrono::Local::now` and writes the time out with `to_rfc3339`.
/// The result is the time of the call in the time zone of the machine;
/// what every result shares is the form in which `to_rfc3339` writes a
/// time: see [`is_rfc3339_text`].
#[verifier::external_body]
fn local_now() -> (now: String)
    ensures
        is_rfc3339_text(now@),
{
    chrono::Local::now().to_rfc3339()
}

impl Stamp {
    /// A stamp with a new identifier and the time of the call: an
    /// identifier of version 7 in its text form, and the local date and
    /// time with the offset of the time zone.
    pub fn fresh() -> (stamp: Stamp)
        ensures
            stamp@.is_genuine(),
    {
        Stamp { task_id: new_task_id(), now: local_now() }
    }
}

/// The task that an item becomes: dispatched under the stamp's identifier
/// at the stamp's time, and pending.
pub open spec fn task_of(item: PendingItemView, stamp: StampView) -> TaskView {
    TaskView {
        task_id: stamp.task_id,
        run_time: stamp.now,
        sku: item.sku,
        module: item.module,
        create_time: item.create_time,
        status: TaskStatus::Pending,
    }
}

/// The same entries, last first.
fn reversed(items: Vec<Json>) -> (r: Vec<Json>)
    ensures
        r@ == items@.reverse(),
{
    let mut items = items;
    let ghost all = items@;
    let mut out: Vec<Json> = Vec::new();
    while items.len() > 0
        invariant
            items@.len() <= all.len(),
            items@ == all.take(items@.len() as int),
            out@.len() + items@.len() == all.len(),
            forall|k: int| 0 <= k < out@.len() ==> out@[k] == all[all.len() - 1 - k],
        decreases items@.len(),
    {
        match items.pop() {
            Some(last) => out.push(last),
            None => {},
        }
    }
    proof {
        assert(out@ =~= all.reverse());
    }
    out
}

/// The action whose outcome the machine waits for.
#[derive(Debug, Clone, Copy, PartialEq, Eq, Structural)]
pub enum Waiting {
    Fetch,
    InsertTask,
    CallWorker,
    AppendLog,
    MarkComplete,
    Report,
    /// The cycle is over; nothing is outstanding.
    Nothing,
}

impl Waiting {
    /// Whether an item is in hand while this is outstanding.
    pub open spec fn in_item(self) -> bool {
        !(self is Fetch || self is Nothing)
    }

    /// The fault that a failure of the outstanding action is.
    pub open spec fn fault(self) -> Fault {
        match self {
            Waiting::Fetch => Fault::Fetch,
            Waiting::InsertTask => Fault::InsertTask,
            Waiting::CallWorker => Fault::Worker,
            Waiting::AppendLog => Fault::AppendLog,
            Waiting::MarkComplete => Fault::MarkComplete,
            Waiting::Report => Fault::Report,
            Waiting::Nothing => Fault::Unexpected,
        }
    }

    /// The fault that a failure of the outstanding action is.
    fn to_fault(self) -> (f: Fault)
        ensures
            f == self.fault(),
    {
        match self {
            Waiting::Fetch => Fault::Fetch,
            Waiting::InsertTask => Fault::InsertTask,
            Waiting::CallWorker => Fault::Worker,
            Waiting::AppendLog => Fault::AppendLog,
            Waiting::MarkComplete => Fault::MarkComplete,
            Waiting::Report => Fault::Report,
            Waiting::Nothing => Fault::Unexpected,
        }
    }
}

impl ActionView {
    /// What is outstanding once this action is handed out.
    pub open spec fn awaited(self) -> Waiting {
        match self {
            ActionView::Fetch => Waiting::Fetch,
            ActionView::InsertTask(_) => Waiting::InsertTask,
            ActionView::CallWorker(_) => Waiting::CallWorker,
            ActionView::AppendLog(_) => Waiting::AppendLog,
            ActionView::MarkComplete(_) => Waiting::MarkComplete,
            ActionView::Report(_, _) => Waiting::Report,
            ActionView::Finish(_) => Waiting::Nothing,
        }
    }
}

impl Action {
    /// What is outstanding once this action is handed out.
    fn awaited(&self) -> (w: Waiting)
        ensures
            w == self@.awaited(),
    {
        match self {
            Action::Fetch => Waiting::Fetch,
            Action::InsertTask(_) => Waiting::InsertTask,
            Action::CallWorker(_) => Waiting::CallWorker,
            Action::AppendLog(_) => Waiting::AppendLog,
            Action::MarkComplete(_) => Waiting::MarkComplete,
            Action::Report(_, _) => Waiting::Report,
            Action::Finish(_) => Waiting::Nothing,
        }
    }
}

/// The model of a [`Dispatcher`]: the state of one dispatch cycle.
pub struct DispatcherView {
    /// The action handed out last, whose outcome is awaited.
    pub waiting: Waiting,
    /// The entries of the fetch answer not yet looked at, in their order.
    pub pending: Seq<JsonView>,
    /// What is still to be done for the item in hand, in order.
    pub script: Seq<ActionView>,
    /// The task identifier of the item in hand.
    pub task_id: Seq<char>,
    /// The remote row identifier of the item in hand.
    pub row_id: Seq<char>,
    /// Whether the item in hand is a completed one once its script is done.
    pub counts: bool,
    /// The number of items completed so far.
    pub completed: nat,
}

/// The state at the start of a cycle: the fetch is outstanding.
pub open spec fn initial() -> DispatcherView {
    DispatcherView {
        waiting: Waiting::Fetch,
        pending: Seq::empty(),
        script: Seq::empty(),
        task_id: Seq::empty(),
        row_id: Seq::empty(),
        counts: false,
        completed: 0,
    }
}

/// The state of a cycle that is over.
pub open spec fn over(completed: nat) -> DispatcherView {
    DispatcherView {
        waiting: Waiting::Nothing,
        pending: Seq::empty(),
        script: Seq::empty(),
        task_id: Seq::empty(),
        row_id: Seq::empty(),
        counts: false,
        completed,
    }
}

/// Ends the cycle with a failure.
pub open spec fn halt(s: DispatcherView, fault: Fault, detail: Seq<char>) -> (
    DispatcherView,
    ActionView,
) {
    (over(s.completed), ActionView::Finish(Err(DispatchErrorView { fault, detail })))
}

/// Moves on to the next entry that is an item to work on: its task is
/// written first, and the call of the worker is what follows. Entries that
/// are no such item are passed over without a trace. With no entry left the
/// cycle ends with the number of items completed.
pub open spec fn advance(pending: Seq<JsonView>, completed: nat, stamp: StampView) -> (
    DispatcherView,
    ActionView,
)
    decreases pending.len(),
{
    if pending.len() == 0 {
        (over(completed), ActionView::Finish(Ok(completed)))
    } else {
        match workable_item(pending[0]) {
            Some(item) => (
                DispatcherView {
                    waiting: Waiting::InsertTask,
                    pending: pending.drop_first(),
                    script: seq![ActionView::CallWorker(item.fields)],
                    task_id: stamp.task_id,
                    row_id: item.row_id,
                    counts: false,
                    completed,
                },
                ActionView::InsertTask(task_of(item, stamp)),
            ),
            None => advance(pending.drop_first(), completed, stamp),
        }
    }
}

/// Hands out the next action of the script; with the script done, counts
/// the item if it completed and moves on.
pub open spec fn proceed(s: DispatcherView, stamp: StampView) -> (DispatcherView, ActionView) {
    if s.script.len() > 0 {
        (
            DispatcherView { waiting: s.script[0].awaited(), script: s.script.drop_first(), ..s },
            s.script[0],
        )
    } else {
        advance(
            s.pending,
            if s.counts {
                s.completed + 1
            } else {
                s.completed
            },
            stamp,
        )
    }
}

/// The step of the machine: the state after an event, and the action to
/// perform next.
///
/// A failure of the outstanding action ends the cycle with the fault of
/// that action. The fetch answer supplies the entries, or ends the cycle
/// where it says that it failed or lists none. The worker's answer decides
/// the script of the item in hand. Success of any other action lets the
/// script go on. Any other pairing of state and event ends the cycle as
/// unexpected.
pub open spec fn next(s: DispatcherView, e: EventView, stamp: StampView) -> (
    DispatcherView,
    ActionView,
) {
    match (s.waiting, e) {
        (Waiting::Nothing, _) => halt(s, Fault::Unexpected, Seq::empty()),
        (waiting, EventView::Failed(detail)) => halt(s, waiting.fault(), detail),
        (Waiting::Fetch, EventView::Envelope(envelope)) => if reports_failure(envelope) {
            halt(s, Fault::Refused, envelope.str_or("message"@, ""@))
        } else {
            match listed_items(envelope) {
                Some(items) => advance(items, 0, stamp),
                None => halt(s, Fault::MissingData, Seq::empty()),
            }
        },
        (Waiting::CallWorker, EventView::Reply(body)) => {
            let reply = reply_of(body);
            proceed(
                DispatcherView {
                    script: reply_script(s.task_id, s.row_id, reply, stamp.now),
                    counts: !is_error_reply(reply),
                    ..s
                },
                stamp,
            )
        },
        (Waiting::InsertTask, EventView::Done)
        | (Waiting::AppendLog, EventView::Done)
        | (Waiting::MarkComplete, EventView::Done)
        | (Waiting::Report, EventView::Done) => proceed(s, stamp),
        _ => halt(s, Fault::Unexpected, Seq::empty()),
    }
}

/// The dispatcher: the state of one dispatch cycle.
#[derive(Debug, PartialEq)]
pub struct Dispatcher {
    waiting: Waiting,
    /// The entries not yet looked at, the next one last.
    pending: Vec<Json>,
    script: VecDeque<Action>,
    task_id: String,
    row_id: String,
    counts: bool,
    completed: usize,
}

impl View for Dispatcher {
    type V = DispatcherView;

    closed spec fn view(&self) -> DispatcherView {
        DispatcherView {
            waiting: self.waiting,
            pending: views(self.pending@.reverse()),
            script: action_views(self.script@),
            task_id: self.task_id@,
            row_id: self.row_id@,
            counts: self.counts,
            completed: self.completed as nat,
        }
    }
}

impl Dispatcher {
    /// The count of completed items has room for every item still to come.
    #[verifier::type_invariant]
    spec fn has_room(self) -> bool {
        self.completed + self.pending.len() + (if self.waiting.in_item() {
            1int
        } else {
            0int
        }) <= usize::MAX
    }

    /// A cycle that is over.
    fn finished(completed: usize) -> (d: Dispatcher)
        ensures
            d@ == over(completed as nat),
    {
        let d = Dispatcher {
            waiting: Waiting::Nothing,
            pending: Vec::new(),
            script: VecDeque::new(),
            task_id: String::new(),
            row_id: String::new(),
            counts: false,
            completed,
        };
        proof {
            assert(views(d.pending@.reverse()) =~= Seq::empty());
            assert(action_views(d.script@) =~= Seq::empty());
        }
        d
    }

    /// Starts a cycle: the first thing to do is to fetch the pending items.
    pub fn start() -> (r: (Dispatcher, Action))
        ensures
            r.0@ == initial(),
            r.1@ == ActionView::Fetch,
    {
        let d = Dispatcher {
            waiting: Waiting::Fetch,
            pending: Vec::new(),
            script: VecDeque::new(),
            task_id: String::new(),
            row_id: String::new(),
            counts: false,
            completed: 0,
        };
        proof {
            assert(views(d.pending@.reverse()) =~= Seq::empty());
            assert(action_views(d.script@) =~= Seq::empty());
        }
        (d, Action::Fetch)
    }

    /// Whether the cycle is over.
    pub fn is_over(&self) -> (r: bool)
        ensures
            r == (self@.waiting is Nothing),
    {
        match self.waiting {
            Waiting::Nothing => true,
            _ => false,
        }
    }

    /// Ends the cycle with a failure.
    fn fail(self, fault: Fault, detail: String) -> (r: (Dispatcher, Action))
        ensures
            (r.0@, r.1@) == halt(self@, fault, detail@),
    {
        (Dispatcher::finished(self.completed), Action::Finish(Err(DispatchError { fault, detail })))
    }

    /// Moves on to the next entry that is an item to work on. The entries
    /// come the next one last.
    fn advance(entries: Vec<Json>, completed: usize, stamp: Stamp) -> (r: (Dispatcher, Action))
        requires
            completed + entries.len() <= usize::MAX,
        ensures
            (r.0@, r.1@) == advance(views(entries@.reverse()), completed as nat, stamp@),
    {
        let ghost all = views(entries@.reverse());
        let mut pending = entries;
        loop
            invariant
                completed + pending.len() <= usize::MAX,
                all == views(entries@.reverse()),
                advance(views(pending@.reverse()), completed as nat, stamp@) == advance(
                    all,
                    completed as nat,
                    stamp@,
                ),
            decreases pending@.len(),
        {
            let ghost before = pending@;
            proof {
                lemma_views(before.reverse());
            }
            match pending.pop() {
                None => {
                    return (Dispatcher::finished(completed), Action::Finish(Ok(completed)));
                },
                Some(raw) => {
                    proof {
                        lemma_views(pending@.reverse());
                        assert(views(pending@.reverse()) =~= views(before.reverse()).drop_first());
                        assert(views(before.reverse())[0] == raw@);
                    }
                    match read_item(raw) {
                        Some(item) => {
                            if item.sku.as_str().is_empty() || item.module.as_str().is_empty() {
                                continue ;
                            }
                            let PendingItem { row_id, sku, module, create_time, fields } = item;
                            let task = Task {
                                task_id: stamp.task_id.clone(),
                                run_time: stamp.now,
                                sku,
                                module,
                                create_time,
                                status: TaskStatus::Pending,
                            };
                            let mut script: VecDeque<Action> = VecDeque::new();
                            script.push_back(Action::CallWorker(fields));
                            let d = Dispatcher {
                                waiting: Waiting::InsertTask,
                                pending,
                                script,
                                task_id: stamp.task_id,
                                row_id,
                                counts: false,
                                completed,
                            };
                            proof {
                                assert(action_views(d.script@) =~= seq![
                                    ActionView::CallWorker(fields@),
                                ]);
                            }
                            return (d, Action::InsertTask(task));
                        },
                        None => {},
                    }
                },
            }
        }
    }

    /// Hands out the next action of the script, or moves on.
    fn proceed(self, stamp: Stamp) -> (r: (Dispatcher, Action))
        requires
            self@.waiting.in_item(),
        ensures
            (r.0@, r.1@) == proceed(self@, stamp@),
    {
        proof {
            use_type_invariant(&self);
        }
        let Dispatcher { waiting, pending, script, task_id, row_id, counts, completed } = self;
        let mut script = script;
        let ghost before = script@;
        match script.pop_front() {
            Some(action) => {
                let waiting = action.awaited();
                proof {
                    assert(action_views(script@) =~= action_views(before).drop_first());
                    assert(action_views(before)[0] == action@);
                }
                let d = Dispatcher { waiting, pending, script, task_id, row_id, counts, completed };
                (d, action)
            },
            None => {
                let completed = if counts {
                    completed + 1
                } else {
                    completed
                };
                Dispatcher::advance(pending, completed, stamp)
            },
        }
    }

    /// Takes an event and says what to do next; see [`next`].
    pub fn step(self, event: Event, stamp: Stamp) -> (r: (Dispatcher, Action))
        ensures
            (r.0@, r.1@) == next(self@, event@, stamp@),
    {
        proof {
            use_type_invariant(&self);
        }
        match (self.waiting, event) {
            (Waiting::Nothing, _) => self.fail(Fault::Unexpected, String::new()),
            (waiting, Event::Failed(detail)) => self.fail(waiting.to_fault(), detail),
            (Waiting::Fetch, Event::Envelope(envelope)) => {
                if envelope_reports_failure(&envelope) {
                    let detail = String::from_str(envelope.str_or("message", ""));
                    return self.fail(Fault::Refused, detail);
                }
                match take_items(envelope) {
                    Some(items) => {
                        proof {
                            assert(items@.reverse().reverse() =~= items@);
                        }
                        Dispatcher::advance(reversed(items), 0, stamp)
                    },
                    None => self.fail(Fault::MissingData, String::new()),
                }
            },
            (Waiting::CallWorker, Event::Reply(body)) => {
                let reply = read_reply(body.as_str());
                let counts = !reply_reports_error(&reply);
                let script = plan_reply(
                    self.task_id.as_str(),
                    self.row_id.as_str(),
                    &reply,
                    stamp.now.clone(),
                );
                let answered = Dispatcher {
                    waiting: self.waiting,
                    pending: self.pending,
                    script,
                    task_id: self.task_id,
                    row_id: self.row_id,
                    counts,
                    completed: self.completed,
                };
                answered.proceed(stamp)
            },
            (Waiting::InsertTask, Event::Done)
            | (Waiting::AppendLog, Event::Done)
            | (Waiting::MarkComplete, Event::Done)
            | (Waiting::Report, Event::Done) => self.proceed(stamp),
            _ => self.fail(Fault::Unexpected, String::new()),
        }
    }

    /// Takes an event and says what to do next, with a new task identifier
    /// and the time of the call at hand: a step of [`next`] under some
    /// stamp.
    pub fn step_now(self, event: Event) -> (r: (Dispatcher, Action))
        ensures
            exists|stamp: StampView| (r.0@, r.1@) == #[trigger] next(self@, event@, stamp),
    {
        let stamp = Stamp::fresh();
        let ghost given = stamp@;
        let r = self.step(event, stamp);
        proof {
            assert((r.0@, r.1@) == next(self@, event@, given));
        }
        r
    }
}

} // verus!
