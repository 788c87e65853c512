//! What a dispatch cycle asks of its driver, what it is told in return, and
//! how it can fail.

use crate::json::{Json, JsonView};
use crate::store::{Task, TaskLog, TaskLogView, TaskView};
use crate::text::{decimal, decimal_text};
use vstd::prelude::*;
use vstd::string::StringExecFns;

verus! {

/// What the remote source is told about an item that was attempted.
#[derive(Debug, Clone, Copy, PartialEq, Eq, Structural)]
pub enum ReportFlag {
    /// The worker succeeded.
    Yes,
    /// The worker was called and reported a failure.
    No,
}

impl ReportFlag {
    /// The value written to the remote record.
    pub open spec fn wire(self) -> Seq<char> {
        match self {
            ReportFlag::Yes => "是"@,
            ReportFlag::No => "否"@,
        }
    }

    /// The value written to the remote record.
    pub fn wire_value(self) -> (r: &'static str)
        ensures
            r@ == self.wire(),
    {
        match self {
            ReportFlag::Yes => "是",
            ReportFlag::No => "否",
        }
    }
}

/// What went wrong in a dispatch cycle.
#[derive(Debug, Clone, Copy, PartialEq, Eq, Structural)]
pub enum Fault {
    /// The pending items could not be fetched.
    Fetch,
    /// The fetch answered that it failed.
    Refused,
    /// The fetch answered, but without a list of items.
    MissingData,
    /// A task row could not be written.
    InsertTask,
    /// The worker could not be reached.
    Worker,
    /// A log row could not be written.
    AppendLog,
    /// The remote source could not be told the outcome.
    Report,
    /// A task row could not be marked complete.
    MarkComplete,
    /// An event arrived that does not answer the action handed out.
    Unexpected,
}

/// The three classes of failure that end a cycle.
#[derive(Debug, Clone, Copy, PartialEq, Eq, Structural)]
pub enum FaultClass {
    Remote,
    Storage,
    Protocol,
}

impl Fault {
    /// The class a fault falls under.
    pub open spec fn class(self) -> FaultClass {
        match self {
            Fault::Fetch | Fault::Refused | Fault::MissingData | Fault::Worker | Fault::Report => {
                FaultClass::Remote
            },
            Fault::InsertTask | Fault::AppendLog | Fault::MarkComplete => FaultClass::Storage,
            Fault::Unexpected => FaultClass::Protocol,
        }
    }

    /// The class this fault falls under.
    pub fn classify(self) -> (c: FaultClass)
        ensures
            c == self.class(),
    {
        match self {
            Fault::Fetch | Fault::Refused | Fault::MissingData | Fault::Worker | Fault::Report => {
                FaultClass::Remote
            },
            Fault::InsertTask | Fault::AppendLog | Fault::MarkComplete => FaultClass::Storage,
            Fault::Unexpected => FaultClass::Protocol,
        }
    }

    /// The words that open the message of a fault.
    pub open spec fn headline(self) -> Seq<char> {
        match self {
            Fault::Fetch => "数据获取失败: "@,
            Fault::Refused => "数据获取失败: "@,
            Fault::MissingData => "数据获取失败: 响应体中没有 'data' 字段"@,
            Fault::InsertTask => "数据库插入失败: "@,
            Fault::Worker => "请求后台服务失败: "@,
            Fault::AppendLog => "日志插入失败: "@,
            Fault::Report => "更新任务状态失败: "@,
            Fault::MarkComplete => "更新任务状态失败: "@,
            Fault::Unexpected => "任务调度状态异常"@,
        }
    }
}

/// The failure that ended a dispatch cycle: what failed, and what the
/// failing party said.
#[derive(Debug, PartialEq)]
pub struct DispatchError {
    pub fault: Fault,
    pub detail: String,
}

/// The model of a [`DispatchError`].
pub struct DispatchErrorView {
    pub fault: Fault,
    pub detail: Seq<char>,
}

impl View for DispatchError {
    type V = DispatchErrorView;

    open spec fn view(&self) -> DispatchErrorView {
        DispatchErrorView { fault: self.fault, detail: self.detail@ }
    }
}

impl DispatchErrorView {
    /// The message shown for the failure.
    pub open spec fn message(self) -> Seq<char> {
        self.fault.headline() + self.detail
    }
}

impl DispatchError {
    /// The message shown for the failure.
    pub fn message(&self) -> (m: String)
        ensures
            m@ == self@.message(),
    {
        let head = match self.fault {
            Fault::Fetch => "数据获取失败: ",
            Fault::Refused => "数据获取失败: ",
            Fault::MissingData => "数据获取失败: 响应体中没有 'data' 字段",
            Fault::InsertTask => "数据库插入失败: ",
            Fault::Worker => "请求后台服务失败: ",
            Fault::AppendLog => "日志插入失败: ",
            Fault::Report => "更新任务状态失败: ",
            Fault::MarkComplete => "更新任务状态失败: ",
            Fault::Unexpected => "任务调度状态异常",
        };
        String::from_str(head).concat(self.detail.as_str())
    }
}

/// What is said at the end of a cycle that went through: how many items
/// were completed.
pub open spec fn summary_text(completed: nat) -> Seq<char> {
    "任务执行完成, 共插入 "@ + decimal(completed) + " 条任务"@
}

/// What is said at the end of a cycle that went through.
pub fn summary(completed: usize) -> (text: String)
    ensures
        text@ == summary_text(completed as nat),
{
    let count = decimal_text(completed);
    String::from_str("任务执行完成, 共插入 ").concat(count.as_str()).concat(" 条任务")
}

/// One thing for the driver to do.
#[derive(Debug, PartialEq)]
pub enum Action {
    /// Fetch the pending items from the remote source.
    Fetch,
    /// Insert the task row given here.
    InsertTask(Task),
    /// Post this field map to the worker.
    CallWorker(Json),
    /// Append the log row given here.
    AppendLog(TaskLog),
    /// Mark the task with this id complete.
    MarkComplete(String),
    /// Tell the remote source how the row with this id went.
    Report(String, ReportFlag),
    /// The cycle is over: the number of items completed, or the failure.
    Finish(Result<usize, DispatchError>),
}

/// The model of an [`Action`].
pub enum ActionView {
    Fetch,
    InsertTask(TaskView),
    CallWorker(JsonView),
    AppendLog(TaskLogView),
    MarkComplete(Seq<char>),
    Report(Seq<char>, ReportFlag),
    Finish(Result<nat, DispatchErrorView>),
}

impl View for Action {
    type V = ActionView;

    open spec fn view(&self) -> ActionView {
        match self {
            Action::Fetch => ActionView::Fetch,
            Action::InsertTask(task) => ActionView::InsertTask(task@),
            Action::CallWorker(fields) => ActionView::CallWorker(fields@),
            Action::AppendLog(log) => ActionView::AppendLog(log@),
            Action::MarkComplete(task_id) => ActionView::MarkComplete(task_id@),
            Action::Report(row_id, flag) => ActionView::Report(row_id@, *flag),
            Action::Finish(Ok(n)) => ActionView::Finish(Ok(*n as nat)),
            Action::Finish(Err(e)) => ActionView::Finish(Err(e@)),
        }
    }
}

/// The models of a list of actions.
pub open spec fn action_views(actions: Seq<Action>) -> Seq<ActionView> {
    actions.map_values(|a: Action| a@)
}

/// How an action went.
#[derive(Debug, PartialEq)]
pub enum Event {
    /// The action succeeded and has nothing to return.
    Done,
    /// The fetch succeeded with this answer.
    Envelope(Json),
    /// The worker answered with this body.
    Reply(String),
    /// The action failed; the text says why.
    Failed(String),
}

/// The model of an [`Event`].
pub enum EventView {
    Done,
    Envelope(JsonView),
    Reply(Seq<char>),
    Failed(Seq<char>),
}

impl View for Event {
    type V = EventView;

    open spec fn view(&self) -> EventView {
        match self {
            Event::Done => EventView::Done,
            Event::Envelope(envelope) => EventView::Envelope(envelope@),
            Event::Reply(body) => EventView::Reply(body@),
            Event::Failed(detail) => EventView::Failed(detail@),
        }
    }
}

} // verus!
