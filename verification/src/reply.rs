//! The worker's answer to a call, and what is done about it.

use crate::action::{action_views, Action, ActionView, ReportFlag};
use crate::json::{lemma_views, parse_json, text_model, views, Json, JsonView};
use crate::store::{TaskLog, TaskLogView};
use std::collections::VecDeque;
use vstd::prelude::*;
use vstd::string::StringExecFns;

verus! {

/// What a worker's answer is read as: the document in the body, or an
/// empty object where the body is no JSON document.
pub open spec fn reply_of(body: Seq<char>) -> JsonView {
    match text_model(body) {
        Some(reply) => reply,
        None => JsonView::Object(Seq::empty()),
    }
}

/// Whether a worker's answer reports a failure: its `status` is the string
/// `error`.
pub open spec fn is_error_reply(reply: JsonView) -> bool {
    reply.get("status"@) matches Some(JsonView::Str(status)) && status == "error"@
}

/// The one log row written for an answer that reports a failure.
pub open spec fn failure_log(task_id: Seq<char>, reply: JsonView, now: Seq<char>) -> TaskLogView {
    TaskLogView {
        task_id,
        log_time: now,
        message: "任务执行失败: "@ + reply.str_or("message"@, "未知错误"@),
    }
}

/// The log row for one entry of an answer's `logs`: a pair of a time and a
/// message.
pub open spec fn entry_log(task_id: Seq<char>, entry: JsonView) -> TaskLogView {
    TaskLogView {
        task_id,
        log_time: entry.text_at(0, ""@),
        message: entry.text_at(1, "无日志信息"@),
    }
}

/// The entries of an answer's `logs`; none where there is no such array.
pub open spec fn log_entries(reply: JsonView) -> Seq<JsonView> {
    match reply.get("logs"@) {
        Some(JsonView::Array(entries)) => entries,
        _ => Seq::empty(),
    }
}

/// What is done about a worker's answer, in order.
///
/// An answer that reports a failure gets one log row and a `No` report.
/// Any other answer gets one log row for each entry of its `logs`, in their
/// order; then the task is marked complete and `Yes` is reported.
pub open spec fn reply_script(
    task_id: Seq<char>,
    row_id: Seq<char>,
    reply: JsonView,
    now: Seq<char>,
) -> Seq<ActionView> {
    if is_error_reply(reply) {
        seq![
            ActionView::AppendLog(failure_log(task_id, reply, now)),
            ActionView::Report(row_id, ReportFlag::No),
        ]
    } else {
        log_entries(reply).map_values(|entry: JsonView| ActionView::AppendLog(entry_log(task_id, entry)))
            + seq![ActionView::MarkComplete(task_id), ActionView::Report(row_id, ReportFlag::Yes)]
    }
}

/// Reads a worker's answer.
pub fn read_reply(body: &str) -> (reply: Json)
    ensures
        reply@ == reply_of(body@),
{
    match parse_json(body) {
        Some(reply) => reply,
        None => Json::Object(Vec::new()),
    }
}

/// Whether a worker's answer reports a failure.
pub fn reply_reports_error(reply: &Json) -> (r: bool)
    ensures
        r == is_error_reply(reply@),
{
    match reply.get("status") {
        Some(Json::Str(status)) => status.as_str().eq("error"),
        _ => false,
    }
}

/// Plans what is done about a worker's answer; see [`reply_script`].
pub fn plan_reply(task_id: &str, row_id: &str, reply: &Json, now: String) -> (script: VecDeque<
    Action,
>)
    ensures
        action_views(script@) == reply_script(task_id@, row_id@, reply@, now@),
{
    let mut script: VecDeque<Action> = VecDeque::new();
    if reply_reports_error(reply) {
        let message = String::from_str("任务执行失败: ").concat(reply.str_or("message", "未知错误"));
        script.push_back(
            Action::AppendLog(
                TaskLog { task_id: String::from_str(task_id), log_time: now, message },
            ),
        );
        script.push_back(Action::Report(String::from_str(row_id), ReportFlag::No));
        proof {
            assert(action_views(script@) =~= reply_script(task_id@, row_id@, reply@, now@));
        }
        script
    } else {
        let ghost entries = log_entries(reply@);
        let ghost row = |entry: JsonView| ActionView::AppendLog(entry_log(task_id@, entry));
        match reply.get("logs") {
            Some(Json::Array(logs)) => {
                proof {
                    lemma_views(logs@);
                }
                let mut i: usize = 0;
                while i < logs.len()
                    invariant
                        i <= logs.len(),
                        entries == views(logs@),
                        entries.len() == logs.len(),
                        row == |entry: JsonView| ActionView::AppendLog(entry_log(task_id@, entry)),
                        action_views(script@) == entries.take(i as int).map_values(row),
                    decreases logs.len() - i,
                {
                    let entry = &logs[i];
                    let log = TaskLog {
                        task_id: String::from_str(task_id),
                        log_time: String::from_str(entry.text_at(0, "")),
                        message: String::from_str(entry.text_at(1, "无日志信息")),
                    };
                    proof {
                        lemma_views(logs@);
                        assert(entries[i as int] == entry@);
                        assert(entries.take(i as int + 1).map_values(row) =~= entries.take(
                            i as int,
                        ).map_values(row).push(row(entries[i as int])));
                    }
                    let ghost before = action_views(script@);
                    let ghost written = ActionView::AppendLog(log@);
                    script.push_back(Action::AppendLog(log));
                    proof {
                        assert(action_views(script@) =~= before.push(written));
                    }
                    i += 1;
                }
                proof {
                    assert(entries.take(entries.len() as int) =~= entries);
                }
            },
            _ => {
                proof {
                    assert(action_views(script@) =~= entries.map_values(row));
                }
            },
        }
        let ghost logged = action_views(script@);
        script.push_back(Action::MarkComplete(String::from_str(task_id)));
        script.push_back(Action::Report(String::from_str(row_id), ReportFlag::Yes));
        proof {
            assert(action_views(script@) =~= logged + seq![
                ActionView::MarkComplete(task_id@),
                ActionView::Report(row_id@, ReportFlag::Yes),
            ]);
        }
        script
    }
}

} // verus!
