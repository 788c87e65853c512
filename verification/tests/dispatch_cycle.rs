use task_dispatch::action::{
    summary, Action, DispatchError, Event, Fault, FaultClass, ReportFlag,
};
use task_dispatch::dispatch::{Dispatcher, Stamp};
use task_dispatch::item::{envelope_reports_failure, read_item, take_items};
use task_dispatch::reply::{plan_reply, read_reply, reply_reports_error};
use task_dispatch::json::{parse_json, Json};
use task_dispatch::store::{Task, TaskLog, TaskStatus, TaskStore};

/// Everything outside the dispatcher, as a test sees it.
struct World {
    store: TaskStore,
    worker_calls: Vec<Json>,
    reports: Vec<(String, ReportFlag)>,
    actions: Vec<&'static str>,
}

fn stamp(n: usize) -> Stamp {
    Stamp { task_id: format!("task-{}", n), now: format!("2024-05-01T10:00:{:02}+08:00", n) }
}

fn envelope(text: &str) -> Json {
    parse_json(text).expect("the test's envelope is JSON")
}

/// Runs one cycle: the fetch gives `fetched`, the worker answers its calls
/// with `replies` in turn, and every other action succeeds.
fn run_cycle(fetched: Event, replies: &[&str]) -> (World, Result<usize, DispatchError>) {
    let mut world = World {
        store: TaskStore::new(),
        worker_calls: Vec::new(),
        reports: Vec::new(),
        actions: Vec::new(),
    };
    let mut fetched = Some(fetched);
    let mut steps = 0;
    let (mut dispatcher, mut action) = Dispatcher::start();
    loop {
        steps += 1;
        assert!(steps < 1000, "the cycle does not end");
        let event = match action {
            Action::Fetch => {
                world.actions.push("fetch");
                fetched.take().expect("the items are fetched once")
            }
            Action::InsertTask(task) => {
                world.actions.push("insert");
                world.store.insert_task(task);
                Event::Done
            }
            Action::CallWorker(fields) => {
                world.actions.push("call");
                let reply = replies[world.worker_calls.len()];
                world.worker_calls.push(fields);
                Event::Reply(reply.to_string())
            }
            Action::AppendLog(log) => {
                world.actions.push("log");
                world.store.append_log(log);
                Event::Done
            }
            Action::MarkComplete(task_id) => {
                world.actions.push("complete");
                world.store.mark_task_complete(&task_id);
                Event::Done
            }
            Action::Report(row_id, flag) => {
                world.actions.push("report");
                world.reports.push((row_id, flag));
                Event::Done
            }
            Action::Finish(result) => {
                assert!(dispatcher.is_over());
                return (world, result);
            }
        };
        assert!(!dispatcher.is_over());
        let (next, then) = dispatcher.step(event, stamp(steps));
        dispatcher = next;
        action = then;
    }
}

const ONE_ITEM: &str = r#"{"status":"Success","data":[
    {"id":"row-1","fields":{"SKU":"A1","调用PS模版":"tmplX","创建时间":"2024/04/30 09:00"}}]}"#;

#[test]
fn one_item_with_two_logs_completes() {
    let reply = r#"{"status":"ok","logs":[["t1","started"],["t2","done"]]}"#;
    let (world, result) = run_cycle(Event::Envelope(envelope(ONE_ITEM)), &[reply]);

    assert_eq!(result, Ok(1));
    assert_eq!(summary(1), "任务执行完成, 共插入 1 条任务");
    assert_eq!(world.actions, ["fetch", "insert", "call", "log", "log", "complete", "report"]);

    assert_eq!(world.store.tasks.len(), 1);
    let task = &world.store.tasks[0];
    assert_eq!(task.status, TaskStatus::Completed);
    assert_eq!(task.sku, "A1");
    assert_eq!(task.module, "tmplX");
    assert_eq!(task.create_time, "2024/04/30 09:00");
    assert_eq!(task.task_id, "task-1");
    assert_eq!(task.run_time, "2024-05-01T10:00:01+08:00");

    let logs: Vec<(&str, &str, &str)> = world
        .store
        .logs
        .iter()
        .map(|l| (l.task_id.as_str(), l.log_time.as_str(), l.message.as_str()))
        .collect();
    assert_eq!(logs, [("task-1", "t1", "started"), ("task-1", "t2", "done")]);

    assert_eq!(world.reports, [("row-1".to_string(), ReportFlag::Yes)]);
    assert_eq!(world.worker_calls.len(), 1);
    assert_eq!(world.worker_calls[0].str_or("SKU", ""), "A1");
    assert_eq!(world.worker_calls[0].str_or("调用PS模版", ""), "tmplX");
}

#[test]
fn an_item_without_sku_leaves_no_trace() {
    let fetched = r#"{"status":"Success","data":[{"id":"row-1","fields":{"SKU":"","调用PS模版":"tmplX"}}]}"#;
    let (world, result) = run_cycle(Event::Envelope(envelope(fetched)), &[]);

    assert_eq!(result, Ok(0));
    assert_eq!(summary(0), "任务执行完成, 共插入 0 条任务");
    assert!(world.store.tasks.is_empty());
    assert!(world.store.logs.is_empty());
    assert!(world.worker_calls.is_empty());
    assert!(world.reports.is_empty());
    assert_eq!(world.actions, ["fetch"]);
}

#[test]
fn an_item_without_module_or_without_fields_is_skipped() {
    let fetched = r#"{"data":[
        {"id":"a","fields":{"SKU":"A1"}},
        {"id":"b"},
        {"id":"c","fields":{"SKU":"A3","调用PS模版":7}},
        {"id":"d","fields":{"SKU":"A4","调用PS模版":"m"}}]}"#;
    let (world, result) = run_cycle(Event::Envelope(envelope(fetched)), &["{}"]);

    assert_eq!(result, Ok(1));
    assert_eq!(world.store.tasks.len(), 1);
    assert_eq!(world.store.tasks[0].sku, "A4");
    assert_eq!(world.store.tasks[0].create_time, "");
    assert_eq!(world.reports, [("d".to_string(), ReportFlag::Yes)]);
}

#[test]
fn a_worker_error_gives_one_log_and_a_no_report() {
    let reply = r#"{"status":"error","message":"layer missing","logs":[["t1","ignored"]]}"#;
    let (world, result) = run_cycle(Event::Envelope(envelope(ONE_ITEM)), &[reply]);

    assert_eq!(result, Ok(0));
    assert_eq!(world.actions, ["fetch", "insert", "call", "log", "report"]);
    assert_eq!(world.store.tasks.len(), 1);
    assert_eq!(world.store.tasks[0].status, TaskStatus::Pending);
    assert_eq!(world.store.logs.len(), 1);
    assert_eq!(world.store.logs[0].task_id, "task-1");
    assert_eq!(world.store.logs[0].message, "任务执行失败: layer missing");
    // the log is stamped with the time at which the answer came in
    assert_eq!(world.store.logs[0].log_time, "2024-05-01T10:00:03+08:00");
    assert_eq!(world.reports, [("row-1".to_string(), ReportFlag::No)]);
}

#[test]
fn a_worker_error_without_message_is_an_unknown_error() {
    let (world, result) = run_cycle(Event::Envelope(envelope(ONE_ITEM)), &[r#"{"status":"error"}"#]);
    assert_eq!(result, Ok(0));
    assert_eq!(world.store.logs[0].message, "任务执行失败: 未知错误");
}

#[test]
fn an_answer_that_is_no_json_counts_as_an_empty_answer() {
    let (world, result) = run_cycle(Event::Envelope(envelope(ONE_ITEM)), &["<html>busy</html>"]);
    assert_eq!(result, Ok(1));
    assert!(world.store.logs.is_empty());
    assert_eq!(world.store.tasks[0].status, TaskStatus::Completed);
    assert_eq!(world.reports, [("row-1".to_string(), ReportFlag::Yes)]);
}

#[test]
fn log_entries_that_lack_a_part_get_the_defaults() {
    let reply = r#"{"status":"done","logs":[["t1"],[5,"only message"],"loose",[]]}"#;
    let (world, result) = run_cycle(Event::Envelope(envelope(ONE_ITEM)), &[reply]);
    assert_eq!(result, Ok(1));
    let logs: Vec<(&str, &str)> =
        world.store.logs.iter().map(|l| (l.log_time.as_str(), l.message.as_str())).collect();
    assert_eq!(
        logs,
        [("t1", "无日志信息"), ("", "only message"), ("", "无日志信息"), ("", "无日志信息")]
    );
}

#[test]
fn items_are_worked_on_one_after_the_other() {
    let fetched = r#"{"data":[
        {"id":"r1","fields":{"SKU":"A1","调用PS模版":"m1"}},
        {"id":"r2","fields":{"SKU":"A2","调用PS模版":"m2"}},
        {"id":"r3","fields":{"SKU":"A3","调用PS模版":"m3"}}]}"#;
    let replies = [
        r#"{"status":"ok","logs":[["t","one"]]}"#,
        r#"{"status":"error","message":"no"}"#,
        r#"{"status":"ok"}"#,
    ];
    let (world, result) = run_cycle(Event::Envelope(envelope(fetched)), &replies);
    assert_eq!(result, Ok(2));
    assert_eq!(
        world.actions,
        [
            "fetch", "insert", "call", "log", "complete", "report", "insert", "call", "log",
            "report", "insert", "call", "complete", "report"
        ]
    );
    let skus: Vec<&str> = world.store.tasks.iter().map(|t| t.sku.as_str()).collect();
    assert_eq!(skus, ["A1", "A2", "A3"]);
    let states: Vec<TaskStatus> = world.store.tasks.iter().map(|t| t.status).collect();
    assert_eq!(states, [TaskStatus::Completed, TaskStatus::Pending, TaskStatus::Completed]);
    assert_eq!(
        world.reports,
        [
            ("r1".to_string(), ReportFlag::Yes),
            ("r2".to_string(), ReportFlag::No),
            ("r3".to_string(), ReportFlag::Yes)
        ]
    );
}

#[test]
fn a_fetch_that_fails_ends_the_cycle_with_nothing_written() {
    let (world, result) = run_cycle(Event::Failed("connection refused".to_string()), &[]);
    let error = result.unwrap_err();
    assert_eq!(error.fault, Fault::Fetch);
    assert_eq!(error.fault.classify(), FaultClass::Remote);
    assert_eq!(error.message(), "数据获取失败: connection refused");
    assert!(world.store.tasks.is_empty());
    assert_eq!(world.actions, ["fetch"]);
}

#[test]
fn an_answer_that_says_it_failed_ends_the_cycle() {
    for (text, said) in [
        (r#"{"status":"Error","message":"数据获取失败"}"#, "数据获取失败"),
        (r#"{"status":"Error","data":[{"id":"r","fields":{"SKU":"A","调用PS模版":"m"}}]}"#, ""),
        (r#"{"status":"Error","message":5}"#, ""),
    ] {
        assert!(envelope_reports_failure(&envelope(text)));
        let (world, result) = run_cycle(Event::Envelope(envelope(text)), &[]);
        let error = result.unwrap_err();
        assert_eq!(error, DispatchError { fault: Fault::Refused, detail: said.to_string() });
        assert_eq!(error.message(), format!("数据获取失败: {}", said));
        assert_eq!(error.fault.classify(), FaultClass::Remote);
        assert!(world.store.tasks.is_empty());
        assert_eq!(world.actions, ["fetch"]);
    }
    assert!(!envelope_reports_failure(&envelope(r#"{"status":"error"}"#)));
    assert!(!envelope_reports_failure(&envelope(r#"{"status":"Success"}"#)));
    assert!(!envelope_reports_failure(&envelope(r#"{"data":[]}"#)));
}

#[test]
fn an_answer_without_data_ends_the_cycle() {
    for text in [
        r#"{"status":"Success"}"#,
        r#"{"status":"Success","data":null}"#,
        r#"{"status":"Success","data":{"id":"x"}}"#,
        r#"[]"#,
    ] {
        let (world, result) = run_cycle(Event::Envelope(envelope(text)), &[]);
        let error = result.unwrap_err();
        assert_eq!(error.fault, Fault::MissingData);
        assert_eq!(error.message(), "数据获取失败: 响应体中没有 'data' 字段");
        assert!(world.store.tasks.is_empty());
    }
}

#[test]
fn an_empty_list_of_items_completes_nothing() {
    let (world, result) = run_cycle(Event::Envelope(envelope(r#"{"data":[]}"#)), &[]);
    assert_eq!(result, Ok(0));
    assert_eq!(world.actions, ["fetch"]);
}

/// Steps a fresh cycle up to the action at position `upto`, every action
/// before it succeeding, and then lets that action fail.
fn fail_at(upto: usize, reply: &str) -> (Vec<&'static str>, DispatchError) {
    let mut seen = Vec::new();
    let (mut dispatcher, mut action) = Dispatcher::start();
    for n in 0.. {
        let name = match &action {
            Action::Fetch => "fetch",
            Action::InsertTask(_) => "insert",
            Action::CallWorker(_) => "call",
            Action::AppendLog(_) => "log",
            Action::MarkComplete(_) => "complete",
            Action::Report(_, _) => "report",
            Action::Finish(_) => "finish",
        };
        seen.push(name);
        let event = if n == upto {
            Event::Failed("it broke".to_string())
        } else {
            match action {
                Action::Fetch => Event::Envelope(envelope(ONE_ITEM)),
                Action::CallWorker(_) => Event::Reply(reply.to_string()),
                Action::Finish(_) => panic!("the cycle ended before step {}", upto),
                _ => Event::Done,
            }
        };
        let (next, then) = dispatcher.step(event, stamp(n));
        dispatcher = next;
        action = then;
        if n == upto {
            break;
        }
    }
    match action {
        Action::Finish(Err(error)) => {
            assert!(dispatcher.is_over());
            (seen, error)
        }
        other => panic!("the failure did not end the cycle: {:?}", other),
    }
}

#[test]
fn a_failure_of_any_action_ends_the_cycle_with_its_fault() {
    let good = r#"{"status":"ok","logs":[["t1","started"]]}"#;
    let bad = r#"{"status":"error","message":"m"}"#;

    let (seen, error) = fail_at(1, good);
    assert_eq!(seen, ["fetch", "insert"]);
    assert_eq!(error, DispatchError { fault: Fault::InsertTask, detail: "it broke".to_string() });
    assert_eq!(error.message(), "数据库插入失败: it broke");
    assert_eq!(error.fault.classify(), FaultClass::Storage);

    let (seen, error) = fail_at(2, good);
    assert_eq!(seen, ["fetch", "insert", "call"]);
    assert_eq!(error.fault, Fault::Worker);
    assert_eq!(error.message(), "请求后台服务失败: it broke");
    assert_eq!(error.fault.classify(), FaultClass::Remote);

    let (seen, error) = fail_at(3, good);
    assert_eq!(seen, ["fetch", "insert", "call", "log"]);
    assert_eq!(error.fault, Fault::AppendLog);
    assert_eq!(error.message(), "日志插入失败: it broke");

    let (seen, error) = fail_at(4, good);
    assert_eq!(seen, ["fetch", "insert", "call", "log", "complete"]);
    assert_eq!(error.fault, Fault::MarkComplete);
    assert_eq!(error.message(), "更新任务状态失败: it broke");
    assert_eq!(error.fault.classify(), FaultClass::Storage);

    let (seen, error) = fail_at(5, good);
    assert_eq!(seen, ["fetch", "insert", "call", "log", "complete", "report"]);
    assert_eq!(error.fault, Fault::Report);
    assert_eq!(error.message(), "更新任务状态失败: it broke");
    assert_eq!(error.fault.classify(), FaultClass::Remote);

    let (seen, error) = fail_at(4, bad);
    assert_eq!(seen, ["fetch", "insert", "call", "log", "report"]);
    assert_eq!(error.fault, Fault::Report);
}

#[test]
fn an_event_that_answers_nothing_ends_the_cycle() {
    let (dispatcher, _) = Dispatcher::start();
    let (dispatcher, action) = dispatcher.step(Event::Done, stamp(0));
    match action {
        Action::Finish(Err(error)) => {
            assert_eq!(error.fault, Fault::Unexpected);
            assert_eq!(error.fault.classify(), FaultClass::Protocol);
            assert_eq!(error.message(), "任务调度状态异常");
        }
        other => panic!("unexpected action {:?}", other),
    }
    assert!(dispatcher.is_over());

    // a cycle that is over answers every event the same way
    let (dispatcher, action) = dispatcher.step(Event::Envelope(envelope(ONE_ITEM)), stamp(1));
    assert!(matches!(action, Action::Finish(Err(DispatchError { fault: Fault::Unexpected, .. }))));
    assert!(dispatcher.is_over());

    // a reply where a plain success is awaited
    let (dispatcher, _) = Dispatcher::start();
    let (dispatcher, action) = dispatcher.step(Event::Envelope(envelope(ONE_ITEM)), stamp(0));
    assert!(matches!(action, Action::InsertTask(_)));
    let (_, action) = dispatcher.step(Event::Reply("{}".to_string()), stamp(1));
    assert!(matches!(action, Action::Finish(Err(DispatchError { fault: Fault::Unexpected, .. }))));
}

#[test]
fn a_step_with_the_clock_at_hand_stamps_the_task() {
    let (dispatcher, _) = Dispatcher::start();
    let (dispatcher, first) = dispatcher.step_now(Event::Envelope(envelope(ONE_ITEM)));
    let first = match first {
        Action::InsertTask(task) => task,
        other => panic!("unexpected action {:?}", other),
    };
    assert_eq!(first.sku, "A1");
    assert_eq!(first.status, TaskStatus::Pending);
    assert_eq!(first.task_id.len(), 36);
    assert!(first.run_time.len() >= 25);
    assert_eq!(&first.run_time[10..11], "T");
    assert!(!dispatcher.is_over());

    let (other, _) = Dispatcher::start();
    let (_, second) = other.step_now(Event::Envelope(envelope(ONE_ITEM)));
    match second {
        Action::InsertTask(task) => assert_ne!(task.task_id, first.task_id),
        other => panic!("unexpected action {:?}", other),
    }

    let a = Stamp::fresh();
    let b = Stamp::fresh();
    assert_ne!(a.task_id, b.task_id);
    assert!(a.task_id < b.task_id);
}

#[test]
fn entries_are_read_field_by_field() {
    let raw = envelope(r#"{"id":"r9","fields":{"SKU":"S","调用PS模版":"M","创建时间":"c","extra":[1,2]}}"#);
    let item = read_item(raw).expect("an entry with fields");
    assert_eq!(item.row_id, "r9");
    assert_eq!(item.sku, "S");
    assert_eq!(item.module, "M");
    assert_eq!(item.create_time, "c");
    assert!(item.fields.get("extra").and_then(|e| e.as_array()).is_some());

    let no_id = read_item(envelope(r#"{"id":12,"fields":{"SKU":null}}"#)).unwrap();
    assert_eq!(no_id.row_id, "");
    assert_eq!(no_id.sku, "");
    assert_eq!(no_id.module, "");

    assert!(read_item(envelope(r#"{"id":"r"}"#)).is_none());
    assert!(read_item(envelope(r#"["fields"]"#)).is_none());

    assert_eq!(take_items(envelope(r#"{"data":[1,2,3]}"#)).map(|v| v.len()), Some(3));
    assert!(take_items(envelope(r#"{"data":"x"}"#)).is_none());
    assert!(take_items(envelope(r#"{}"#)).is_none());
}

#[test]
fn replies_are_planned_in_order() {
    let reply = read_reply(r#"{"status":"ok","logs":[["a","1"],["b","2"],["c","3"]]}"#);
    assert!(!reply_reports_error(&reply));
    let script: Vec<Action> = plan_reply("T", "R", &reply, "now".to_string()).into_iter().collect();
    let log = |time: &str, message: &str| {
        Action::AppendLog(TaskLog {
            task_id: "T".to_string(),
            log_time: time.to_string(),
            message: message.to_string(),
        })
    };
    assert_eq!(
        script,
        [
            log("a", "1"),
            log("b", "2"),
            log("c", "3"),
            Action::MarkComplete("T".to_string()),
            Action::Report("R".to_string(), ReportFlag::Yes),
        ]
    );

    let failed = read_reply(r#"{"status":"error","message":"why"}"#);
    assert!(reply_reports_error(&failed));
    let script: Vec<Action> =
        plan_reply("T", "R", &failed, "now".to_string()).into_iter().collect();
    assert_eq!(
        script,
        [log("now", "任务执行失败: why"), Action::Report("R".to_string(), ReportFlag::No)]
    );

    // only the string "error" is a failure
    assert!(!reply_reports_error(&read_reply(r#"{"status":"Error"}"#)));
    assert!(!reply_reports_error(&read_reply(r#"{"status":["error"]}"#)));
    assert!(!reply_reports_error(&read_reply("not json")));
    assert_eq!(read_reply("not json"), Json::Object(Vec::new()));
}

#[test]
fn flags_go_over_the_wire_in_the_sheet_s_words() {
    assert_eq!(ReportFlag::Yes.wire_value(), "是");
    assert_eq!(ReportFlag::No.wire_value(), "否");
}

#[test]
fn summaries_count_in_decimal() {
    assert_eq!(summary(7), "任务执行完成, 共插入 7 条任务");
    assert_eq!(summary(10), "任务执行完成, 共插入 10 条任务");
    assert_eq!(summary(120345), "任务执行完成, 共插入 120345 条任务");
}

#[test]
fn a_task_row_can_be_compared() {
    let task = |id: &str| Task {
        task_id: id.to_string(),
        run_time: "r".to_string(),
        sku: "s".to_string(),
        module: "m".to_string(),
        create_time: "c".to_string(),
        status: TaskStatus::Pending,
    };
    assert_eq!(task("a").duplicate(), task("a"));
    assert_ne!(task("a"), task("b"));
}

/// Whether a text has the form of a version 7 identifier: five groups of
/// hexadecimal digits in lower case, the third beginning with `7`.
fn reads_as_identifier(text: &str) -> bool {
    let s: Vec<char> = text.chars().collect();
    s.len() == 36
        && (0..36).all(|i| {
            if i == 8 || i == 13 || i == 18 || i == 23 {
                s[i] == '-'
            } else {
                matches!(s[i], '0'..='9' | 'a'..='f')
            }
        })
        && s[14] == '7'
}

/// Whether a text reads as a date and a time with an offset, the `T`
/// between date and time at position `t`.
fn reads_as_time_at(s: &[char], t: usize) -> bool {
    let n = s.len();
    let digit = |i: usize| s[i].is_ascii_digit();
    let sign = |i: usize| s[i] == '+' || s[i] == '-';
    t >= 10
        && t + 15 <= n
        && (0..t - 6).all(|i| digit(i) || (i == 0 && t > 10 && sign(i)))
        && s[t - 6] == '-'
        && digit(t - 5)
        && digit(t - 4)
        && s[t - 3] == '-'
        && digit(t - 2)
        && digit(t - 1)
        && s[t] == 'T'
        && digit(t + 1)
        && digit(t + 2)
        && s[t + 3] == ':'
        && digit(t + 4)
        && digit(t + 5)
        && s[t + 6] == ':'
        && digit(t + 7)
        && digit(t + 8)
        && (n == t + 15 || n == t + 19 || n == t + 22 || n == t + 25)
        && (n == t + 15 || s[t + 9] == '.')
        && (t + 10..n - 6).all(digit)
        && sign(n - 6)
        && digit(n - 5)
        && digit(n - 4)
        && s[n - 3] == ':'
        && digit(n - 2)
        && digit(n - 1)
}

fn reads_as_time(text: &str) -> bool {
    let s: Vec<char> = text.chars().collect();
    (0..s.len()).any(|t| reads_as_time_at(&s, t))
}

#[test]
fn a_fresh_stamp_has_an_identifier_and_a_time_of_the_known_forms() {
    for _ in 0..200 {
        let stamp = Stamp::fresh();
        assert!(reads_as_identifier(&stamp.task_id), "identifier {:?}", stamp.task_id);
        assert!(reads_as_time(&stamp.now), "time {:?}", stamp.now);
        // in our days the year has four digits
        assert_eq!(stamp.now.chars().nth(10), Some('T'));
    }
}

#[test]
fn the_forms_tell_texts_apart() {
    assert!(reads_as_identifier("018f3b2a-7c4d-7e21-9a0b-1234567890ab"));
    assert!(!reads_as_identifier("018f3b2a-7c4d-4e21-9a0b-1234567890ab"));
    assert!(!reads_as_identifier("018F3B2A-7C4D-7E21-9A0B-1234567890AB"));
    assert!(!reads_as_identifier("018f3b2a7c4d7e219a0b1234567890ab"));
    assert!(!reads_as_identifier(""));

    assert!(reads_as_time("2024-05-01T10:20:30+08:00"));
    assert!(reads_as_time("2024-05-01T10:20:30.123+08:00"));
    assert!(reads_as_time("2024-05-01T10:20:30.123456-03:30"));
    assert!(reads_as_time("2024-05-01T10:20:30.123456789+00:00"));
    assert!(reads_as_time("+12024-05-01T10:20:30+08:00"));
    assert!(reads_as_time("-0044-03-15T12:00:00+00:00"));
    assert!(!reads_as_time("2024-05-01T10:20:30Z"));
    assert!(!reads_as_time("2024-05-01 10:20:30+08:00"));
    assert!(!reads_as_time("2024-05-01T10:20:30.12+08:00"));
    assert!(!reads_as_time("2024-05-01T10:20+08:00"));
    assert!(!reads_as_time(""));
}
