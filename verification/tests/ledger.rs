use task_dispatch::facade::{get_task_list, get_task_logs, show_time, LogRow, TaskRow};
use task_dispatch::rank::rank;
use task_dispatch::store::{Task, TaskLog, TaskStatus, TaskStore};
use task_dispatch::text::{
    char_is_space, chars_occur, chars_of, chars_precede, contains_text, decimal_text, text_of,
};

fn task(id: &str, run_time: &str, sku: &str, module: &str) -> Task {
    Task {
        task_id: id.to_string(),
        run_time: run_time.to_string(),
        sku: sku.to_string(),
        module: module.to_string(),
        create_time: String::new(),
        status: TaskStatus::Pending,
    }
}

fn log(task_id: &str, log_time: &str, message: &str) -> TaskLog {
    TaskLog {
        task_id: task_id.to_string(),
        log_time: log_time.to_string(),
        message: message.to_string(),
    }
}

fn ids(tasks: &[Task]) -> Vec<&str> {
    tasks.iter().map(|t| t.task_id.as_str()).collect()
}

fn sample() -> TaskStore {
    let mut store = TaskStore::new();
    store.insert_task(task("t1", "2024-05-01T08:00:00+08:00", "AB-100", "poster"));
    store.insert_task(task("t2", "2024-05-03T08:00:00+08:00", "AB-200", "banner"));
    store.insert_task(task("t3", "2024-05-02T08:00:00+08:00", "CD-100", "poster-wide"));
    store.insert_task(task("t4", "2024-05-02T08:00:00+08:00", "ab-300", "Poster"));
    store
}

#[test]
fn a_new_ledger_is_empty() {
    let store = TaskStore::new();
    assert!(store.tasks.is_empty());
    assert!(store.logs.is_empty());
    assert!(store.list_tasks(None, None).is_empty());
    assert!(store.list_logs("t1").is_empty());
}

#[test]
fn all_tasks_are_listed_the_latest_run_first() {
    let store = sample();
    let listed = store.list_tasks(None, None);
    assert_eq!(ids(&listed), ["t2", "t3", "t4", "t1"]);
    // the ledger itself keeps the order of writing
    assert_eq!(ids(&store.tasks), ["t1", "t2", "t3", "t4"]);
}

#[test]
fn filters_are_substrings_and_tell_upper_from_lower_case() {
    let store = sample();
    assert_eq!(ids(&store.list_tasks(Some("AB"), None)), ["t2", "t1"]);
    assert_eq!(ids(&store.list_tasks(Some("ab"), None)), ["t4"]);
    assert_eq!(ids(&store.list_tasks(Some("100"), None)), ["t3", "t1"]);
    assert_eq!(ids(&store.list_tasks(None, Some("poster"))), ["t3", "t1"]);
    assert_eq!(ids(&store.list_tasks(Some("100"), Some("wide"))), ["t3"]);
    assert_eq!(ids(&store.list_tasks(Some(""), Some(""))), ["t2", "t3", "t4", "t1"]);
    assert!(store.list_tasks(Some("AB-1000"), None).is_empty());
    assert!(store.list_tasks(Some("%"), None).is_empty());
    assert!(store.list_tasks(Some("A_-100"), None).is_empty());
}

#[test]
fn a_task_just_written_is_found_by_its_sku() {
    let mut store = sample();
    let written = task("t9", "2024-05-09T08:00:00+08:00", "ZZ-777", "flyer");
    store.insert_task(written.duplicate());
    let listed = store.list_tasks(Some("ZZ-777"), None);
    assert_eq!(listed, [written]);
}

#[test]
fn a_task_whose_sku_lies_in_another_sku_is_not_listed_alone() {
    let mut store = TaskStore::new();
    store.insert_task(task("old", "2024-05-01T08:00:00+08:00", "A12", "m"));
    store.insert_task(task("new", "2024-05-02T08:00:00+08:00", "A1", "m"));
    assert_eq!(ids(&store.list_tasks(Some("A1"), None)), ["new", "old"]);
}

#[test]
fn marking_complete_changes_that_task_only() {
    let mut store = sample();
    store.mark_task_complete("t3");
    let states: Vec<TaskStatus> = store.tasks.iter().map(|t| t.status).collect();
    assert_eq!(
        states,
        [TaskStatus::Pending, TaskStatus::Pending, TaskStatus::Completed, TaskStatus::Pending]
    );
    assert_eq!(store.tasks[2], Task { status: TaskStatus::Completed, ..task("t3", "2024-05-02T08:00:00+08:00", "CD-100", "poster-wide") });

    // an identifier that no task has changes nothing
    let before: Vec<Task> = store.tasks.iter().map(|t| t.duplicate()).collect();
    store.mark_task_complete("nobody");
    assert_eq!(store.tasks, before);

    // marking twice is marking once
    store.mark_task_complete("t3");
    assert_eq!(store.tasks, before);
}

#[test]
fn logs_are_listed_by_task_the_earliest_first() {
    let mut store = sample();
    store.append_log(log("t1", "2024-05-01 08:00:03", "third"));
    store.append_log(log("t2", "2024-05-01 08:00:00", "other task"));
    store.append_log(log("t1", "2024-05-01 08:00:01", "first"));
    store.append_log(log("t1", "2024-05-01 08:00:02", "second"));
    store.append_log(log("t1", "2024-05-01 08:00:02", "second again"));

    let messages: Vec<String> = store.list_logs("t1").into_iter().map(|l| l.message).collect();
    assert_eq!(messages, ["first", "second", "second again", "third"]);
    let messages: Vec<String> = store.list_logs("t2").into_iter().map(|l| l.message).collect();
    assert_eq!(messages, ["other task"]);
    assert!(store.list_logs("t3").is_empty());
    assert_eq!(store.logs.len(), 5);
}

#[test]
fn rows_can_be_loaded_into_a_ledger() {
    let store = TaskStore::from_rows(
        vec![task("a", "2", "s", "m"), task("b", "1", "s", "m")],
        vec![log("a", "t", "m")],
    );
    assert_eq!(ids(&store.list_tasks(None, None)), ["a", "b"]);
    assert_eq!(store.list_logs("a").len(), 1);
}

#[test]
fn ranking_is_by_key_and_keeps_equal_keys_in_place() {
    let keys: Vec<Vec<char>> = ["b", "a", "c", "a", "", "ab"].iter().map(|k| chars_of(k)).collect();
    assert_eq!(rank(&keys, false), [4, 1, 3, 5, 0, 2]);
    assert_eq!(rank(&keys, true), [2, 0, 5, 1, 3, 4]);
    assert_eq!(rank(&Vec::new(), true), Vec::<usize>::new());
}

#[test]
fn tasks_are_shown_with_short_times_and_numbers_for_states() {
    let mut store = sample();
    store.mark_task_complete("t2");
    let rows = get_task_list(&store, Some("AB"), None);
    assert_eq!(
        rows,
        [
            TaskRow {
                task_id: "t2".to_string(),
                run_time: "2024-05-03 08:00:00".to_string(),
                sku: "AB-200".to_string(),
                module: "banner".to_string(),
                status: 1,
            },
            TaskRow {
                task_id: "t1".to_string(),
                run_time: "2024-05-01 08:00:00".to_string(),
                sku: "AB-100".to_string(),
                module: "poster".to_string(),
                status: 0,
            },
        ]
    );
    assert_eq!(get_task_list(&store, None, None).len(), 4);
    assert_eq!(TaskStatus::Pending.to_code(), 0);
    assert_eq!(TaskStatus::Completed.to_code(), 1);
}

#[test]
fn logs_are_shown_as_time_and_message() {
    let mut store = TaskStore::new();
    store.append_log(log("t1", "b", "second"));
    store.append_log(log("t1", "a", "first"));
    assert_eq!(
        get_task_logs(&store, "t1"),
        [
            LogRow { log_time: "a".to_string(), message: "first".to_string() },
            LogRow { log_time: "b".to_string(), message: "second".to_string() },
        ]
    );
    assert!(get_task_logs(&store, "t2").is_empty());
}

#[test]
fn times_are_cut_to_the_second_and_lose_their_t() {
    assert_eq!(show_time("2024-05-01T10:20:30.123456+08:00"), "2024-05-01 10:20:30");
    assert_eq!(show_time("2024-05-01T10:20:30"), "2024-05-01 10:20:30");
    assert_eq!(show_time("TimeT"), " ime ");
    assert_eq!(show_time(""), "");
    // nineteen characters, not nineteen bytes
    assert_eq!(show_time("二〇二四年五月一日T十时二十分三十秒整点整"), "二〇二四年五月一日 十时二十分三十秒整");
}

#[test]
fn texts_are_ordered_by_code_point() {
    let before = |a: &str, b: &str| chars_precede(&chars_of(a), &chars_of(b));
    assert!(before("a", "b"));
    assert!(!before("b", "a"));
    assert!(!before("a", "a"));
    assert!(before("", "a"));
    assert!(!before("a", ""));
    assert!(!before("", ""));
    assert!(before("ab", "abc"));
    assert!(before("Z", "a"));
    assert!(before("z", "é"));
    assert!(before("2024-05-01T08", "2024-05-01T09"));
    assert!(before("\u{ffff}", "\u{10000}"));
}

#[test]
fn substrings_are_found_anywhere() {
    assert!(contains_text("hello world", "o w"));
    assert!(contains_text("hello", "hello"));
    assert!(contains_text("hello", ""));
    assert!(contains_text("", ""));
    assert!(!contains_text("", "a"));
    assert!(!contains_text("hello", "hello!"));
    assert!(!contains_text("hello", "World"));
    assert!(contains_text("aaab", "aab"));
    assert!(contains_text("调用PS模版", "PS模"));
    assert!(chars_occur(&chars_of("b"), &chars_of("abc")));
}

#[test]
fn characters_and_numbers_become_text() {
    assert_eq!(chars_of("aé中"), vec!['a', 'é', '中']);
    assert_eq!(text_of(&vec!['a', 'é', '中']), "aé中");
    assert_eq!(text_of(&Vec::new()), "");
    assert_eq!(decimal_text(0), "0");
    assert_eq!(decimal_text(9), "9");
    assert_eq!(decimal_text(10), "10");
    assert_eq!(decimal_text(4096), "4096");
    assert_eq!(decimal_text(usize::MAX), usize::MAX.to_string());
    for c in [' ', '\t', '\n', '\u{b}', '\u{c}', '\r', '\u{85}', '\u{a0}', '\u{1680}', '\u{2003}', '\u{2028}', '\u{2029}', '\u{202f}', '\u{205f}', '\u{3000}'] {
        assert!(char_is_space(c));
        assert!(c.is_whitespace());
    }
    for c in ['a', '0', '*', '\u{200b}', '\u{feff}', '\u{1f}', '\u{e}'] {
        assert!(!char_is_space(c));
        assert!(!c.is_whitespace());
    }
}
