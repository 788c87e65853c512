use task_dispatch::schedule::{count_fields, normalize_cron};

#[test]
fn five_fields_get_a_seconds_field() {
    assert_eq!(normalize_cron("*/5 * * * *"), "0 */5 * * * *");
    assert_eq!(normalize_cron("0 12 * * 1-5"), "0 0 12 * * 1-5");
}

#[test]
fn other_field_counts_pass_through_unchanged() {
    assert_eq!(normalize_cron("0 */5 * * * *"), "0 */5 * * * *");
    assert_eq!(normalize_cron("* * * *"), "* * * *");
    assert_eq!(normalize_cron(""), "");
    assert_eq!(normalize_cron("0 0 0 1 1 * 2030"), "0 0 0 1 1 * 2030");
    assert_eq!(normalize_cron("not a cron"), "not a cron");
}

#[test]
fn fields_are_separated_by_any_white_space() {
    assert_eq!(count_fields("  a\tb \n c  "), 3);
    assert_eq!(count_fields("a\u{3000}b"), 2);
    assert_eq!(count_fields("   "), 0);
    assert_eq!(normalize_cron(" 1  2\t3 4 5 "), "0  1  2\t3 4 5 ");
}
