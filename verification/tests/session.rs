use junit_parser::handle_key;
use junit_parser::parse_str;
use junit_parser::truncate_str;
use junit_parser::App;
use junit_parser::FileReport;
use junit_parser::Key;
use junit_parser::KeyPress;
use junit_parser::View;

fn small_report(tests: u64, failures: u64) -> FileReport {
    let xml = format!(
        "<testsuites><testsuite name=\"a\" tests=\"{}\" failures=\"{}\"><testcase name=\"t1\"/><testcase name=\"t2\"/></testsuite><testsuite name=\"b\" tests=\"1\"><testcase name=\"u\"/></testsuite></testsuites>",
        tests, failures
    );
    FileReport {
        filename: "report.xml".to_string(),
        data: parse_str(&xml).unwrap(),
    }
}

fn key(k: Key) -> KeyPress {
    KeyPress { key: k, ctrl: false }
}

#[test]
fn new_session_starts_at_the_top() {
    let app = App::new(vec![small_report(3, 1)]);
    assert_eq!(app.selected_file, 0);
    assert_eq!(app.selected_suite, 0);
    assert_eq!(app.selected_test, 0);
    assert_eq!(app.view, View::SuiteList);
    assert!(!app.should_quit);
    assert!(!app.multi_file);
    let two = App::new(vec![small_report(3, 1), small_report(2, 0)]);
    assert!(two.multi_file);
}

#[test]
fn suite_and_test_counts_follow_the_cursor() {
    let app = App::new(vec![small_report(3, 1)]);
    assert_eq!(app.suite_count(), 2);
    assert_eq!(app.test_count(), 2);
    assert_eq!(app.current_file().filename, "report.xml");
}

#[test]
fn selection_stays_in_bounds() {
    let mut app = App::new(vec![small_report(3, 1)]);
    app.select_next();
    assert_eq!(app.selected_suite, 1);
    app.select_next();
    assert_eq!(app.selected_suite, 1);
    app.select_prev();
    assert_eq!(app.selected_suite, 0);
    app.select_prev();
    assert_eq!(app.selected_suite, 0);
    app.select_last();
    assert_eq!(app.selected_suite, 1);
    app.select_first();
    assert_eq!(app.selected_suite, 0);
}

#[test]
fn enter_and_back_walk_the_panes() {
    let mut app = App::new(vec![small_report(3, 1)]);
    app.enter();
    assert_eq!(app.view, View::TestList);
    app.enter();
    assert_eq!(app.view, View::TestDetail);
    app.enter();
    assert_eq!(app.view, View::TestDetail);
    app.go_back();
    assert_eq!(app.view, View::TestList);
    app.go_back();
    assert_eq!(app.view, View::SuiteList);
    app.go_back();
    assert_eq!(app.view, View::SuiteList);
}

#[test]
fn file_cycling_resets_the_cursor() {
    let mut app = App::new(vec![small_report(3, 1), small_report(2, 0)]);
    app.select_next();
    app.enter();
    app.next_file();
    assert_eq!(app.selected_file, 1);
    assert_eq!(app.selected_suite, 0);
    assert_eq!(app.view, View::SuiteList);
    app.next_file();
    assert_eq!(app.selected_file, 0);
    app.prev_file();
    assert_eq!(app.selected_file, 1);
    let mut single = App::new(vec![small_report(3, 1)]);
    single.next_file();
    assert_eq!(single.selected_file, 0);
}

#[test]
fn paging_moves_ten_steps() {
    let mut app = App::new(vec![small_report(3, 1)]);
    app.enter();
    app.enter();
    assert_eq!(app.view, View::TestDetail);
    app.page_down();
    assert_eq!(app.scroll_offset, 10);
    app.page_up();
    assert_eq!(app.scroll_offset, 0);
    app.page_up();
    assert_eq!(app.scroll_offset, 0);
}

#[test]
fn keys_drive_the_session() {
    let mut app = App::new(vec![small_report(3, 1), small_report(2, 0)]);
    handle_key(&mut app, key(Key::Down));
    assert_eq!(app.selected_suite, 1);
    handle_key(&mut app, key(Key::Char('k')));
    assert_eq!(app.selected_suite, 0);
    handle_key(&mut app, key(Key::Enter));
    assert_eq!(app.view, View::TestList);
    handle_key(&mut app, key(Key::Esc));
    assert_eq!(app.view, View::SuiteList);
    handle_key(&mut app, key(Key::Tab));
    assert_eq!(app.selected_file, 1);
    handle_key(&mut app, key(Key::BackTab));
    assert_eq!(app.selected_file, 0);
    handle_key(&mut app, key(Key::Char('x')));
    assert!(!app.should_quit);
    handle_key(&mut app, KeyPress { key: Key::Char('c'), ctrl: true });
    assert!(app.should_quit);
    let mut other = App::new(vec![small_report(3, 1)]);
    handle_key(&mut other, key(Key::Char('q')));
    assert!(other.should_quit);
}

#[test]
fn aggregates_add_across_files() {
    let app = App::new(vec![small_report(10, 2), small_report(5, 1)]);
    assert_eq!(app.aggregate_tests(), 10 + 1 + 5 + 1);
    assert_eq!(app.aggregate_failures(), 3);
    assert_eq!(app.aggregate_errors(), 0);
    assert_eq!(app.aggregate_skipped(), 0);
    assert_eq!(app.aggregate_passed(), (10 - 2 + 1) + (5 - 1 + 1));
}

#[test]
fn truncate_keeps_short_names() {
    assert_eq!(truncate_str("short", 50), "short");
    assert_eq!(truncate_str("exactly", 7), "exactly");
}

#[test]
fn truncate_cuts_long_names() {
    assert_eq!(truncate_str("abcdefghij", 8), "abcde...");
    assert_eq!(truncate_str("abcdefghij", 3), "...");
    assert_eq!(truncate_str("abcdefghij", 2), "...");
}
