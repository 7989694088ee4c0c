use awsm::ui::services::log_message::parse_log_message;
use awsm::app::Action;
use awsm::aws::cloudwatch::{format_epoch_ms, parse_insights_timestamp, LogEvent, LogGroupInfo};
use awsm::input::{KeyCode, KeyEvent, KeyModifiers};
use awsm::ui::services::cloudwatch::{classify_poll, shorten_group_name, CloudWatchView, InsightsPoll};

fn cw_key(code: KeyCode) -> KeyEvent {
    KeyEvent {
        code,
        modifiers: KeyModifiers { shift: false, control: false, alt: false, super_key: false, hyper: false, meta: false },
    }
}

fn cw_char(c: char) -> KeyEvent {
    cw_key(KeyCode::Char(c))
}

fn group(name: &str, bytes: i64) -> LogGroupInfo {
    LogGroupInfo { name: name.to_string(), arn: String::new(), stored_bytes: bytes, retention_days: None, created: String::new() }
}

fn events(n: usize) -> Vec<LogEvent> {
    (0..n).map(|i| LogEvent { timestamp: i as i64, message: format!("line {}", i) }).collect()
}

#[test]
fn groups_mark_twice_restores_marks() {
    let mut v = CloudWatchView::default();
    v.set_groups(vec![group("/aws/lambda/a", 1), group("/aws/lambda/b", 2)]);
    assert_eq!(v.handle_key(cw_char(' ')), Some(Action::NoOp));
    assert_eq!(v.selected_groups, vec!["/aws/lambda/a".to_string()]);
    assert_eq!(v.group_selected, 1);
    v.handle_key(cw_char('k'));
    v.handle_key(cw_char(' '));
    assert!(v.selected_groups.is_empty());
    v.handle_key(cw_char(' '));
    assert_eq!(v.handle_key(cw_key(KeyCode::Esc)), Some(Action::NoOp));
    assert!(v.selected_groups.is_empty());
}

#[test]
fn groups_sort_and_filter() {
    let mut v = CloudWatchView::default();
    v.set_groups(vec![group("b", 5), group("a", 9), group("c", 1)]);
    assert_eq!(v.filtered_groups(), vec![1, 0, 2]);
    v.handle_key(cw_char('s'));
    assert_eq!(v.filtered_groups(), vec![2, 0, 1]);
    v.handle_key(cw_char('x'));
    assert_eq!(v.filtered_groups(), vec![1, 0, 2]);
    v.handle_key(cw_char('S'));
    v.handle_key(cw_char('/'));
    v.handle_key(cw_char('b'));
    assert_eq!(v.filtered_groups(), vec![0]);
    v.handle_key(cw_key(KeyCode::Enter));
    assert!(!v.filtering);
    assert_eq!(v.filter, "b");
}

#[test]
fn search_popup_runs_with_a_pattern() {
    let mut v = CloudWatchView::default();
    v.set_groups(vec![group("g1", 1)]);
    v.handle_key(cw_char('f'));
    assert!(v.search_popup_open);
    assert_eq!(v.active_group, "g1");
    assert_eq!(v.handle_key(cw_char('r')), Some(Action::NoOp));
    v.handle_key(cw_char('i'));
    for c in "ERROR".chars() {
        v.handle_key(cw_char(c));
    }
    v.handle_key(cw_key(KeyCode::Enter));
    assert_eq!(v.search_pattern, "ERROR");
    v.handle_key(cw_char('j'));
    v.handle_key(cw_char('i'));
    v.handle_key(cw_key(KeyCode::Backspace));
    v.handle_key(cw_char('x'));
    v.handle_key(cw_char('2'));
    v.handle_key(cw_char('.'));
    v.handle_key(cw_char('5'));
    v.handle_key(cw_key(KeyCode::Esc));
    assert_eq!(v.search_hours, "2.5");
    assert_eq!(v.handle_key(cw_char('r')), Some(Action::CwRunSearch));
    assert!(v.loading);
    v.start_search_view();
    assert_eq!(v.screen_type(), "events");
}

#[test]
fn insights_popup_query_editing() {
    let mut v = CloudWatchView::default();
    v.set_groups(vec![group("g1", 1), group("g2", 1)]);
    v.handle_key(cw_char('i'));
    assert!(v.insights_popup_open);
    assert_eq!(v.insights_groups, vec!["g1".to_string(), "g2".to_string()]);
    v.handle_key(cw_key(KeyCode::Enter));
    assert!(v.insights_editing);
    v.handle_key(cw_key(KeyCode::Enter));
    assert!(v.insights_query.ends_with("limit 200\n"));
    v.handle_key(cw_key(KeyCode::Esc));
    assert_eq!(v.handle_key(cw_char('r')), Some(Action::CwRunInsights));
    assert_eq!(v.insights_status.as_deref(), Some("Starting..."));
}

#[test]
fn insights_sends_each_marked_group_once() {
    let mut v = CloudWatchView::default();
    v.set_groups(vec![group("a", 1), group("b", 1), group("c", 1)]);
    v.selected_groups = vec!["a".to_string(), "a".to_string(), "b".to_string()];
    assert_eq!(v.handle_key(cw_char('i')), Some(Action::NoOp));
    assert!(v.insights_popup_open);
    assert_eq!(v.insights_groups, vec!["a".to_string(), "b".to_string()]);
}

#[test]
fn insights_poll_statuses() {
    assert_eq!(classify_poll("Complete"), InsightsPoll::Complete);
    assert_eq!(classify_poll("Timeout"), InsightsPoll::Stopped);
    assert_eq!(classify_poll("Running"), InsightsPoll::Running);
    let mut v = CloudWatchView::default();
    let rows = vec![vec![("@timestamp".to_string(), "2026-03-15 21:48:30.486".to_string()), ("@message".to_string(), "hi".to_string())]];
    assert_eq!(v.insights_polled("Scheduled", &rows), InsightsPoll::Running);
    assert_eq!(v.insights_status.as_deref(), Some("Running... (1 rows so far)"));
    assert_eq!(v.insights_polled("Failed", &rows), InsightsPoll::Stopped);
    assert_eq!(v.insights_status.as_deref(), Some("Query Failed"));
    assert_eq!(v.insights_polled("Complete", &rows), InsightsPoll::Complete);
    assert_eq!(v.insights_status.as_deref(), Some("Complete — 1 results"));
    assert_eq!(v.events.len(), 1);
    assert_eq!(v.events[0].message, "hi");
    assert_eq!(v.events[0].timestamp, 1_773_611_310_486);
}

#[test]
fn events_scroll_loads_more_near_the_end() {
    let mut v = CloudWatchView::default();
    v.set_groups(vec![group("g", 1)]);
    v.enter_group("g".to_string());
    v.enter_stream("s".to_string());
    v.set_events(events(30), Some("tok".to_string()));
    v.set_visible_rows(10);
    assert_eq!(v.handle_key(cw_char('j')), Some(Action::NoOp));
    assert_eq!(v.event_scroll, 1);
    assert_eq!(v.handle_key(cw_char('G')), Some(Action::CwNextPage));
    assert!(v.loading);
    assert_eq!(v.event_scroll, 20);
    assert_eq!(v.handle_key(cw_char('j')), Some(Action::NoOp));
    v.append_events(events(5), None);
    assert_eq!(v.event_count(), 35);
    v.handle_key(cw_char('G'));
    assert_eq!(v.event_scroll, 25);
    v.handle_key(cw_char('g'));
    v.handle_key(cw_char('g'));
    assert_eq!(v.event_scroll, 0);
    assert_eq!(v.handle_key(cw_char('r')), Some(Action::Refresh));
    assert!(v.events.is_empty());
    v.handle_key(cw_key(KeyCode::Esc));
    assert_eq!(v.screen_type(), "streams");
}

#[test]
fn group_names_shorten() {
    assert_eq!(shorten_group_name("/aws/lambda/my-fn"), "/lambda/my-fn");
    assert_eq!(shorten_group_name("plain"), "plain");
}

#[test]
fn log_messages_runtime_and_plain_lines() {
    assert_eq!(parse_log_message("  START RequestId: abc Version: $LATEST \n"), "START RequestId: abc Version: $LATEST");
    assert_eq!(parse_log_message("REPORT RequestId: abc Duration: 1 ms"), "REPORT RequestId: abc Duration: 1 ms");
    assert_eq!(parse_log_message("hello"), "hello");
}

#[test]
fn log_messages_tab_format() {
    assert_eq!(parse_log_message("2026-03-15T21:48:30.486Z\tabc-123\tINFO\t hello\tworld  "), "INFO hello\tworld");
    assert_eq!(parse_log_message("a\tb\t c "), "b c");
    assert_eq!(parse_log_message("a\tb"), "a\tb");
}

#[test]
fn log_messages_dated_format() {
    let line = "2026-03-15T21:48:30.486Z6f1c2a3b-1111-2222-3333-444455556666ERROR  boom happened ";
    assert_eq!(parse_log_message(line), "ERROR boom happened");
    let info_first = "2026-03-15T21:48:30.486Zabc WARN then INFO x";
    assert_eq!(parse_log_message(info_first), "INFO x");
    let far = format!("2026-03-15T21:48:30.486Z{}INFO late", "x".repeat(60));
    assert_eq!(parse_log_message(&far), far);
    assert_eq!(parse_log_message("2026-03-15T21:48:30.486Z no level here"), "2026-03-15T21:48:30.486Z no level here");
}

#[test]
fn log_messages_cut_inside_a_character() {
    let stamp_cut = "2026-03-15T21:48:30.486\u{e9}xxxx INFO y";
    assert_eq!(parse_log_message(stamp_cut), stamp_cut);
    let window = format!("2026-03-15T21:48:30.486Z{}\u{e9}INFO z", "x".repeat(49));
    assert_eq!(parse_log_message(&window), window);
    let outside = format!("2026-03-15T21:48:30.486Z{}\u{e9}INFO z", "x".repeat(48));
    assert_eq!(parse_log_message(&outside), outside);
    assert_eq!(parse_log_message("2026-03-15T21:48:30.486Z\u{e9}INFO z"), "INFO z");
    assert_eq!(parse_log_message("caf\u{e9}"), "caf\u{e9}");
    assert_eq!(parse_log_message("  plain message  "), "plain message");
}

#[test]
fn event_scroll_is_clamped_to_last_screenful() {
    let mut v = CloudWatchView::default();
    v.set_events(events(30), None);
    v.set_visible_rows(10);
    v.event_scroll = 25;
    v.clamp_event_scroll();
    assert_eq!(v.event_scroll, 20);
    v.set_visible_rows(50);
    v.clamp_event_scroll();
    assert_eq!(v.event_scroll, 0);
}

#[test]
fn epoch_millis_are_shown_as_utc_times() {
    assert_eq!(format_epoch_ms(1_773_611_310_486), "2026-03-15 21:48:30");
    assert_eq!(format_epoch_ms(0), "1970-01-01 00:00:00");
    assert_eq!(format_epoch_ms(i64::MAX), i64::MAX.to_string());
}

#[test]
fn insights_timestamps_are_read_as_utc() {
    assert_eq!(parse_insights_timestamp("2026-03-15 21:48:30.486"), 1_773_611_310_486);
    assert_eq!(parse_insights_timestamp("2026-03-15 21:48:30"), 1_773_611_310_000);
    assert_eq!(parse_insights_timestamp("yesterday"), 0);
}

#[test]
fn event_count_is_the_number_of_matching_events() {
    let mut v = CloudWatchView::default();
    v.set_events(
        vec![
            LogEvent { timestamp: 1, message: "Disk FULL".to_string() },
            LogEvent { timestamp: 2, message: "ok".to_string() },
            LogEvent { timestamp: 3, message: "disk full again".to_string() },
        ],
        None,
    );
    assert_eq!(v.event_count(), 3);
    v.filter = "full".to_string();
    assert_eq!(v.filtered_events(), vec![0, 2]);
    assert_eq!(v.event_count(), 2);
    v.filter = "nothing".to_string();
    assert_eq!(v.event_count(), 0);
}

#[test]
fn search_bursts_stop_after_three_calls() {
    let mut v = CloudWatchView::default();
    v.loading = true;
    assert!(v.search_burst_page(1, Vec::new(), Some("t1".to_string())));
    assert!(v.search_burst_page(2, Vec::new(), Some("t2".to_string())));
    assert!(!v.search_burst_page(3, Vec::new(), Some("t3".to_string())));
    assert!(v.search_continuing);
    assert!(v.loading);
    assert!(v.search_burst_page(1, events(2), Some("t4".to_string())));
    assert!(!v.search_burst_page(3, events(1), Some("t5".to_string())));
    assert!(!v.search_continuing);
    assert!(!v.loading);
    assert_eq!(v.event_count(), 3);
    v.loading = true;
    assert!(!v.search_burst_page(1, events(1), None));
    assert!(!v.loading);
    assert_eq!(v.next_token, None);
}
