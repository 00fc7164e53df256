use diskrush::app::AppState;
use diskrush::bench::TestKind;
use diskrush::cli::{parse_args, parse_u64};
use diskrush::headless::{headless_size, headless_step, json_key, HeadlessStep};
use diskrush::bench::BenchMessage;
use diskrush::layout::{
    bar_max, benchmark_area, benchmark_sections, centered_box, find_result, history_window, leader,
    row_state, running_track, shortcuts, toggle_rows, Rect, RowState, MAX_HEIGHT, MAX_WIDTH,
};
use diskrush::settings::{Settings, SettingsField, View};

fn rect(x: u16, y: u16, width: u16, height: u16) -> Rect {
    Rect { x, y, width, height }
}

#[test]
fn boxes_are_centred() {
    assert_eq!(centered_box(rect(0, 0, 100, 40), MAX_WIDTH, MAX_HEIGHT), rect(12, 8, 76, 24));
    assert_eq!(centered_box(rect(2, 3, 50, 10), MAX_WIDTH, MAX_HEIGHT), rect(2, 3, 50, 10));
    assert_eq!(centered_box(rect(0, 0, 77, 25), MAX_WIDTH, MAX_HEIGHT), rect(0, 0, 76, 24));
}

#[test]
fn sections_split_sequential_and_random() {
    let all = vec![TestKind::SeqWrite, TestKind::SeqRead, TestKind::RandWrite, TestKind::RandRead];
    let s = benchmark_sections(&all);
    assert_eq!(s.len(), 2);
    assert_eq!(s[0].title, " Sequential ");
    assert_eq!(s[0].tests, vec![TestKind::SeqWrite, TestKind::SeqRead]);
    assert_eq!(s[1].title, " Random 4K ");
    assert_eq!(s[1].tests, vec![TestKind::RandWrite, TestKind::RandRead]);
    let only_random = benchmark_sections(&vec![TestKind::RandRead]);
    assert_eq!(only_random.len(), 1);
    assert_eq!(only_random[0].title, " Random 4K ");
    assert!(benchmark_sections(&vec![]).is_empty());
}

#[test]
fn results_are_centred_vertically() {
    let all = vec![TestKind::SeqWrite, TestKind::SeqRead, TestKind::RandWrite, TestKind::RandRead];
    let s = benchmark_sections(&all);
    // 2 header rows + 2 boxes of 3 + 2 * 2 rows = 16 rows.
    assert_eq!(benchmark_area(rect(1, 4, 70, 20), &s), rect(1, 6, 70, 16));
    assert_eq!(benchmark_area(rect(1, 4, 70, 10), &s), rect(1, 4, 70, 10));
}

#[test]
fn history_scrolls_to_keep_the_selection() {
    assert_eq!(history_window(15, 10, 0), (0, 3));
    assert_eq!(history_window(15, 10, 2), (0, 3));
    assert_eq!(history_window(15, 10, 5), (3, 3));
    assert_eq!(history_window(15, 2, 1), (0, 2));
    assert_eq!(history_window(4, 10, 3), (3, 0));
}

#[test]
fn bars_fit_the_box() {
    assert_eq!(bar_max(70), 42);
    assert_eq!(bar_max(20), 0);
    assert_eq!(bar_max(0), 0);
    assert_eq!(running_track(40, 10, 25), (10, 15, 15));
    assert_eq!(running_track(40, 50, 25), (40, 0, 0));
    assert_eq!(running_track(40, 10, 5), (10, 0, 30));
    assert_eq!(leader(5), "  · ·");
    assert_eq!(leader(4), " · ·");
    assert_eq!(leader(0), "");
}

#[test]
fn rows_show_done_running_or_pending() {
    let results = vec![(TestKind::SeqWrite, 1.5f64), (TestKind::SeqRead, 2.5)];
    assert_eq!(find_result(&results, TestKind::SeqRead), Some(1));
    assert_eq!(find_result(&results, TestKind::RandRead), None);
    assert_eq!(row_state(&results, Some(TestKind::SeqWrite), TestKind::SeqWrite), RowState::Done(0));
    assert_eq!(row_state(&results, Some(TestKind::RandWrite), TestKind::RandWrite), RowState::Running);
    assert_eq!(row_state(&results, Some(TestKind::RandWrite), TestKind::RandRead), RowState::Pending);
}

#[test]
fn footer_hints_follow_the_screen() {
    let state: AppState<f64> = AppState::SelectDrive { drives: vec![], selected: 0 };
    let s = shortcuts(View::Benchmark, &state, true);
    assert_eq!(s, vec![("↑↓", "navigate"), ("enter", "select"), ("→", "history"), ("q", "quit")]);
    let s = shortcuts(View::Benchmark, &state, false);
    assert_eq!(s, vec![("↑↓", "navigate"), ("enter", "select"), ("q", "quit")]);
    let done: AppState<f64> = AppState::Complete { results: vec![] };
    assert_eq!(shortcuts(View::Benchmark, &done, false), vec![("r", "rerun"), ("esc", "back"), ("q", "quit")]);
    assert_eq!(shortcuts(View::History, &done, true).len(), 3);
    assert_eq!(shortcuts(View::Settings, &done, true)[1], ("space", "toggle"));
}

#[test]
fn settings_rows_show_each_test() {
    let mut s = Settings::default();
    s.rand_read = false;
    let rows = toggle_rows(&s);
    assert_eq!(rows[0], (SettingsField::SeqWrite, "Sequential Write", true));
    assert_eq!(rows[3], (SettingsField::RandRead, "Random Read 4K", false));
}

fn args(list: &[&str]) -> Vec<String> {
    list.iter().map(|s| s.to_string()).collect()
}

#[test]
fn command_line_flags() {
    let a = parse_args(&args(&["diskrush", "--headless", "--path", "/mnt", "--size", "256", "--json"]));
    assert!(a.headless && a.json);
    assert_eq!(a.path.as_deref(), Some("/mnt"));
    assert_eq!(a.size_mb, Some(256));
    let b = parse_args(&args(&["diskrush"]));
    assert!(!b.headless && !b.json);
    assert_eq!(b.path, None);
    assert_eq!(b.size_mb, None);
    let c = parse_args(&args(&["diskrush", "--size", "big", "--size", "12", "--path"]));
    assert_eq!(c.size_mb, None);
    assert_eq!(c.path, None);
}

#[test]
fn numbers_read_like_std() {
    for s in ["0", "+7", "18446744073709551615", "", "+", "-1", "1 ", "18446744073709551616", "99999999999999999999", "00012"] {
        assert_eq!(parse_u64(s), s.parse::<u64>().ok(), "input {s:?}");
    }
}

#[test]
fn headless_collects_results() {
    let mut results: Vec<(TestKind, f64)> = Vec::new();
    assert!(matches!(headless_step(&mut results, BenchMessage::TestStarted { test: TestKind::SeqRead }), HeadlessStep::Announce(TestKind::SeqRead)));
    assert!(matches!(headless_step(&mut results, BenchMessage::TestComplete { test: TestKind::SeqRead, result: 3.0 }), HeadlessStep::Report));
    assert!(matches!(headless_step(&mut results, BenchMessage::Progress { test: TestKind::SeqRead, bytes_done: 1, bytes_total: 2, elapsed_nanos: 3 }), HeadlessStep::Ignore));
    assert!(matches!(headless_step(&mut results, BenchMessage::Error("e".to_string())), HeadlessStep::Fail(ref e) if e == "e"));
    assert!(matches!(headless_step(&mut results, BenchMessage::SuiteComplete), HeadlessStep::Finish));
    assert_eq!(results, vec![(TestKind::SeqRead, 3.0)]);
}

#[test]
fn json_keys_and_default_size() {
    assert_eq!(json_key(TestKind::SeqWrite), "seq_write");
    assert_eq!(json_key(TestKind::SeqRead), "seq_read");
    assert_eq!(json_key(TestKind::RandWrite), "rand_write_4k");
    assert_eq!(json_key(TestKind::RandRead), "rand_read_4k");
    assert_eq!(headless_size(None), 1024);
    assert_eq!(headless_size(Some(64)), 64);
}

#[test]
fn written_numbers_read_back() {
    for n in [0u64, 7, 10, 4096, 1234567, u64::MAX] {
        assert_eq!(parse_u64(&diskrush::text::decimal_string(n)), Some(n));
    }
}

#[test]
fn many_boxes_still_centre() {
    let kinds = vec![TestKind::SeqRead; 10];
    let mut sections = benchmark_sections(&kinds);
    let extra = benchmark_sections(&vec![TestKind::RandRead; 3]);
    sections.extend(extra);
    // 2 header rows + (3 + 20) + (3 + 6) = 34 rows.
    assert_eq!(benchmark_area(rect(0, 0, 80, 40), &sections), rect(0, 3, 80, 34));
    assert_eq!(benchmark_area(rect(0, 0, 80, 20), &sections), rect(0, 0, 80, 20));
}
