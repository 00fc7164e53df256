use diskrush::app::{Action, App, AppState, Key};
use diskrush::bench::{BenchMessage, TestKind};
use diskrush::drives::Drive;
use diskrush::history::HistoryEntry;
use diskrush::settings::{Settings, SettingsField, View};

fn drive(name: &str, mount: &str, test_path: &str) -> Drive {
    Drive { name: name.to_string(), mount: mount.to_string(), test_path: test_path.to_string(), size: None }
}

fn app_with(drives: Vec<Drive>, history: Vec<HistoryEntry<f64>>) -> App<f64> {
    App::new(drives, history, Settings::default())
}

fn entry() -> HistoryEntry<f64> {
    HistoryEntry { label: "l".to_string(), drive: "d".to_string(), results: vec![] }
}

fn selected(app: &App<f64>) -> usize {
    match &app.state {
        AppState::SelectDrive { selected, .. } => *selected,
        _ => panic!("not on the drive list"),
    }
}

#[test]
fn new_app_starts_on_drive_list() {
    let app = app_with(vec![drive("Root", "/", "/home/u")], vec![]);
    assert_eq!(app.view, View::Benchmark);
    assert_eq!(selected(&app), 0);
    assert!(!app.should_quit);
    assert_eq!(app.spinner_tick, 0);
}

#[test]
fn arrows_switch_tabs_and_skip_empty_history() {
    let mut app = app_with(vec![], vec![]);
    assert!(matches!(app.handle_key(Key::Right), Action::Nothing));
    assert_eq!(app.view, View::Settings);
    app.handle_key(Key::Right);
    assert_eq!(app.view, View::Settings);
    app.handle_key(Key::Left);
    assert_eq!(app.view, View::Benchmark);
    app.handle_key(Key::Left);
    assert_eq!(app.view, View::Benchmark);

    let mut app = app_with(vec![], vec![entry()]);
    app.handle_key(Key::Right);
    assert_eq!(app.view, View::History);
    app.handle_key(Key::Right);
    assert_eq!(app.view, View::Settings);
    app.handle_key(Key::Left);
    assert_eq!(app.view, View::History);
}

#[test]
fn drive_selection_stays_in_the_list() {
    let mut app = app_with(vec![drive("a", "/a", "/a"), drive("b", "/b", "/b")], vec![]);
    app.handle_key(Key::Up);
    assert_eq!(selected(&app), 0);
    app.handle_key(Key::Down);
    assert_eq!(selected(&app), 1);
    app.handle_key(Key::Char('j'));
    assert_eq!(selected(&app), 1);
    app.handle_key(Key::Char('k'));
    assert_eq!(selected(&app), 0);
}

#[test]
fn enter_starts_the_enabled_tests_on_the_selected_drive() {
    let mut app = app_with(vec![drive("a", "/a", "/a"), drive("Root", "/", "/home/u")], vec![]);
    app.settings.seq_write = false;
    app.handle_key(Key::Down);
    match app.handle_key(Key::Enter) {
        Action::StartSuite { test_path, size_mb, tests } => {
            assert_eq!(test_path, "/home/u");
            assert_eq!(size_mb, 1024);
            assert_eq!(tests, vec![TestKind::SeqRead, TestKind::RandWrite, TestKind::RandRead]);
        }
        _ => panic!("expected the suite to start"),
    }
    assert_eq!(app.drive_name, "Root");
    assert_eq!(app.display_path, "/");
    match &app.state {
        AppState::Running { current_test, progress, completed, .. } => {
            assert_eq!(*current_test, TestKind::SeqRead);
            assert_eq!(*progress, None);
            assert!(completed.is_empty());
        }
        _ => panic!("expected a running suite"),
    }
}

#[test]
fn enter_with_no_tests_does_nothing() {
    let mut app = app_with(vec![drive("a", "/a", "/a")], vec![]);
    app.settings.seq_write = false;
    app.settings.seq_read = false;
    app.settings.rand_write = false;
    app.settings.rand_read = false;
    assert!(matches!(app.handle_key(Key::Enter), Action::Nothing));
    assert!(matches!(app.state, AppState::SelectDrive { .. }));
}

#[test]
fn enter_with_no_drives_does_nothing() {
    let mut app = app_with(vec![], vec![]);
    assert!(matches!(app.handle_key(Key::Enter), Action::Nothing));
    assert!(matches!(app.state, AppState::SelectDrive { .. }));
}

#[test]
fn q_quits_everywhere() {
    let mut app = app_with(vec![], vec![]);
    app.handle_key(Key::Char('q'));
    assert!(app.should_quit);
    let mut app = app_with(vec![], vec![]);
    app.view = View::Settings;
    app.handle_key(Key::Char('q'));
    assert!(app.should_quit);
    let mut app = app_with(vec![], vec![]);
    app.handle_key(Key::Esc);
    assert!(app.should_quit);
}

fn running_app() -> App<f64> {
    let mut app = app_with(vec![drive("data", "/mnt/data", "/mnt/data")], vec![]);
    app.handle_key(Key::Enter);
    app
}

#[test]
fn escape_while_running_cancels_and_goes_back() {
    let mut app = running_app();
    assert!(matches!(app.handle_key(Key::Esc), Action::CancelAndRescan));
    assert!(matches!(&app.state, AppState::SelectDrive { drives, selected: 0 } if drives.is_empty()));
    app.show_drives(vec![drive("x", "/x", "/x")]);
    assert!(matches!(&app.state, AppState::SelectDrive { drives, selected: 0 } if drives.len() == 1));
    assert!(!app.should_quit);
}

#[test]
fn q_while_running_cancels_and_quits() {
    let mut app = running_app();
    assert!(matches!(app.handle_key(Key::Char('q')), Action::Cancel));
    assert!(app.should_quit);
}

#[test]
fn messages_drive_a_run_to_completion() {
    let mut app = running_app();
    assert!(matches!(app.on_message(BenchMessage::TestStarted { test: TestKind::SeqWrite }), Action::ResetLiveSpeed));
    let a = app.on_message(BenchMessage::Progress {
        test: TestKind::SeqWrite,
        bytes_done: 1000,
        bytes_total: 4000,
        elapsed_nanos: 40_000_000,
    });
    assert!(matches!(a, Action::Nothing));
    let a = app.on_message(BenchMessage::Progress {
        test: TestKind::SeqWrite,
        bytes_done: 3000,
        bytes_total: 4000,
        elapsed_nanos: 60_000_000,
    });
    assert!(matches!(a, Action::UpdateLiveSpeed { bytes: 3000, nanos: 60_000_000 }));
    match &app.state {
        AppState::Running { progress, prev_bytes, prev_elapsed_nanos, .. } => {
            assert_eq!(*progress, Some((3000, 4000)));
            assert_eq!(*prev_bytes, 3000);
            assert_eq!(*prev_elapsed_nanos, 60_000_000);
        }
        _ => panic!("expected a running suite"),
    }
    let a = app.on_message(BenchMessage::Progress {
        test: TestKind::SeqWrite,
        bytes_done: 3500,
        bytes_total: 4000,
        elapsed_nanos: 110_000_000,
    });
    assert!(matches!(a, Action::Nothing));
    let a = app.on_message(BenchMessage::Progress {
        test: TestKind::SeqWrite,
        bytes_done: 4000,
        bytes_total: 4000,
        elapsed_nanos: 110_000_001,
    });
    assert!(matches!(a, Action::UpdateLiveSpeed { bytes: 1000, nanos: 50_000_001 }));
    app.on_message(BenchMessage::TestComplete { test: TestKind::SeqWrite, result: 512.5 });
    app.on_message(BenchMessage::TestComplete { test: TestKind::SeqRead, result: 700.0 });
    match app.on_message(BenchMessage::SuiteComplete) {
        Action::SaveHistory { drive } => assert_eq!(drive, "data"),
        _ => panic!("expected the run to be saved"),
    }
    match &app.state {
        AppState::Complete { results } => {
            assert_eq!(results, &vec![(TestKind::SeqWrite, 512.5), (TestKind::SeqRead, 700.0)]);
        }
        _ => panic!("expected the results"),
    }
    assert_eq!(app.view, View::Benchmark);
}

#[test]
fn a_run_on_the_root_is_saved_under_the_path() {
    let mut app = app_with(vec![drive("Root", "/", "/home/u")], vec![]);
    app.handle_key(Key::Enter);
    app.on_message(BenchMessage::TestComplete { test: TestKind::SeqWrite, result: 1.0 });
    match app.on_message(BenchMessage::Error("disk full".to_string())) {
        Action::SaveHistory { drive } => assert_eq!(drive, "/"),
        _ => panic!("expected the run to be saved"),
    }
}

#[test]
fn a_failed_run_without_results_goes_back_to_drives() {
    let mut app = running_app();
    assert!(matches!(app.on_message(BenchMessage::Error("boom".to_string())), Action::Rescan));
    assert!(matches!(app.state, AppState::SelectDrive { .. }));
}

#[test]
fn messages_outside_a_run_change_nothing() {
    let mut app = app_with(vec![drive("a", "/a", "/a")], vec![]);
    assert!(matches!(app.on_message(BenchMessage::TestStarted { test: TestKind::SeqRead }), Action::Nothing));
    assert!(matches!(app.on_message(BenchMessage::SuiteComplete), Action::Nothing));
    assert!(matches!(app.state, AppState::SelectDrive { .. }));
}

#[test]
fn complete_screen_reruns_and_goes_back() {
    let mut app = running_app();
    app.on_message(BenchMessage::TestComplete { test: TestKind::SeqWrite, result: 1.0 });
    app.on_message(BenchMessage::SuiteComplete);
    assert!(matches!(app.handle_key(Key::Char('r')), Action::StartSuite { .. }));
    assert!(matches!(app.state, AppState::Running { .. }));
    app.on_message(BenchMessage::TestComplete { test: TestKind::SeqWrite, result: 1.0 });
    app.on_message(BenchMessage::SuiteComplete);
    assert!(matches!(app.handle_key(Key::Esc), Action::Rescan));
    assert!(matches!(app.state, AppState::SelectDrive { .. }));
}

#[test]
fn settings_keys_move_focus_and_toggle() {
    let mut app = app_with(vec![], vec![]);
    app.view = View::Settings;
    app.handle_key(Key::Up);
    assert_eq!(app.settings.focused, SettingsField::TestSize);
    assert!(matches!(app.handle_key(Key::Enter), Action::SaveTestSize(2048)));
    assert_eq!(app.settings.test_size_mb, 2048);
    app.handle_key(Key::Down);
    assert!(matches!(app.handle_key(Key::Char(' ')), Action::SaveFullscreen(true)));
    assert!(app.settings.fullscreen);
    app.handle_key(Key::Char('j'));
    assert_eq!(app.settings.focused, SettingsField::SeqWrite);
    assert!(matches!(app.handle_key(Key::Enter), Action::Nothing));
    assert!(!app.settings.seq_write);
    app.handle_key(Key::Enter);
    assert!(app.settings.seq_write);
    for _ in 0..10 {
        app.handle_key(Key::Down);
    }
    assert_eq!(app.settings.focused, SettingsField::RandRead);
    app.handle_key(Key::Esc);
    assert_eq!(app.view, View::Benchmark);
}

#[test]
fn history_selection_stays_in_the_history() {
    let mut app = app_with(vec![], vec![entry(), entry()]);
    app.view = View::History;
    app.handle_key(Key::Down);
    assert_eq!(app.history_idx, 1);
    app.handle_key(Key::Down);
    assert_eq!(app.history_idx, 1);
    app.handle_key(Key::Char('k'));
    app.handle_key(Key::Up);
    assert_eq!(app.history_idx, 0);
    app.handle_key(Key::Esc);
    assert_eq!(app.view, View::Benchmark);
    app.set_history(vec![entry()]);
    assert_eq!(app.history.len(), 1);
}

#[test]
fn tick_advances_the_spinner_and_wraps() {
    let mut app = app_with(vec![], vec![]);
    app.tick();
    assert_eq!(app.spinner_tick, 1);
    app.spinner_tick = usize::MAX;
    app.tick();
    assert_eq!(app.spinner_tick, 0);
}

#[test]
fn focus_down_then_up_returns() {
    let mut app = app_with(vec![], vec![]);
    app.view = View::Settings;
    app.settings.focused = SettingsField::SeqRead;
    app.handle_key(Key::Down);
    assert_eq!(app.settings.focused, SettingsField::RandWrite);
    app.handle_key(Key::Up);
    assert_eq!(app.settings.focused, SettingsField::SeqRead);
}

#[test]
fn keys_other_than_enter_work_on_any_selection() {
    let mut app = app_with(vec![drive("a", "/a", "/a")], vec![]);
    app.state = AppState::SelectDrive { drives: vec![drive("a", "/a", "/a")], selected: 5 };
    app.handle_key(Key::Up);
    assert_eq!(selected(&app), 4);
    app.handle_key(Key::Down);
    assert_eq!(selected(&app), 4);
}
