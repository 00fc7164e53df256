use diskrush::bench::TestKind;
use diskrush::history::{insert_entry, time_label, Config, HistoryEntry, MAX_ENTRIES};
use diskrush::settings::{format_size, next_size, Settings, SettingsField, DEFAULT_SIZE_MB, FIELD_COUNT};
use diskrush::text::{decimal_string, repeat_str};

#[test]
fn settings_rows_have_positions() {
    for i in 0..FIELD_COUNT {
        assert_eq!(SettingsField::at(i).index(), i);
    }
    assert_eq!(SettingsField::TestSize.index(), 0);
    assert_eq!(SettingsField::RandRead.index(), 5);
}

#[test]
fn sizes_cycle() {
    let mut s = 64;
    let mut seen = vec![];
    for _ in 0..7 {
        seen.push(s);
        s = next_size(s);
    }
    assert_eq!(s, 64);
    assert_eq!(seen, vec![64, 128, 256, 512, 1024, 2048, 4096]);
    assert_eq!(next_size(4096), 64);
    assert_eq!(next_size(100), 512);
}

#[test]
fn default_settings_enable_everything() {
    let s = Settings::default();
    assert_eq!(s.test_size_mb, DEFAULT_SIZE_MB);
    assert!(!s.fullscreen);
    assert_eq!(s.focused, SettingsField::TestSize);
    assert_eq!(
        s.enabled_tests(),
        vec![TestKind::SeqWrite, TestKind::SeqRead, TestKind::RandWrite, TestKind::RandRead]
    );
}

#[test]
fn enabled_tests_keep_suite_order() {
    let mut s = Settings::default();
    s.seq_write = false;
    s.rand_write = false;
    assert_eq!(s.enabled_tests(), vec![TestKind::SeqRead, TestKind::RandRead]);
    s.seq_read = false;
    s.rand_read = false;
    assert!(s.enabled_tests().is_empty());
}

#[test]
fn saved_settings_replace_defaults() {
    let s = Settings::default().with_saved(Some(256), Some(true));
    assert_eq!(s.test_size_mb, 256);
    assert!(s.fullscreen);
    let t = Settings::default().with_saved(None, None);
    assert_eq!(t.test_size_mb, DEFAULT_SIZE_MB);
    assert!(!t.fullscreen);
}

#[test]
fn sizes_show_in_mb_or_gb() {
    assert_eq!(format_size(512), "512 MB");
    assert_eq!(format_size(1024), "1 GB");
    assert_eq!(format_size(1536), "1 GB");
    assert_eq!(format_size(4096), "4 GB");
    assert_eq!(format_size(0), "0 MB");
}

#[test]
fn decimal_text() {
    assert_eq!(decimal_string(0), "0");
    assert_eq!(decimal_string(1234567890), "1234567890");
    assert_eq!(decimal_string(u64::MAX), u64::MAX.to_string());
    assert_eq!(repeat_str("ab", 3), "ababab");
    assert_eq!(repeat_str("─", 0), "");
}

fn entry(label: &str) -> HistoryEntry<u32> {
    HistoryEntry { label: label.to_string(), drive: "d".to_string(), results: vec![(TestKind::SeqRead, 7)] }
}

#[test]
fn newest_run_comes_first() {
    let h = insert_entry(vec![entry("a"), entry("b")], entry("c"));
    let labels: Vec<&str> = h.iter().map(|e| e.label.as_str()).collect();
    assert_eq!(labels, vec!["c", "a", "b"]);
}

#[test]
fn history_keeps_fifty_runs() {
    let mut h: Vec<HistoryEntry<u32>> = Vec::new();
    for i in 0..60 {
        h = insert_entry(h, entry(&i.to_string()));
    }
    assert_eq!(h.len(), MAX_ENTRIES);
    assert_eq!(h[0].label, "59");
    assert_eq!(h[49].label, "10");
}

#[test]
fn time_labels_pad_to_two_digits() {
    assert_eq!(time_label(3, 7, 9, 5), "03/07 09:05");
    assert_eq!(time_label(12, 31, 23, 59), "12/31 23:59");
}

#[test]
fn config_saves_one_setting_at_a_time() {
    let c = Config::default();
    assert_eq!(c.saved_settings(), (None, None));
    let c = c.with_test_size(2048);
    assert_eq!(c.saved_settings(), (Some(2048), None));
    let c = c.with_fullscreen(true);
    assert_eq!(c.saved_settings(), (Some(2048), Some(true)));
    let c = c.with_test_size(64);
    assert_eq!(c.saved_settings(), (Some(64), Some(true)));
}
