use diskrush::bench::{
    contains_kind, plan_suite, BenchMessage, SuiteProgress, SuiteStep, TestKind, MIB,
};
use diskrush::engine::{plan_random, random_progress, seq_chunk, RAND_BLOCK_SIZE, SEQ_BLOCK_SIZE};

#[test]
fn labels_name_each_test() {
    assert_eq!(TestKind::SeqWrite.label(), "Sequential Write");
    assert_eq!(TestKind::SeqRead.label(), "Sequential Read");
    assert_eq!(TestKind::RandWrite.label(), "Random Write 4K");
    assert_eq!(TestKind::RandRead.label(), "Random Read 4K");
}

#[test]
fn kinds_split_into_sequential_and_write() {
    assert!(TestKind::SeqWrite.is_sequential() && TestKind::SeqWrite.is_write());
    assert!(TestKind::SeqRead.is_sequential() && !TestKind::SeqRead.is_write());
    assert!(!TestKind::RandWrite.is_sequential() && TestKind::RandWrite.is_write());
    assert!(!TestKind::RandRead.is_sequential() && !TestKind::RandRead.is_write());
}

#[test]
fn full_suite_runs_every_test_in_order() {
    let plan = plan_suite(1024, &None);
    assert_eq!(plan.prepare_bytes, None);
    assert_eq!(
        plan.tests,
        vec![
            (TestKind::SeqWrite, 1024 * MIB),
            (TestKind::SeqRead, 1024 * MIB),
            (TestKind::RandWrite, 256 * MIB),
            (TestKind::RandRead, 256 * MIB),
        ]
    );
}

#[test]
fn random_tests_move_at_least_64_mib() {
    let plan = plan_suite(100, &None);
    assert_eq!(plan.tests[2], (TestKind::RandWrite, 64 * MIB));
    assert_eq!(plan.tests[0], (TestKind::SeqWrite, 100 * MIB));
}

#[test]
fn reading_without_writing_prepares_the_file() {
    let plan = plan_suite(128, &Some(vec![TestKind::RandRead, TestKind::SeqRead]));
    assert_eq!(plan.prepare_bytes, Some(128 * MIB));
    assert_eq!(plan.tests, vec![(TestKind::SeqRead, 128 * MIB), (TestKind::RandRead, 64 * MIB)]);
}

#[test]
fn writing_first_needs_no_preparation() {
    let plan = plan_suite(128, &Some(vec![TestKind::SeqRead, TestKind::SeqWrite]));
    assert_eq!(plan.prepare_bytes, None);
    assert_eq!(plan.tests, vec![(TestKind::SeqWrite, 128 * MIB), (TestKind::SeqRead, 128 * MIB)]);
}

#[test]
fn empty_selection_runs_nothing() {
    let plan = plan_suite(64, &Some(vec![]));
    assert_eq!(plan.prepare_bytes, None);
    assert!(plan.tests.is_empty());
    assert!(matches!(plan.next_step(0, false), SuiteStep::Finish));
}

#[test]
fn suite_steps_follow_the_plan_and_stop_when_cancelled() {
    let plan = plan_suite(64, &None);
    match plan.next_step(1, false) {
        SuiteStep::Run { test, bytes } => {
            assert_eq!(test, TestKind::SeqRead);
            assert_eq!(bytes, 64 * MIB);
        }
        SuiteStep::Finish => panic!("expected a test"),
    }
    assert!(matches!(plan.next_step(1, true), SuiteStep::Finish));
    assert!(matches!(plan.next_step(4, false), SuiteStep::Finish));
}

#[test]
fn failures_are_reported_unless_cancelled() {
    let plan = plan_suite(64, &None);
    let mut p = SuiteProgress::start(false);
    assert!(p.record(&plan, false, false));
    let mut q = SuiteProgress::start(false);
    assert!(!q.record(&plan, false, true));
}

#[test]
fn no_test_runs_after_a_failure() {
    let plan = plan_suite(64, &None);
    let mut p = SuiteProgress::start(false);
    assert!(matches!(p.next(&plan, false), SuiteStep::Run { test: TestKind::SeqWrite, .. }));
    assert!(!p.record(&plan, true, false));
    assert_eq!(p.done, 1);
    assert!(matches!(p.next(&plan, false), SuiteStep::Run { test: TestKind::SeqRead, .. }));
    p.record(&plan, false, false);
    assert!(p.stopped);
    assert!(matches!(p.next(&plan, false), SuiteStep::Finish));
}

#[test]
fn cancelled_preparation_runs_no_test() {
    let plan = plan_suite(64, &Some(vec![TestKind::SeqRead]));
    let p = SuiteProgress::start(true);
    assert!(matches!(p.next(&plan, false), SuiteStep::Finish));
    let q = SuiteProgress::start(false);
    assert!(matches!(q.next(&plan, true), SuiteStep::Finish));
    assert!(matches!(q.next(&plan, false), SuiteStep::Run { test: TestKind::SeqRead, .. }));
}

#[test]
fn a_full_run_visits_every_planned_test() {
    let plan = plan_suite(64, &None);
    let mut p = SuiteProgress::start(false);
    let mut seen = vec![];
    while let SuiteStep::Run { test, .. } = p.next(&plan, false) {
        seen.push(test);
        p.record(&plan, true, false);
    }
    assert_eq!(seen, vec![TestKind::SeqWrite, TestKind::SeqRead, TestKind::RandWrite, TestKind::RandRead]);
}

#[test]
fn contains_kind_finds_members() {
    let v = vec![TestKind::SeqRead, TestKind::RandRead];
    assert!(contains_kind(&v, TestKind::RandRead));
    assert!(!contains_kind(&v, TestKind::SeqWrite));
}

#[test]
fn only_complete_and_error_end_a_suite() {
    assert!(BenchMessage::<u8>::SuiteComplete.ends_suite());
    assert!(BenchMessage::<u8>::Error("x".to_string()).ends_suite());
    assert!(!BenchMessage::<u8>::TestStarted { test: TestKind::SeqRead }.ends_suite());
    assert!(!BenchMessage::TestComplete { test: TestKind::SeqRead, result: 1u8 }.ends_suite());
}

#[test]
fn sequential_blocks_cover_the_total() {
    let total = 3 * SEQ_BLOCK_SIZE as u64 + 123;
    let mut done = 0u64;
    let mut blocks = 0;
    while let Some(c) = seq_chunk(done, total) {
        assert!(c <= SEQ_BLOCK_SIZE && c > 0);
        done += c as u64;
        blocks += 1;
    }
    assert_eq!(done, total);
    assert_eq!(blocks, 4);
    assert_eq!(seq_chunk(total - 123, total), Some(123));
    assert_eq!(seq_chunk(total, total), None);
}

#[test]
fn random_plan_visits_each_block_once() {
    let block = RAND_BLOCK_SIZE as u64;
    let plan = plan_random(10 * block + 100, 4 * block + 5);
    assert_eq!(plan.ops, 4);
    assert_eq!(plan.total_bytes, 4 * block);
    let mut offsets = plan.offsets.clone();
    offsets.sort();
    let expected: Vec<u64> = (0..10).map(|i| i * block).collect();
    assert_eq!(offsets, expected);
}

#[test]
fn random_plan_is_cut_to_the_file() {
    let block = RAND_BLOCK_SIZE as u64;
    let plan = plan_random(3 * block, 100 * block);
    assert_eq!(plan.ops, 3);
    assert_eq!(plan.total_bytes, 3 * block);
    let empty = plan_random(100, 100 * block);
    assert_eq!(empty.ops, 0);
    assert!(empty.offsets.is_empty());
}

#[test]
fn random_progress_every_256_ops() {
    assert_eq!(random_progress(0), Some(4096));
    assert_eq!(random_progress(1), None);
    assert_eq!(random_progress(255), None);
    assert_eq!(random_progress(256), Some(257 * 4096));
}
