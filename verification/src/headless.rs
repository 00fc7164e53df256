//! The suite without the interactive screen: what to print and when to stop.

use vstd::prelude::*;
use vstd::view::View as _;
use crate::bench::{BenchMessage, TestKind};

verus! {

/// What to do with a message of the suite.
pub enum HeadlessStep {
    /// A test started: announce it.
    Announce(TestKind),
    /// A test finished: its result is now the last one; print it.
    Report,
    /// Nothing to show.
    Ignore,
    /// The suite is over: print the results.
    Finish,
    /// The suite failed with this message: report it and exit with status 1.
    Fail(String),
}

/// Follows the suite's messages, collecting the results in `results`.
pub fn headless_step<R>(results: &mut Vec<(TestKind, R)>, msg: BenchMessage<R>) -> (step: HeadlessStep)
    ensures
        match msg {
            BenchMessage::TestStarted { test } => step == HeadlessStep::Announce(test) && final(results)@ == old(results)@,
            BenchMessage::TestComplete { test, result } => step is Report
                && final(results)@ == old(results)@.push((test, result)),
            BenchMessage::Progress { .. } => step is Ignore && final(results)@ == old(results)@,
            BenchMessage::SuiteComplete => step is Finish && final(results)@ == old(results)@,
            BenchMessage::Error(e) => step == HeadlessStep::Fail(e) && final(results)@ == old(results)@,
        },
{
    match msg {
        BenchMessage::TestStarted { test } => HeadlessStep::Announce(test),
        BenchMessage::TestComplete { test, result } => {
            results.push((test, result));
            HeadlessStep::Report
        },
        BenchMessage::Progress { .. } => HeadlessStep::Ignore,
        BenchMessage::SuiteComplete => HeadlessStep::Finish,
        BenchMessage::Error(e) => HeadlessStep::Fail(e),
    }
}

/// The key of a test in the JSON report.
pub open spec fn spec_json_key(kind: TestKind) -> Seq<char> {
    match kind {
        TestKind::SeqWrite => "seq_write"@,
        TestKind::SeqRead => "seq_read"@,
        TestKind::RandWrite => "rand_write_4k"@,
        TestKind::RandRead => "rand_read_4k"@,
    }
}

pub fn json_key(kind: TestKind) -> (res: &'static str)
    ensures
        res@ == spec_json_key(kind),
{
    match kind {
        TestKind::SeqWrite => "seq_write",
        TestKind::SeqRead => "seq_read",
        TestKind::RandWrite => "rand_write_4k",
        TestKind::RandRead => "rand_read_4k",
    }
}

/// The test size of a headless run: the one given, else the default.
pub fn headless_size(size_mb: Option<u64>) -> (res: u64)
    ensures
        res == (match size_mb { Some(s) => s, None => crate::settings::DEFAULT_SIZE_MB }),
{
    match size_mb {
        Some(s) => s,
        None => crate::settings::DEFAULT_SIZE_MB,
    }
}

} // verus!
