//! The benchmark tests and the plan of a suite run.

use vstd::prelude::*;

verus! {

/// One MiB, the unit in which test sizes are given.
pub const MIB: u64 = 1048576;

/// The four tests of a suite, in the order in which a full suite runs them.
#[derive(Debug, Clone, Copy, PartialEq, Eq, Structural)]
pub enum TestKind {
    SeqWrite,
    SeqRead,
    RandWrite,
    RandRead,
}

impl TestKind {
    /// The name under which the test is shown.
    pub open spec fn spec_label(self) -> Seq<char> {
        match self {
            TestKind::SeqWrite => "Sequential Write"@,
            TestKind::SeqRead => "Sequential Read"@,
            TestKind::RandWrite => "Random Write 4K"@,
            TestKind::RandRead => "Random Read 4K"@,
        }
    }

    pub fn label(&self) -> (res: &'static str)
        ensures
            res@ == self.spec_label(),
    {
        match self {
            TestKind::SeqWrite => "Sequential Write",
            TestKind::SeqRead => "Sequential Read",
            TestKind::RandWrite => "Random Write 4K",
            TestKind::RandRead => "Random Read 4K",
        }
    }

    pub open spec fn spec_is_sequential(self) -> bool {
        self is SeqWrite || self is SeqRead
    }

    pub open spec fn spec_is_write(self) -> bool {
        self is SeqWrite || self is RandWrite
    }

    pub fn is_sequential(&self) -> (res: bool)
        ensures
            res == self.spec_is_sequential(),
    {
        matches!(self, TestKind::SeqWrite | TestKind::SeqRead)
    }

    pub fn is_write(&self) -> (res: bool)
        ensures
            res == self.spec_is_write(),
    {
        matches!(self, TestKind::SeqWrite | TestKind::RandWrite)
    }
}


/// A message from a running suite to the screen that follows it.
/// `R` is the measured result of one test.
pub enum BenchMessage<R> {
    TestStarted { test: TestKind },
    Progress { test: TestKind, bytes_done: u64, bytes_total: u64, elapsed_nanos: u64 },
    TestComplete { test: TestKind, result: R },
    SuiteComplete,
    Error(String),
}

impl<R> BenchMessage<R> {
    /// The messages after which a suite sends nothing more.
    pub open spec fn spec_ends_suite(&self) -> bool {
        self is SuiteComplete || self is Error
    }

    pub fn ends_suite(&self) -> (res: bool)
        ensures
            res == self.spec_ends_suite(),
    {
        matches!(self, BenchMessage::SuiteComplete | BenchMessage::Error(_))
    }
}

/// The bytes a sequential test moves: the whole test size.
pub open spec fn spec_total_bytes(size_mb: u64) -> int {
    size_mb * MIB
}

/// The bytes a random test moves: a quarter of the test size, at least 64 MiB.
pub open spec fn spec_random_bytes(size_mb: u64) -> int {
    (if size_mb / 4 >= 64 { size_mb / 4 } else { 64 }) * MIB
}

pub open spec fn spec_test_bytes(kind: TestKind, size_mb: u64) -> int {
    if kind.spec_is_sequential() {
        spec_total_bytes(size_mb)
    } else {
        spec_random_bytes(size_mb)
    }
}

/// Whether a list of tests holds a test of this kind.
pub open spec fn plan_has(tests: Seq<(TestKind, u64)>, kind: TestKind) -> bool {
    exists|i: int| 0 <= i < tests.len() && #[trigger] tests[i].0 == kind
}

/// The position of a test in a full suite.
pub open spec fn suite_rank(kind: TestKind) -> int {
    match kind {
        TestKind::SeqWrite => 0,
        TestKind::SeqRead => 1,
        TestKind::RandWrite => 2,
        TestKind::RandRead => 3,
    }
}

/// Whether a test runs: every test runs when no selection is given.
pub open spec fn is_selected(enabled: Option<Seq<TestKind>>, kind: TestKind) -> bool {
    match enabled {
        None => true,
        Some(kinds) => kinds.contains(kind),
    }
}

pub open spec fn suite_entry(enabled: Option<Seq<TestKind>>, kind: TestKind, size_mb: u64) -> Seq<(TestKind, u64)> {
    if is_selected(enabled, kind) {
        seq![(kind, spec_test_bytes(kind, size_mb) as u64)]
    } else {
        seq![]
    }
}

/// The tests of a suite with their byte counts, in the fixed order
/// sequential write, sequential read, random write, random read.
pub open spec fn spec_suite_tests(size_mb: u64, enabled: Option<Seq<TestKind>>) -> Seq<(TestKind, u64)> {
    suite_entry(enabled, TestKind::SeqWrite, size_mb)
        + suite_entry(enabled, TestKind::SeqRead, size_mb)
        + suite_entry(enabled, TestKind::RandWrite, size_mb)
        + suite_entry(enabled, TestKind::RandRead, size_mb)
}

/// The test file must be written before the tests start when a test reads
/// or rewrites it and the sequential write, which would create it, is not run.
pub open spec fn spec_prepares_file(enabled: Option<Seq<TestKind>>) -> bool {
    &&& enabled is Some
    &&& !is_selected(enabled, TestKind::SeqWrite)
    &&& (is_selected(enabled, TestKind::SeqRead) || is_selected(enabled, TestKind::RandWrite)
        || is_selected(enabled, TestKind::RandRead))
}

pub open spec fn opt_view(enabled: Option<Vec<TestKind>>) -> Option<Seq<TestKind>> {
    match enabled {
        None => None,
        Some(v) => Some(v@),
    }
}

/// What a suite does, decided before it touches the disk.
pub struct SuitePlan {
    /// `Some(n)` when `n` bytes must be written to the test file before the tests.
    pub prepare_bytes: Option<u64>,
    /// The tests to run, in order, with the bytes each moves.
    pub tests: Vec<(TestKind, u64)>,
}

/// What a running suite does next.
pub enum SuiteStep {
    Run { test: TestKind, bytes: u64 },
    Finish,
}

pub fn contains_kind(kinds: &Vec<TestKind>, kind: TestKind) -> (res: bool)
    ensures
        res == kinds@.contains(kind),
{
    let mut i: usize = 0;
    while i < kinds.len()
        invariant
            i <= kinds.len(),
            forall|j: int| 0 <= j < i ==> kinds@[j] != kind,
        decreases kinds.len() - i,
    {
        if kinds[i] == kind {
            return true;
        }
        i = i + 1;
    }
    false
}

fn selected(enabled: &Option<Vec<TestKind>>, kind: TestKind) -> (res: bool)
    ensures
        res == is_selected(opt_view(*enabled), kind),
{
    match enabled {
        None => true,
        Some(kinds) => contains_kind(kinds, kind),
    }
}

/// Plans a suite of `size_mb` MiB; `enabled`, when given, selects the tests.
pub fn plan_suite(size_mb: u64, enabled: &Option<Vec<TestKind>>) -> (plan: SuitePlan)
    requires
        size_mb <= u64::MAX / MIB,
    ensures
        // Sequential tests move the whole size; random tests a quarter of it,
        // but never less than 64 MiB.
        forall|i: int| 0 <= i < plan.tests@.len() ==> {
            let kind = #[trigger] plan.tests@[i].0;
            let bytes = plan.tests@[i].1 as int;
            if kind == TestKind::SeqWrite || kind == TestKind::SeqRead {
                bytes == size_mb * 1048576
            } else {
                &&& bytes >= (size_mb / 4) * 1048576
                &&& bytes >= 64 * 1048576
                &&& (bytes == (size_mb / 4) * 1048576 || bytes == 64 * 1048576)
            }
        },
        // The tests run in the order sequential write, sequential read,
        // random write, random read, each at most once.
        forall|i: int, j: int| 0 <= i < j < plan.tests@.len() ==>
            suite_rank(#[trigger] plan.tests@[i].0) < suite_rank(#[trigger] plan.tests@[j].0),
        // A test runs exactly when it is selected, or when no selection is given.
        forall|kind: TestKind| #[trigger] plan_has(plan.tests@, kind)
            <==> (match *enabled { None => true, Some(v) => v@.contains(kind) }),
        plan.tests@ == spec_suite_tests(size_mb, opt_view(*enabled)),
        plan.prepare_bytes == (if spec_prepares_file(opt_view(*enabled)) {
            Some(spec_total_bytes(size_mb) as u64)
        } else {
            None
        }),
{
    let total_bytes: u64 = size_mb * MIB;
    let quarter: u64 = size_mb / 4;
    let random_mb: u64 = if quarter >= 64 { quarter } else { 64 };
    let random_bytes: u64 = random_mb * MIB;
    let ghost en = opt_view(*enabled);

    let sw = selected(enabled, TestKind::SeqWrite);
    let sr = selected(enabled, TestKind::SeqRead);
    let rw = selected(enabled, TestKind::RandWrite);
    let rr = selected(enabled, TestKind::RandRead);

    let mut tests: Vec<(TestKind, u64)> = Vec::new();
    if sw {
        tests.push((TestKind::SeqWrite, total_bytes));
    }
    assert(tests@ == suite_entry(en, TestKind::SeqWrite, size_mb));
    if sr {
        tests.push((TestKind::SeqRead, total_bytes));
    }
    assert(tests@ == suite_entry(en, TestKind::SeqWrite, size_mb) + suite_entry(en, TestKind::SeqRead, size_mb));
    if rw {
        tests.push((TestKind::RandWrite, random_bytes));
    }
    assert(tests@ == suite_entry(en, TestKind::SeqWrite, size_mb) + suite_entry(en, TestKind::SeqRead, size_mb)
        + suite_entry(en, TestKind::RandWrite, size_mb));
    if rr {
        tests.push((TestKind::RandRead, random_bytes));
    }
    let ghost t = tests@;
    assert(t == spec_suite_tests(size_mb, en));
    assert forall|i: int, j: int| 0 <= i < j < t.len() implies
        suite_rank(#[trigger] t[i].0) < suite_rank(#[trigger] t[j].0) by {
        lemma_suite_order(size_mb, en, i, j);
    }
    assert forall|kind: TestKind| #[trigger] plan_has(t, kind) <==> is_selected(en, kind) by {
        lemma_suite_members(size_mb, en, kind);
    }
    let needs_file = enabled.is_none() || sr || rw || rr;
    let skip_seq_write = enabled.is_some() && !sw;
    let prepare_bytes = if needs_file && skip_seq_write { Some(total_bytes) } else { None };
    SuitePlan { prepare_bytes, tests }
}

proof fn lemma_suite_order(size_mb: u64, en: Option<Seq<TestKind>>, i: int, j: int)
    requires
        0 <= i < j < spec_suite_tests(size_mb, en).len(),
    ensures
        suite_rank(spec_suite_tests(size_mb, en)[i].0) < suite_rank(spec_suite_tests(size_mb, en)[j].0),
{
    let a = suite_entry(en, TestKind::SeqWrite, size_mb);
    let b = suite_entry(en, TestKind::SeqRead, size_mb);
    let c = suite_entry(en, TestKind::RandWrite, size_mb);
    let d = suite_entry(en, TestKind::RandRead, size_mb);
    let t = spec_suite_tests(size_mb, en);
    assert(t == a + b + c + d);
    // Each entry lies in the part of its own kind, and the parts come in rank order.
    assert forall|k: int| 0 <= k < t.len() implies
        (#[trigger] suite_rank(t[k].0)) == (if k < a.len() { 0int } else if k < a.len() + b.len() { 1int }
            else if k < a.len() + b.len() + c.len() { 2int } else { 3int }) by {
        if k < a.len() {
            assert(t[k] == a[k]);
        } else if k < a.len() + b.len() {
            assert(t[k] == b[k - a.len()]);
        } else if k < a.len() + b.len() + c.len() {
            assert(t[k] == c[k - a.len() - b.len()]);
        } else {
            assert(t[k] == d[k - a.len() - b.len() - c.len()]);
        }
    }
    assert(suite_rank(t[i].0) == suite_rank(t[i].0));
    assert(suite_rank(t[j].0) == suite_rank(t[j].0));
}

proof fn lemma_suite_members(size_mb: u64, en: Option<Seq<TestKind>>, kind: TestKind)
    ensures
        (exists|i: int| 0 <= i < spec_suite_tests(size_mb, en).len()
            && #[trigger] spec_suite_tests(size_mb, en)[i].0 == kind) <==> is_selected(en, kind),
{
    let a = suite_entry(en, TestKind::SeqWrite, size_mb);
    let b = suite_entry(en, TestKind::SeqRead, size_mb);
    let c = suite_entry(en, TestKind::RandWrite, size_mb);
    let d = suite_entry(en, TestKind::RandRead, size_mb);
    let t = spec_suite_tests(size_mb, en);
    assert(t == a + b + c + d);
    if is_selected(en, kind) {
        let k: int = match kind {
            TestKind::SeqWrite => 0,
            TestKind::SeqRead => a.len() as int,
            TestKind::RandWrite => (a.len() + b.len()) as int,
            TestKind::RandRead => (a.len() + b.len() + c.len()) as int,
        };
        assert(t[k].0 == kind);
    }
    assert forall|i: int| 0 <= i < t.len() && #[trigger] t[i].0 == kind implies is_selected(en, kind) by {
        if i < a.len() {
            assert(t[i] == a[i]);
        } else if i < a.len() + b.len() {
            assert(t[i] == b[i - a.len()]);
        } else if i < a.len() + b.len() + c.len() {
            assert(t[i] == c[i - a.len() - b.len()]);
        } else {
            assert(t[i] == d[i - a.len() - b.len() - c.len()]);
        }
    }
}

impl SuitePlan {
    /// The step after `done` tests have run; a cancelled suite stops.
    pub fn next_step(&self, done: usize, cancelled: bool) -> (step: SuiteStep)
        ensures
            (cancelled || done >= self.tests@.len()) ==> step is Finish,
            (!cancelled && done < self.tests@.len()) ==> step == (SuiteStep::Run {
                test: self.tests@[done as int].0,
                bytes: self.tests@[done as int].1,
            }),
    {
        if cancelled || done >= self.tests.len() {
            SuiteStep::Finish
        } else {
            let (test, bytes) = self.tests[done];
            SuiteStep::Run { test, bytes }
        }
    }
}

/// How far a running suite has got: the tests done, and whether it has
/// stopped early.
pub struct SuiteProgress {
    pub done: usize,
    pub stopped: bool,
}

impl SuiteProgress {
    /// The step the suite takes next: the next planned test, unless the
    /// suite has stopped, is cancelled, or has run every test.
    pub open spec fn spec_next(&self, plan: &SuitePlan, cancelled: bool) -> SuiteStep {
        if self.stopped || cancelled || self.done >= plan.tests@.len() {
            SuiteStep::Finish
        } else {
            SuiteStep::Run { test: plan.tests@[self.done as int].0, bytes: plan.tests@[self.done as int].1 }
        }
    }

    /// A suite about to run its first test. When preparing the test file was
    /// cancelled, the suite stops before any test.
    pub fn start(prepare_cancelled: bool) -> (res: SuiteProgress)
        ensures
            res.done == 0,
            res.stopped == prepare_cancelled,
    {
        SuiteProgress { done: 0, stopped: prepare_cancelled }
    }

    pub fn next(&self, plan: &SuitePlan, cancelled: bool) -> (step: SuiteStep)
        ensures
            step == self.spec_next(plan, cancelled),
    {
        if self.stopped {
            SuiteStep::Finish
        } else {
            plan.next_step(self.done, cancelled)
        }
    }

    /// Records how the test just run ended. A test that passed moves the
    /// suite on; a test that failed stops it, and the failure is reported
    /// unless the suite was cancelled, in which case the failure is the
    /// cancellation itself.
    pub fn record(&mut self, plan: &SuitePlan, passed: bool, cancelled: bool) -> (report: bool)
        requires
            !old(self).stopped,
            old(self).done < plan.tests@.len(),
        ensures
            passed ==> final(self).done == old(self).done + 1 && !final(self).stopped && !report,
            !passed ==> final(self).done == old(self).done && final(self).stopped && report == !cancelled,
    {
        let planned = plan.tests.len();
        if passed {
            assert(self.done < planned);
            self.done = self.done + 1;
            false
        } else {
            self.stopped = true;
            !cancelled
        }
    }
}

/// No test starts after a failed test, after a cancelled preparation, or
/// while the suite is cancelled; and the tests that do run, run in the
/// planned order.
pub proof fn lemma_no_test_after_stop(progress: SuiteProgress, plan: SuitePlan, cancelled: bool)
    ensures
        (progress.stopped || cancelled) ==> progress.spec_next(&plan, cancelled) is Finish,
        progress.spec_next(&plan, cancelled) is Run ==> progress.done < plan.tests@.len()
            && progress.spec_next(&plan, cancelled)->Run_test == plan.tests@[progress.done as int].0,
{
}

/// Every test that reads or rewrites the test file finds it written: either
/// the sequential write runs before it in the suite, or the plan writes the
/// file before the first test.
pub proof fn lemma_file_written_before_use(size_mb: u64, enabled: Option<Seq<TestKind>>, i: int)
    requires
        0 <= i < spec_suite_tests(size_mb, enabled).len(),
        spec_suite_tests(size_mb, enabled)[i].0 != TestKind::SeqWrite,
    ensures
        spec_prepares_file(enabled) || (exists|j: int|
            0 <= j < i && #[trigger] spec_suite_tests(size_mb, enabled)[j].0 == TestKind::SeqWrite),
{
    let t = spec_suite_tests(size_mb, enabled);
    if is_selected(enabled, TestKind::SeqWrite) {
        assert(t[0].0 == TestKind::SeqWrite);
        assert(i != 0);
    } else {
        assert(enabled is Some);
        assert(is_selected(enabled, t[i].0));
    }
}

} // verus!
