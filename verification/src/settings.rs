//! The settings screen's data: which tests run, the test size, fullscreen.

use vstd::prelude::*;
use crate::bench::{TestKind, suite_rank};
use crate::text::{decimal, push_decimal};
use vstd::view::View as _;

verus! {

/// The test size used until the user picks another one.
pub const DEFAULT_SIZE_MB: u64 = 1024;

/// The three screens of the program.
#[derive(Debug, Clone, Copy, PartialEq, Eq, Structural)]
pub enum View {
    Benchmark,
    History,
    Settings,
}

/// The rows of the settings screen, top to bottom.
#[derive(Debug, Clone, Copy, PartialEq, Eq, Structural)]
pub enum SettingsField {
    TestSize,
    Fullscreen,
    SeqWrite,
    SeqRead,
    RandWrite,
    RandRead,
}

/// The number of rows of the settings screen.
pub const FIELD_COUNT: usize = 6;

/// The row at position `i` of the settings screen.
pub open spec fn field_at(i: int) -> SettingsField {
    if i == 0 { SettingsField::TestSize }
    else if i == 1 { SettingsField::Fullscreen }
    else if i == 2 { SettingsField::SeqWrite }
    else if i == 3 { SettingsField::SeqRead }
    else if i == 4 { SettingsField::RandWrite }
    else { SettingsField::RandRead }
}

impl SettingsField {
    pub open spec fn spec_index(self) -> int {
        match self {
            SettingsField::TestSize => 0,
            SettingsField::Fullscreen => 1,
            SettingsField::SeqWrite => 2,
            SettingsField::SeqRead => 3,
            SettingsField::RandWrite => 4,
            SettingsField::RandRead => 5,
        }
    }

    /// The position of this row on the settings screen.
    pub fn index(self) -> (res: usize)
        ensures
            res == self.spec_index(),
            res < FIELD_COUNT,
            field_at(res as int) == self,
    {
        match self {
            SettingsField::TestSize => 0,
            SettingsField::Fullscreen => 1,
            SettingsField::SeqWrite => 2,
            SettingsField::SeqRead => 3,
            SettingsField::RandWrite => 4,
            SettingsField::RandRead => 5,
        }
    }

    /// The row at position `i`.
    pub fn at(i: usize) -> (res: SettingsField)
        requires
            i < FIELD_COUNT,
        ensures
            res == field_at(i as int),
            res.spec_index() == i,
    {
        if i == 0 { SettingsField::TestSize }
        else if i == 1 { SettingsField::Fullscreen }
        else if i == 2 { SettingsField::SeqWrite }
        else if i == 3 { SettingsField::SeqRead }
        else if i == 4 { SettingsField::RandWrite }
        else { SettingsField::RandRead }
    }
}

/// Positions and rows correspond one to one.
pub proof fn lemma_index_is_position(f: SettingsField, i: int)
    requires
        0 <= i < FIELD_COUNT,
    ensures
        field_at(f.spec_index()) == f,
        field_at(i).spec_index() == i,
        (field_at(i) == f) <==> (f.spec_index() == i),
{
}

/// The choices of test size, in the order in which the settings screen cycles
/// through them.
pub open spec fn size_options() -> Seq<u64> {
    seq![64, 128, 256, 512, 1024, 2048, 4096]
}

/// The size after `current` in the cycle; a size outside the cycle moves to
/// 512 MiB, as if it were 256 MiB.
pub open spec fn spec_next_size(current: u64) -> u64 {
    if current == 64 { 128 }
    else if current == 128 { 256 }
    else if current == 256 { 512 }
    else if current == 512 { 1024 }
    else if current == 1024 { 2048 }
    else if current == 2048 { 4096 }
    else if current == 4096 { 64 }
    else { 512 }
}

pub fn next_size(current: u64) -> (res: u64)
    ensures
        res == spec_next_size(current),
        size_options().contains(res),
{
    let options: [u64; 7] = [64, 128, 256, 512, 1024, 2048, 4096];
    let mut idx: usize = 2;
    let mut i: usize = 0;
    while i < 7
        invariant_except_break
            idx == 2,
        invariant
            i <= 7,
            options@ == size_options(),
            forall|j: int| 0 <= j < i ==> options@[j] != current,
        ensures
            idx < 7,
            (idx == 2 && forall|j: int| 0 <= j < 7 ==> options@[j] != current)
                || options@[idx as int] == current,
        decreases 7 - i,
    {
        if options[i] == current {
            idx = i;
            break;
        }
        i = i + 1;
    }
    let res = options[(idx + 1) % 7];
    assert(size_options().contains(res)) by {
        assert(size_options()[((idx + 1) % 7) as int] == res);
    }
    res
}

/// Stepping through the sizes from any size of the cycle comes back to it
/// after seven steps, and every size of the cycle is visited.
pub proof fn lemma_next_size_cycles(size: u64)
    requires
        size_options().contains(size),
    ensures
        spec_next_size(spec_next_size(spec_next_size(spec_next_size(spec_next_size(
            spec_next_size(spec_next_size(size))))))) == size,
        size_options().contains(spec_next_size(size)),
{
    let j = choose|j: int| 0 <= j < 7 && size_options()[j] == size;
    assert(size_options()[j] == size);
}

/// Each size of the cycle steps to twice itself, the largest, 4096 MiB,
/// wraps around to the smallest, 64 MiB, and any other size steps to 512 MiB.
pub proof fn lemma_next_size_doubles(size: u64)
    ensures
        (size == 64 || size == 128 || size == 256 || size == 512 || size == 1024 || size == 2048)
            ==> spec_next_size(size) == 2 * size,
        size == 4096 ==> spec_next_size(size) == 64,
        !(size == 64 || size == 128 || size == 256 || size == 512 || size == 1024 || size == 2048
            || size == 4096) ==> spec_next_size(size) == 512,
{
}

/// The settings the user can change.
pub struct Settings {
    pub test_size_mb: u64,
    pub fullscreen: bool,
    pub seq_write: bool,
    pub seq_read: bool,
    pub rand_write: bool,
    pub rand_read: bool,
    pub focused: SettingsField,
}

impl Default for Settings {
    fn default() -> (res: Self)
        ensures
            res.test_size_mb == DEFAULT_SIZE_MB,
            !res.fullscreen,
            res.seq_write && res.seq_read && res.rand_write && res.rand_read,
            res.focused == SettingsField::TestSize,
    {
        Settings {
            test_size_mb: DEFAULT_SIZE_MB,
            fullscreen: false,
            seq_write: true,
            seq_read: true,
            rand_write: true,
            rand_read: true,
            focused: SettingsField::TestSize,
        }
    }
}

pub open spec fn kind_if(on: bool, kind: TestKind) -> Seq<TestKind> {
    if on { seq![kind] } else { seq![] }
}

impl Settings {
    /// Whether a test is switched on.
    pub open spec fn is_enabled(&self, kind: TestKind) -> bool {
        match kind {
            TestKind::SeqWrite => self.seq_write,
            TestKind::SeqRead => self.seq_read,
            TestKind::RandWrite => self.rand_write,
            TestKind::RandRead => self.rand_read,
        }
    }

    /// The tests switched on, in the order in which a suite runs them.
    pub open spec fn spec_enabled_tests(&self) -> Seq<TestKind> {
        kind_if(self.seq_write, TestKind::SeqWrite) + kind_if(self.seq_read, TestKind::SeqRead)
            + kind_if(self.rand_write, TestKind::RandWrite) + kind_if(self.rand_read, TestKind::RandRead)
    }

    pub fn enabled_tests(&self) -> (tests: Vec<TestKind>)
        ensures
            tests@ == self.spec_enabled_tests(),
            // Exactly the tests switched on ...
            tests@.contains(TestKind::SeqWrite) == self.seq_write,
            tests@.contains(TestKind::SeqRead) == self.seq_read,
            tests@.contains(TestKind::RandWrite) == self.rand_write,
            tests@.contains(TestKind::RandRead) == self.rand_read,
            // ... in the order a suite runs them, each once.
            forall|i: int, j: int| 0 <= i < j < tests@.len() ==>
                suite_rank(#[trigger] tests@[i]) < suite_rank(#[trigger] tests@[j]),
    {
        let mut tests: Vec<TestKind> = Vec::new();
        if self.seq_write {
            tests.push(TestKind::SeqWrite);
        }
        if self.seq_read {
            tests.push(TestKind::SeqRead);
        }
        if self.rand_write {
            tests.push(TestKind::RandWrite);
        }
        if self.rand_read {
            tests.push(TestKind::RandRead);
        }
        assert(tests@ =~= self.spec_enabled_tests());
        proof {
            lemma_enabled_tests(*self, TestKind::SeqWrite);
            lemma_enabled_tests(*self, TestKind::SeqRead);
            lemma_enabled_tests(*self, TestKind::RandWrite);
            lemma_enabled_tests(*self, TestKind::RandRead);
            lemma_enabled_order(*self);
        }
        tests
    }

    /// These settings with the values saved by an earlier session put in
    /// place of the defaults, where a value was saved.
    pub fn with_saved(self, saved_size: Option<u64>, saved_fullscreen: Option<bool>) -> (res: Settings)
        ensures
            res.test_size_mb == (match saved_size { Some(s) => s, None => self.test_size_mb }),
            res.fullscreen == (match saved_fullscreen { Some(f) => f, None => self.fullscreen }),
            res.seq_write == self.seq_write,
            res.seq_read == self.seq_read,
            res.rand_write == self.rand_write,
            res.rand_read == self.rand_read,
            res.focused == self.focused,
    {
        let mut res = self;
        if let Some(size) = saved_size {
            res.test_size_mb = size;
        }
        if let Some(fs) = saved_fullscreen {
            res.fullscreen = fs;
        }
        res
    }
}

/// A test is in the list of enabled tests exactly when it is switched on,
/// the list holds each test at most once, and it keeps the suite's order.
pub proof fn lemma_enabled_tests(s: Settings, kind: TestKind)
    ensures
        s.spec_enabled_tests().contains(kind) <==> s.is_enabled(kind),
        s.spec_enabled_tests().no_duplicates(),
        s.spec_enabled_tests().len() <= 4,
{
    let t = s.spec_enabled_tests();
    if s.is_enabled(kind) {
        match kind {
            TestKind::SeqWrite => { assert(t[0] == kind); }
            TestKind::SeqRead => {
                let i = if s.seq_write { 1int } else { 0int };
                assert(t[i] == kind);
            }
            TestKind::RandWrite => {
                let i = (if s.seq_write { 1int } else { 0int }) + (if s.seq_read { 1int } else { 0int });
                assert(t[i] == kind);
            }
            TestKind::RandRead => {
                let i = (if s.seq_write { 1int } else { 0int }) + (if s.seq_read { 1int } else { 0int })
                    + (if s.rand_write { 1int } else { 0int });
                assert(t[i] == kind);
            }
        }
    }
}

proof fn lemma_enabled_order(s: Settings)
    ensures
        forall|i: int, j: int| 0 <= i < j < s.spec_enabled_tests().len() ==>
            suite_rank(#[trigger] s.spec_enabled_tests()[i]) < suite_rank(#[trigger] s.spec_enabled_tests()[j]),
{
    let a = kind_if(s.seq_write, TestKind::SeqWrite);
    let b = kind_if(s.seq_read, TestKind::SeqRead);
    let c = kind_if(s.rand_write, TestKind::RandWrite);
    let d = kind_if(s.rand_read, TestKind::RandRead);
    let t = s.spec_enabled_tests();
    assert(t == a + b + c + d);
    assert forall|k: int| 0 <= k < t.len() implies
        (#[trigger] suite_rank(t[k])) == (if k < a.len() { 0int } else if k < a.len() + b.len() { 1int }
            else if k < a.len() + b.len() + c.len() { 2int } else { 3int }) by {
        if k < a.len() {
            assert(t[k] == a[k]);
        } else if k < a.len() + b.len() {
            assert(t[k] == b[k - a.len()]);
        } else if k < a.len() + b.len() + c.len() {
            assert(t[k] == c[k - a.len() - b.len()]);
        } else {
            assert(t[k] == d[k - a.len() - b.len() - c.len()]);
        }
    }
}

/// How a size in MiB is shown: whole GiB from 1024 MiB on, MiB below.
pub open spec fn spec_format_size(mb: u64) -> Seq<char> {
    if mb >= 1024 {
        decimal((mb / 1024) as nat) + " GB"@
    } else {
        decimal(mb as nat) + " MB"@
    }
}

pub fn format_size(mb: u64) -> (res: String)
    ensures
        res@ == spec_format_size(mb),
{
    let mut s = String::new();
    if mb >= 1024 {
        push_decimal(&mut s, mb / 1024);
        s.append(" GB");
    } else {
        push_decimal(&mut s, mb);
        s.append(" MB");
    }
    assert(s@ =~= spec_format_size(mb));
    s
}

} // verus!
