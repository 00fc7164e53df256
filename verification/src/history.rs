//! The list of past runs and the saved settings.

use vstd::prelude::*;
use crate::bench::TestKind;
use crate::text::{decimal, digit_char, push_decimal};
use vstd::view::View as _;

verus! {

/// The number of runs the history keeps.
pub const MAX_ENTRIES: usize = 50;

/// One past run: when it ran, on which drive, and what each test measured.
pub struct HistoryEntry<R> {
    pub label: String,
    pub drive: String,
    pub results: Vec<(TestKind, R)>,
}

/// The history after a new run: the new run first, then the earlier runs,
/// newest first, keeping at most `MAX_ENTRIES` runs.
pub open spec fn spec_insert_entry<R>(history: Seq<HistoryEntry<R>>, entry: HistoryEntry<R>) -> Seq<HistoryEntry<R>> {
    let all = seq![entry] + history;
    if all.len() <= MAX_ENTRIES {
        all
    } else {
        all.take(MAX_ENTRIES as int)
    }
}

pub fn insert_entry<R>(history: Vec<HistoryEntry<R>>, entry: HistoryEntry<R>) -> (res: Vec<HistoryEntry<R>>)
    ensures
        res@ == spec_insert_entry(history@, entry),
{
    let ghost earlier = history@;
    let mut history = history;
    history.insert(0, entry);
    assert(history@ =~= seq![entry] + earlier);
    history.truncate(MAX_ENTRIES);
    history
}


/// After a run is recorded, the newest run comes first, the history never
/// grows beyond `MAX_ENTRIES`, and the earlier runs follow in their order,
/// the oldest dropped when the history is full.
pub proof fn lemma_insert_entry<R>(history: Seq<HistoryEntry<R>>, entry: HistoryEntry<R>)
    ensures
        spec_insert_entry(history, entry)[0] == entry,
        spec_insert_entry(history, entry).len() == if history.len() + 1 <= MAX_ENTRIES {
            history.len() + 1
        } else {
            MAX_ENTRIES as nat
        },
        forall|i: int| 1 <= i < spec_insert_entry(history, entry).len() ==>
            #[trigger] spec_insert_entry(history, entry)[i] == history[i - 1],
{
}

/// The settings saved between sessions; a value is absent until first saved.
pub struct Config {
    pub test_size_mb: Option<u64>,
    pub fullscreen: Option<bool>,
}

impl Config {
    /// The saved test size and fullscreen flag.
    pub fn saved_settings(&self) -> (res: (Option<u64>, Option<bool>))
        ensures
            res == (self.test_size_mb, self.fullscreen),
    {
        (self.test_size_mb, self.fullscreen)
    }

    /// The configuration with a new test size saved and the rest kept.
    pub fn with_test_size(self, size_mb: u64) -> (res: Config)
        ensures
            res.test_size_mb == Some(size_mb),
            res.fullscreen == self.fullscreen,
    {
        Config { test_size_mb: Some(size_mb), fullscreen: self.fullscreen }
    }

    /// The configuration with a new fullscreen flag saved and the rest kept.
    pub fn with_fullscreen(self, fullscreen: bool) -> (res: Config)
        ensures
            res.fullscreen == Some(fullscreen),
            res.test_size_mb == self.test_size_mb,
    {
        Config { test_size_mb: self.test_size_mb, fullscreen: Some(fullscreen) }
    }
}

impl Default for Config {
    fn default() -> (res: Self)
        ensures
            res.test_size_mb is None,
            res.fullscreen is None,
    {
        Config { test_size_mb: None, fullscreen: None }
    }
}


/// A number written with at least two digits.
pub open spec fn two_digits(n: u32) -> Seq<char> {
    if n < 10 { "0"@ + decimal(n as nat) } else { decimal(n as nat) }
}

fn push_two_digits(s: &mut String, n: u32)
    ensures
        final(s)@ == old(s)@ + two_digits(n),
{
    if n < 10 {
        s.append("0");
    }
    push_decimal(s, n as u64);
    assert(final(s)@ =~= old(s)@ + two_digits(n));
}

/// The label of a run made at the given local time: "MM/DD hh:mm", the
/// month counted from 1.
pub open spec fn spec_time_label(month: u32, day: u32, hour: u32, minute: u32) -> Seq<char> {
    two_digits(month) + "/"@ + two_digits(day) + " "@ + two_digits(hour) + ":"@ + two_digits(minute)
}

/// Two characters that are decimal digits writing `n`.
pub open spec fn reads_as_two_digits(s: Seq<char>, n: u32) -> bool {
    &&& s.len() == 2
    &&& '0' <= s[0] <= '9'
    &&& '0' <= s[1] <= '9'
    &&& (s[0] as u32 - '0' as u32) * 10 + (s[1] as u32 - '0' as u32) == n
}

proof fn lemma_digit_char_value(d: nat)
    requires
        d < 10,
    ensures
        '0' <= digit_char(d) <= '9',
        digit_char(d) as u32 - '0' as u32 == d,
{
}

/// A number below 100 is written with exactly two digits that read back as
/// the number.
pub proof fn lemma_two_digits(n: u32)
    requires
        n < 100,
    ensures
        reads_as_two_digits(two_digits(n), n),
{
    reveal_strlit("0");
    if n < 10 {
        lemma_digit_char_value(n as nat);
        assert(two_digits(n) =~= seq!['0', digit_char(n as nat)]);
    } else {
        lemma_digit_char_value((n / 10) as nat);
        lemma_digit_char_value((n % 10) as nat);
        assert(decimal((n / 10) as nat) == seq![digit_char((n / 10) as nat)]);
        assert(two_digits(n) =~= seq![digit_char((n / 10) as nat), digit_char((n % 10) as nat)]);
    }
}

pub fn time_label(month: u32, day: u32, hour: u32, minute: u32) -> (res: String)
    ensures
        res@ == spec_time_label(month, day, hour, minute),
        // With every field below 100 the label is "MM/DD hh:mm": each field
        // exactly two digits reading back as its value.
        (month < 100 && day < 100 && hour < 100 && minute < 100) ==> {
            &&& res@.len() == 11
            &&& reads_as_two_digits(res@.subrange(0, 2), month)
            &&& res@[2] == '/'
            &&& reads_as_two_digits(res@.subrange(3, 5), day)
            &&& res@[5] == ' '
            &&& reads_as_two_digits(res@.subrange(6, 8), hour)
            &&& res@[8] == ':'
            &&& reads_as_two_digits(res@.subrange(9, 11), minute)
        },
{
    let mut s = String::new();
    push_two_digits(&mut s, month);
    s.append("/");
    push_two_digits(&mut s, day);
    s.append(" ");
    push_two_digits(&mut s, hour);
    s.append(":");
    push_two_digits(&mut s, minute);
    assert(s@ =~= spec_time_label(month, day, hour, minute));
    proof {
        if month < 100 && day < 100 && hour < 100 && minute < 100 {
            reveal_strlit("/");
            reveal_strlit(" ");
            reveal_strlit(":");
            lemma_two_digits(month);
            lemma_two_digits(day);
            lemma_two_digits(hour);
            lemma_two_digits(minute);
            let l = s@;
            assert(l.subrange(0, 2) =~= two_digits(month));
            assert(l.subrange(3, 5) =~= two_digits(day));
            assert(l.subrange(6, 8) =~= two_digits(hour));
            assert(l.subrange(9, 11) =~= two_digits(minute));
        }
    }
    s
}

} // verus!
