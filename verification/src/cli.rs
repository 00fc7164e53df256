//! The command line: `--headless`, `--path DIR`, `--size MB`, `--json`.

use vstd::prelude::*;
use crate::text::{collect_chars, decimal, digit_char};

verus! {

/// The digit a character stands for, if it is an ASCII digit.
pub open spec fn digit_value(c: char) -> Option<nat> {
    if '0' <= c && c <= '9' { Some((c as u32 - '0' as u32) as nat) } else { None }
}

pub open spec fn all_digits(s: Seq<char>) -> bool {
    forall|i: int| 0 <= i < s.len() ==> (#[trigger] digit_value(s[i])) is Some
}

/// The number that a string of decimal digits writes.
pub open spec fn digits_value(s: Seq<char>) -> nat
    decreases s.len(),
{
    if s.len() == 0 {
        0
    } else {
        digits_value(s.drop_last()) * 10 + digit_value(s.last())->0
    }
}

/// How `u64::from_str` reads a number: an optional `+`, then one or more
/// ASCII digits, the value at most `u64::MAX`.
pub open spec fn spec_parse_u64(s: Seq<char>) -> Option<u64> {
    let digits = if s.len() > 0 && s[0] == '+' { s.drop_first() } else { s };
    if digits.len() > 0 && all_digits(digits) && digits_value(digits) <= u64::MAX {
        Some(digits_value(digits) as u64)
    } else {
        None
    }
}

proof fn lemma_digits_value_grows(s: Seq<char>, k: int)
    requires
        0 <= k <= s.len(),
        all_digits(s),
    ensures
        digits_value(s.take(k)) <= digits_value(s),
    decreases s.len() - k,
{
    if k < s.len() {
        lemma_digits_value_grows(s, k + 1);
        assert(s.take(k + 1).drop_last() =~= s.take(k));
        assert(s.take(k + 1).last() == s[k]);
        assert(digit_value(s[k]) is Some);
    } else {
        assert(s.take(k) =~= s);
    }
}

/// Reads a decimal number as `u64::from_str` does.
pub fn parse_u64(s: &str) -> (res: Option<u64>)
    ensures
        res == spec_parse_u64(s@),
{
    let chars = collect_chars(s);
    let n = chars.len();
    let start: usize = if n > 0 && chars[0] == '+' { 1 } else { 0 };
    let ghost digits = if s@.len() > 0 && s@[0] == '+' { s@.drop_first() } else { s@ };
    assert(digits =~= chars@.skip(start as int));
    if start == n {
        return None;
    }
    let mut value: u64 = 0;
    let mut i: usize = start;
    while i < n
        invariant
            start <= i <= n,
            n == chars@.len(),
            chars@ == s@,
            digits == chars@.skip(start as int),
            digits == (if s@.len() > 0 && s@[0] == '+' { s@.drop_first() } else { s@ }),
            all_digits(digits.take(i - start)),
            value == digits_value(digits.take(i - start)),
        decreases n - i,
    {
        let c = chars[i];
        assert(digits.take(i - start + 1).drop_last() =~= digits.take(i - start));
        assert(digits[i - start] == c);
        if c < '0' || c > '9' {
            assert(!all_digits(digits)) by {
                assert(digit_value(digits[i - start]) is None);
            }
            assert(spec_parse_u64(s@) is None);
            return None;
        }
        let d: u64 = (c as u32 - '0' as u32) as u64;
        if value > (u64::MAX - d) / 10 {
            proof {
                assert(all_digits(digits.take(i - start + 1)));
                assert(digits_value(digits.take(i - start + 1)) > u64::MAX) by (nonlinear_arith)
                    requires
                        digits_value(digits.take(i - start + 1)) == value * 10 + d,
                        value > (u64::MAX - d) / 10,
                        d <= 9,
                ;
                if all_digits(digits) {
                    lemma_digits_value_grows(digits, i - start + 1);
                }
                assert(spec_parse_u64(s@) is None);
            }
            return None;
        }
        value = value * 10 + d;
        i = i + 1;
    }
    assert(digits.take(n - start) =~= digits);
    Some(value)
}

/// Whether `flag` is one of the arguments.
pub open spec fn has_flag(args: Seq<String>, flag: Seq<char>) -> bool {
    exists|i: int| 0 <= i < args.len() && (#[trigger] args[i])@ == flag
}

/// The first position from `from` on where `flag` stands with an argument
/// after it.
pub open spec fn flag_position(args: Seq<String>, flag: Seq<char>, from: int) -> Option<int>
    decreases args.len() - from,
{
    if from < 0 || from + 1 >= args.len() {
        None
    } else if args[from]@ == flag {
        Some(from)
    } else {
        flag_position(args, flag, from + 1)
    }
}

/// The argument after the first `flag` that has one.
pub open spec fn flag_value(args: Seq<String>, flag: Seq<char>) -> Option<Seq<char>> {
    match flag_position(args, flag, 0) {
        Some(i) => Some(args[i + 1]@),
        None => None,
    }
}

/// What the command line asks for.
pub struct CliArgs {
    /// Run the suite without the interactive screen.
    pub headless: bool,
    /// The directory to test in, from `--path`.
    pub path: Option<String>,
    /// The test size in MiB, from `--size`, when it is a number.
    pub size_mb: Option<u64>,
    /// Print the results as JSON.
    pub json: bool,
}

fn find_flag(args: &Vec<String>, flag: &str) -> (res: bool)
    ensures
        res == has_flag(args@, flag@),
{
    let f = String::from_str(flag);
    let mut i: usize = 0;
    while i < args.len()
        invariant
            i <= args@.len(),
            f@ == flag@,
            forall|j: int| 0 <= j < i ==> args@[j]@ != flag@,
        decreases args@.len() - i,
    {
        if args[i] == f {
            return true;
        }
        i = i + 1;
    }
    false
}

/// The position of the argument after the first `flag` that has one.
fn find_flag_value(args: &Vec<String>, flag: &str) -> (res: Option<usize>)
    ensures
        match res {
            Some(v) => flag_position(args@, flag@, 0) == Some(v - 1) && 0 < v < args@.len(),
            None => flag_position(args@, flag@, 0) is None,
        },
{
    let f = String::from_str(flag);
    let mut i: usize = 0;
    while i < args.len() && i + 1 < args.len()
        invariant
            i <= args@.len(),
            f@ == flag@,
            flag_position(args@, flag@, 0) == flag_position(args@, flag@, i as int),
        decreases args@.len() - i,
    {
        if args[i] == f {
            return Some(i + 1);
        }
        i = i + 1;
    }
    None
}

/// Reads the command line `args`, the program's name first.
pub fn parse_args(args: &Vec<String>) -> (res: CliArgs)
    ensures
        res.headless == has_flag(args@, "--headless"@),
        res.json == has_flag(args@, "--json"@),
        match res.path {
            Some(p) => flag_value(args@, "--path"@) == Some(p@),
            None => flag_value(args@, "--path"@) is None,
        },
        res.size_mb == (match flag_value(args@, "--size"@) {
            Some(v) => spec_parse_u64(v),
            None => None,
        }),
{
    let headless = find_flag(args, "--headless");
    let json = find_flag(args, "--json");
    let path = match find_flag_value(args, "--path") {
        Some(v) => Some(args[v].clone()),
        None => None,
    };
    let size_mb = match find_flag_value(args, "--size") {
        Some(v) => parse_u64(args[v].as_str()),
        None => None,
    };
    CliArgs { headless, path, size_mb, json }
}

proof fn lemma_digit_char(k: nat)
    requires
        k < 10,
    ensures
        digit_value(digit_char(k)) == Some(k),
{
}

proof fn lemma_decimal_digits(n: nat)
    ensures
        all_digits(decimal(n)),
        digits_value(decimal(n)) == n,
        decimal(n).len() > 0,
        decimal(n)[0] != '+',
    decreases n,
{
    lemma_digit_char(n % 10);
    if n >= 10 {
        lemma_decimal_digits(n / 10);
        let d = decimal(n / 10).push(digit_char(n % 10));
        assert(d.drop_last() =~= decimal(n / 10));
        assert forall|i: int| 0 <= i < d.len() implies (#[trigger] digit_value(d[i])) is Some by {
            if i < d.len() - 1 {
                assert(d[i] == decimal(n / 10)[i]);
            }
        }
        assert(digits_value(d) == digits_value(decimal(n / 10)) * 10 + n % 10);
    } else {
        let d = seq![digit_char(n)];
        assert(d.drop_last() =~= Seq::<char>::empty());
        assert(digits_value(d) == digits_value(Seq::<char>::empty()) * 10 + n);
    }
}

/// Reading back a number written in decimal gives the number.
pub proof fn lemma_parse_decimal(n: u64)
    ensures
        spec_parse_u64(decimal(n as nat)) == Some(n),
{
    lemma_decimal_digits(n as nat);
}

} // verus!
