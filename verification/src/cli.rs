//! The command line as plain values, and the reading of its numbers.
use crate::text::{chars_of, decimal, digit};
use vstd::prelude::*;

verus! {

/// How a directory is deleted.
#[derive(Debug, Clone, Copy, PartialEq, Eq, Structural)]
pub enum DeleteStrategy {
    /// The whole tree at once.
    Native,
    /// Entry by entry, so that each entry that stays is named.
    Recursive,
}

/// The commands besides deletion.
#[derive(Debug)]
pub enum AppCommand {
    /// Write a template config file.
    Init { output: String, force: bool },
    /// Move an entry and leave a symbolic link in its place.
    MoveLink { source: String, target_dir: String },
    /// Move an entry with the commands of Windows.
    Move { source: String, target_dir: String, mt: Option<usize> },
}

/// The whole command line.
#[derive(Debug)]
pub struct Cli {
    pub command: Option<AppCommand>,
    pub config: String,
    pub paths: Vec<String>,
    pub threads: Option<usize>,
    pub no_progress: bool,
    pub dry_run: bool,
    pub delete_strategy: DeleteStrategy,
    pub repair_permissions: bool,
}

// ---------------------------------------------------------------------------
// Thread counts

pub open spec fn is_digit(c: char) -> bool {
    48 <= c as int <= 57
}

/// The number that decimal digits stand for.
pub open spec fn decimal_value(digits: Seq<char>) -> nat
    decreases digits.len(),
{
    if digits.len() == 0 {
        0
    } else {
        decimal_value(digits.drop_last()) * 10 + (digits.last() as int - 48) as nat
    }
}

/// The digits of a number behind an optional plus sign.
pub open spec fn unsigned_digits(input: Seq<char>) -> Seq<char> {
    if input.len() > 0 && input[0] == '+' {
        input.skip(1)
    } else {
        input
    }
}

/// The number that `input` writes: one or more decimal digits behind an
/// optional plus sign, no larger than a `usize`.
pub open spec fn written_number(input: Seq<char>) -> Option<nat> {
    let digits = unsigned_digits(input);
    if digits.len() > 0 && (forall|i: int| 0 <= i < digits.len() ==> is_digit(#[trigger] digits[i]))
        && decimal_value(digits) <= usize::MAX {
        Some(decimal_value(digits))
    } else {
        None
    }
}

proof fn lemma_longer_is_no_smaller(digits: Seq<char>, n: int)
    requires
        0 <= n <= digits.len(),
    ensures
        decimal_value(digits.take(n)) <= decimal_value(digits),
    decreases digits.len() - n,
{
    if n == digits.len() {
        assert(digits.take(n) =~= digits);
    } else {
        assert(digits.take(n + 1).drop_last() =~= digits.take(n));
        lemma_longer_is_no_smaller(digits, n + 1);
    }
}

fn digit_value(c: char) -> (value: Option<usize>)
    ensures
        is_digit(c) ==> value == Some((c as int - 48) as usize),
        !is_digit(c) ==> value is None,
{
    let code: u32 = c as u32;
    if 48 <= code && code <= 57 {
        Some((code - 48) as usize)
    } else {
        None
    }
}

/// Reads the number of worker threads.
pub fn parse_threads(input: &str) -> (count: Result<usize, String>)
    ensures
        match written_number(input@) {
            Some(n) => if n == 0 {
                count matches Err(message) && message@ == "threads must be >= 1"@
            } else {
                count matches Ok(value) && value as nat == n
            },
            None => count matches Err(message) && message@
                == "threads must be a positive integer"@,
        },
{
    let list = chars_of(input);
    let start: usize = if list.len() > 0 && list[0] == '+' {
        1
    } else {
        0
    };
    let ghost digits = unsigned_digits(input@);
    assert(list@.skip(start as int) =~= digits);
    if start == list.len() {
        return Err("threads must be a positive integer".to_owned());
    }
    let mut value: usize = 0;
    let mut i: usize = start;
    assert(digits.take(0) =~= seq![]);
    while i < list.len()
        invariant
            start <= i <= list.len(),
            list@.skip(start as int) == digits,
            digits == unsigned_digits(input@),
            value == decimal_value(digits.take(i - start)),
            forall|k: int| 0 <= k < i - start ==> is_digit(#[trigger] digits[k]),
        decreases list.len() - i,
    {
        let c = list[i];
        assert(c == digits[i - start]);
        assert(digits.take(i - start + 1).drop_last() =~= digits.take(i - start));
        let d: usize = match digit_value(c) {
            Some(d) => d,
            None => {
                return Err("threads must be a positive integer".to_owned());
            },
        };
        if value > (usize::MAX - d) / 10 {
            proof {
                lemma_longer_is_no_smaller(digits, i - start + 1);
            }
            return Err("threads must be a positive integer".to_owned());
        }
        value = value * 10 + d;
        i += 1;
    }
    assert(digits.take(i - start) =~= digits);
    if value == 0 {
        return Err("threads must be >= 1".to_owned());
    }
    Ok(value)
}

proof fn lemma_decimal_is_read_back(n: nat)
    ensures
        decimal(n).len() > 0,
        forall|i: int| 0 <= i < decimal(n).len() ==> is_digit(#[trigger] decimal(n)[i]),
        decimal_value(decimal(n)) == n,
    decreases n,
{
    reveal_with_fuel(decimal_value, 2);
    if n < 10 {
        assert(decimal(n).drop_last() =~= seq![]);
        assert(decimal(n)[0] == digit(n as int));
    } else {
        lemma_decimal_is_read_back(n / 10);
        let shorter = decimal(n / 10);
        assert(decimal(n).drop_last() =~= shorter);
        assert forall|i: int| 0 <= i < decimal(n).len() implies is_digit(
            #[trigger] decimal(n)[i],
        ) by {
            if i < shorter.len() {
                assert(decimal(n)[i] == shorter[i]);
            }
        }
    }
}

/// A number written in decimal is read back as itself.
pub proof fn law_written_number_is_read_back(n: nat)
    requires
        n <= usize::MAX,
    ensures
        written_number(decimal(n)) == Some(n),
{
    lemma_decimal_is_read_back(n);
    assert(is_digit(decimal(n)[0]));
    assert(unsigned_digits(decimal(n)) == decimal(n));
}

/// A number may have a plus sign in front, and zeros; it is otherwise made of
/// digits alone, and there is at least one.
pub proof fn law_numbers_are_digits(input: Seq<char>, n: nat)
    requires
        n <= usize::MAX,
    ensures
        written_number(seq!['+'] + decimal(n)) == Some(n),
        written_number(seq!['0'] + decimal(n)) == Some(n),
        written_number(seq![]) is None,
        written_number(seq!['+']) is None,
        ({
            let digits = if input.len() > 0 && input[0] == '+' {
                input.skip(1)
            } else {
                input
            };
            (exists|i: int| 0 <= i < digits.len() && !(48 <= #[trigger] digits[i] as int <= 57))
                ==> written_number(input) is None
        }),
        written_number(input) matches Some(m) ==> m <= usize::MAX,
{
    lemma_decimal_is_read_back(n);
    let digits = decimal(n);
    let signed = seq!['+'] + digits;
    assert(signed.skip(1) =~= digits);
    let padded = seq!['0'] + digits;
    lemma_leading_zero(digits);
    assert(padded[0] == '0');
    assert forall|i: int| 0 <= i < padded.len() implies is_digit(#[trigger] padded[i]) by {
        if i > 0 {
            assert(padded[i] == digits[i - 1]);
        }
    }
    assert(unsigned_digits(padded) == padded);
    assert(seq!['+'].skip(1) =~= Seq::<char>::empty());
    let own = unsigned_digits(input);
    if exists|i: int| 0 <= i < own.len() && !(48 <= #[trigger] own[i] as int <= 57) {
        let i = choose|i: int| 0 <= i < own.len() && !(48 <= #[trigger] own[i] as int <= 57);
        assert(!is_digit(own[i]));
    }
}

proof fn lemma_leading_zero(digits: Seq<char>)
    ensures
        decimal_value(seq!['0'] + digits) == decimal_value(digits),
    decreases digits.len(),
{
    let padded = seq!['0'] + digits;
    if digits.len() == 0 {
        reveal_with_fuel(decimal_value, 2);
        assert(padded.drop_last() =~= seq![]);
        assert(padded.last() == '0');
        assert('0' as int == 48);
    } else {
        assert(padded.drop_last() =~= seq!['0'] + digits.drop_last());
        assert(padded.last() == digits.last());
        lemma_leading_zero(digits.drop_last());
    }
}

/// A digit behind a number multiplies it by ten and is added to it.
pub proof fn law_digits_count_by_their_place(digits: Seq<char>, d: int)
    requires
        0 <= d < 10,
    ensures
        decimal_value(digits.push((48 + d) as char)) == 10 * decimal_value(digits) + d,
{
    assert(digits.push((48 + d) as char).drop_last() =~= digits);
}

} // verus!
