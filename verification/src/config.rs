//! Settings that shape a mirror run: the base URL as given on the command
//! line and the bound on concurrency as set in `PARALLEL_JOBS`.

use vstd::prelude::*;
use crate::text::{chars_of, trim_trailing_slashes, without_trailing_slashes};

verus! {

/// How many listings, and then how many downloads, run at a time when
/// nothing valid is set.
pub const DEFAULT_JOBS: usize = 50;

/// The directory below the mirror's root that holds the validator
/// records.
pub const METADATA_DIR: &'static str = ".metadata";

pub open spec fn is_digit(c: char) -> bool {
    '0' <= c <= '9'
}

/// The number that the decimal digits `digits` write.
pub open spec fn decimal(digits: Seq<char>) -> nat
    decreases digits.len(),
{
    if digits.len() == 0 {
        0
    } else {
        decimal(digits.drop_last()) * 10 + (digits.last() as nat - '0' as nat) as nat
    }
}

/// The digits of a number as written: what follows an optional `+`.
pub open spec fn unsigned_part(text: Seq<char>) -> Seq<char> {
    if text.len() > 0 && text[0] == '+' {
        text.skip(1)
    } else {
        text
    }
}

/// Whether `text` writes a number: an optional `+` and then one digit or
/// more, nothing else.
pub open spec fn is_number(text: Seq<char>) -> bool {
    let digits = unsigned_part(text);
    digits.len() > 0 && forall|i: int| 0 <= i < digits.len() ==> is_digit(#[trigger] digits[i])
}

/// The bound on concurrency that the setting `value` asks for: the
/// number it writes if that is positive and fits the machine, the default
/// if it is unset or anything else.
pub open spec fn jobs_from(value: Option<Seq<char>>) -> nat {
    match value {
        Some(text) => if is_number(text) && 0 < decimal(unsigned_part(text)) <= usize::MAX {
            decimal(unsigned_part(text))
        } else {
            DEFAULT_JOBS as nat
        },
        None => DEFAULT_JOBS as nat,
    }
}

/// A number does not get smaller when more digits follow.
proof fn lemma_decimal_grows(digits: Seq<char>, upto: int)
    requires
        0 <= upto <= digits.len(),
        forall|i: int| 0 <= i < digits.len() ==> is_digit(#[trigger] digits[i]),
    ensures
        decimal(digits.take(upto)) <= decimal(digits),
    decreases digits.len() - upto,
{
    if upto < digits.len() {
        lemma_decimal_grows(digits, upto + 1);
        assert(digits.take(upto + 1).drop_last() =~= digits.take(upto));
    } else {
        assert(digits.take(upto) =~= digits);
    }
}

/// The bound on concurrency for the setting `value`, `None` standing for
/// a setting that is not there.
pub fn parse_jobs(value: Option<&str>) -> (jobs: usize)
    ensures
        jobs == jobs_from(
            match value {
                Some(text) => Some(text@),
                None => None,
            },
        ),
        jobs > 0,
{
    let text = match value {
        Some(text) => text,
        None => {
            return DEFAULT_JOBS;
        },
    };
    let chars = chars_of(text);
    let first: usize = if chars.len() > 0 && chars[0] == '+' {
        1
    } else {
        0
    };
    let ghost digits = unsigned_part(text@);
    if first == chars.len() {
        return DEFAULT_JOBS;
    }
    let mut number: usize = 0;
    let mut i: usize = first;
    while i < chars.len()
        invariant
            first <= i <= chars.len(),
            chars@ == text@,
            value == Some(text),
            digits == unsigned_part(text@),
            digits.len() == chars.len() - first,
            forall|k: int| 0 <= k < i - first ==> is_digit(#[trigger] digits[k]),
            number == decimal(digits.take(i - first)),
        decreases chars.len() - i,
    {
        let c = chars[i];
        if c < '0' || c > '9' {
            assert(!is_digit(digits[i - first]));
            return DEFAULT_JOBS;
        }
        let digit: usize = (c as u32 - '0' as u32) as usize;
        assert(digits.take(i - first + 1).drop_last() =~= digits.take(i - first));
        let next = match number.checked_mul(10) {
            Some(tens) => tens.checked_add(digit),
            None => None,
        };
        match next {
            Some(n) => {
                number = n;
            },
            None => {
                proof {
                    if is_number(text@) {
                        lemma_decimal_grows(digits, i - first + 1);
                    }
                }
                return DEFAULT_JOBS;
            },
        }
        i += 1;
    }
    assert(digits.take(i - first) =~= digits);
    if number == 0 {
        DEFAULT_JOBS
    } else {
        number
    }
}

/// The base URL to mirror from: the URL as given, without trailing
/// slashes.
pub fn base_url_of(given: &str) -> (base: String)
    ensures
        base@ == without_trailing_slashes(given@),
{
    trim_trailing_slashes(given)
}

} // verus!
