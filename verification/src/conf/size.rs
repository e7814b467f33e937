//! Sizes: the units of data size, and the little language in which a
//! partition's size is written.
//!
//! A size token is a run of numeric characters followed by a suffix:
//! `500MB`, `50%` (of the whole disk), `10%%` (of the free space); without
//! the number, `min` or `max`.

use vstd::prelude::*;
use vstd::string::*;
use crate::conf::part::{match_part_total, part_total_of, PartTotal};
use crate::search::{first_index, is_first, lemma_first_index_is, lemma_first_index_none};
use crate::text::{
    chars_of, decimal_u32, lowercase, numeric, parse_u32, str_eq, string_of, text_result,
};

verus! {

/// A unit of data size; each is 1024 times the one before it.
#[derive(Clone, Copy, Debug, PartialEq, Eq, Structural)]
pub enum DataSize {
    B,
    KB,
    MB,
    GB,
    TB,
}

impl DataSize {
    /// The number of bytes that one unit holds.
    pub open spec fn factor(self) -> int {
        match self {
            DataSize::B => 1int,
            DataSize::KB => 1024int,
            DataSize::MB => 1024int * 1024,
            DataSize::GB => 1024int * 1024 * 1024,
            DataSize::TB => 1024int * 1024 * 1024 * 1024,
        }
    }
}

/// The size of a partition as the description gives it.
#[derive(Clone, Copy, Debug, PartialEq, Eq, Structural)]
pub enum PartSize {
    /// So many units of data.
    Size(u32, DataSize),
    /// So many hundredths of the whole disk.
    PercentTotal(u32),
    /// So many hundredths of the space that is still free.
    PercentFree(u32),
    /// The least or the most that the remaining space allows.
    Total(PartTotal),
}

/// The unit that a lower-case name stands for.
pub open spec fn data_size_of(name: Seq<char>) -> Option<DataSize> {
    if name == "b"@ {
        Some(DataSize::B)
    } else if name == "kb"@ {
        Some(DataSize::KB)
    } else if name == "mb"@ {
        Some(DataSize::MB)
    } else if name == "gb"@ {
        Some(DataSize::GB)
    } else if name == "tb"@ {
        Some(DataSize::TB)
    } else {
        None
    }
}

/// The suffixes and units that a size token may end in, as the messages list
/// them.
pub open spec fn size_tokens_text() -> Seq<char> {
    "[\"%\", \"%%\", \"min/max...\"] or [\"B\", \"KB\", \"MB\", \"GB\", \"TB\"]"@
}

/// The message for a token that is all number, or empty.
pub open spec fn missing_unit_text() -> Seq<char> {
    "Size tag can't be empty / must have a unit of "@ + size_tokens_text()
}

/// The message for a token without number that is neither `min` nor `max`.
pub open spec fn invalid_total_text(suffix: Seq<char>) -> Seq<char> {
    "Invalid variant of PartTotal "@ + suffix + ", expected one of [\"min\", \"max\"]"@
}

/// The message for a suffix that is no percent sign and no unit.
pub open spec fn invalid_size_text(unit: Seq<char>) -> Seq<char> {
    "Invalid variant of PartSize "@ + unit + ", expected one of "@ + size_tokens_text()
}

/// The message for a number that cannot be read.
pub open spec fn invalid_count_text(count: Seq<char>) -> Seq<char> {
    "Invalid count "@ + count + " in size tag, expected a number up to 4294967295 with a unit of "@
        + size_tokens_text()
}

/// What a token stands for, given its numeric run `count`, the `suffix` that
/// follows it, and that suffix in lower case (`unit`).
///
/// Without a number the suffix must be `min` or `max`, as written. After a
/// number, `%` and `%%` are the two percentages and anything else must be a
/// unit, in any case of letters; the unit is looked at before the number is.
pub open spec fn part_size_of(count: Seq<char>, suffix: Seq<char>, unit: Seq<char>) -> Result<
    PartSize,
    Seq<char>,
> {
    if count.len() == 0 {
        match part_total_of(suffix) {
            Some(total) => Ok(PartSize::Total(total)),
            None => Err(invalid_total_text(suffix)),
        }
    } else if suffix == "%"@ {
        match decimal_u32(count) {
            Some(n) => Ok(PartSize::PercentTotal(n)),
            None => Err(invalid_count_text(count)),
        }
    } else if suffix == "%%"@ {
        match decimal_u32(count) {
            Some(n) => Ok(PartSize::PercentFree(n)),
            None => Err(invalid_count_text(count)),
        }
    } else {
        match data_size_of(unit) {
            Some(size) => match decimal_u32(count) {
                Some(n) => Ok(PartSize::Size(n, size)),
                None => Err(invalid_count_text(count)),
            },
            None => Err(invalid_size_text(unit)),
        }
    }
}

/// What a size token stands for. The number is the longest run of numeric
/// characters at its start; a token with nothing after the number is an error.
pub open spec fn part_size_of_token(token: Seq<char>) -> Result<PartSize, Seq<char>> {
    match first_index(token, |c: char| !numeric(c)) {
        Some(n) => part_size_of(token.take(n), token.skip(n), lowercase(token.skip(n))),
        None => Err(missing_unit_text()),
    }
}

/// Matches the lower-case name of a unit to the unit; hands the name back
/// where it is none.
pub fn match_data_size(value: &str) -> (r: Result<DataSize, &str>)
    ensures
        match data_size_of(value@) {
            Some(size) => r == Ok::<DataSize, &str>(size),
            None => r == Err::<DataSize, &str>(value),
        },
{
    if str_eq(value, "b") {
        Ok(DataSize::B)
    } else if str_eq(value, "kb") {
        Ok(DataSize::KB)
    } else if str_eq(value, "mb") {
        Ok(DataSize::MB)
    } else if str_eq(value, "gb") {
        Ok(DataSize::GB)
    } else if str_eq(value, "tb") {
        Ok(DataSize::TB)
    } else {
        Err(value)
    }
}

/// The number of bytes in `count` units of `unit`.
pub fn data_size_bytes(count: i64, unit: &DataSize) -> (bytes: i64)
    requires
        i64::MIN <= count * unit.factor() <= i64::MAX,
    ensures
        bytes == count * unit.factor(),
{
    match unit {
        DataSize::B => count,
        DataSize::KB => count * 1024,
        DataSize::MB => count * 1048576,
        DataSize::GB => count * 1073741824,
        DataSize::TB => count * 1099511627776,
    }
}

fn size_tokens() -> (text: &'static str)
    ensures
        text@ == size_tokens_text(),
{
    "[\"%\", \"%%\", \"min/max...\"] or [\"B\", \"KB\", \"MB\", \"GB\", \"TB\"]"
}

fn invalid_count(count: &str) -> (message: String)
    ensures
        message@ == invalid_count_text(count@),
{
    String::from_str("Invalid count ").concat(count).concat(
        " in size tag, expected a number up to 4294967295 with a unit of ",
    ).concat(size_tokens())
}

/// Reads the number of a size token whose suffix has been understood.
fn counted(count: &str) -> (r: Result<u32, String>)
    ensures
        match decimal_u32(count@) {
            Some(n) => r == Ok::<u32, String>(n),
            None => r is Err && r->Err_0@ == invalid_count_text(count@),
        },
{
    match parse_u32(count) {
        Some(n) => Ok(n),
        None => Err(invalid_count(count)),
    }
}

/// The size that a token stands for, from its three parts: the numeric run
/// at its start, the suffix after it, and the suffix in lower case.
pub fn part_size_from(count: &str, suffix: &str, unit: &str) -> (r: Result<PartSize, String>)
    ensures
        text_result(r) == part_size_of(count@, suffix@, unit@),
{
    if count.unicode_len() == 0 {
        match match_part_total(suffix) {
            Ok(total) => Ok(PartSize::Total(total)),
            Err(other) => Err(
                String::from_str("Invalid variant of PartTotal ").concat(other).concat(
                    ", expected one of [\"min\", \"max\"]",
                ),
            ),
        }
    } else if str_eq(suffix, "%") {
        match counted(count) {
            Ok(n) => Ok(PartSize::PercentTotal(n)),
            Err(message) => Err(message),
        }
    } else if str_eq(suffix, "%%") {
        match counted(count) {
            Ok(n) => Ok(PartSize::PercentFree(n)),
            Err(message) => Err(message),
        }
    } else {
        match match_data_size(unit) {
            Ok(size) => match counted(count) {
                Ok(n) => Ok(PartSize::Size(n, size)),
                Err(message) => Err(message),
            },
            Err(other) => Err(
                String::from_str("Invalid variant of PartSize ").concat(other).concat(
                    ", expected one of ",
                ).concat(size_tokens()),
            ),
        }
    }
}

/// Reads a size token such as `500MB`, `50%`, `10%%` or `max`.
///
/// The number ends at the first character that is not numeric. What is
/// returned is [`part_size_from`] of the number, the rest, and the rest in
/// lower case; a token that is empty or all number is an error.
pub fn parse_part_size(value: &str) -> (r: Result<PartSize, String>)
    ensures
        text_result(r) == part_size_of_token(value@),
{
    let chars = chars_of(value);
    let ghost not_numeric = |c: char| !numeric(c);
    let mut n: usize = 0;
    while n < chars.len() && chars[n].is_numeric()
        invariant
            n <= chars.len(),
            chars@ == value@,
            not_numeric == (|c: char| !numeric(c)),
            forall|j: int| 0 <= j < n ==> !not_numeric(#[trigger] chars@[j]),
        decreases chars.len() - n,
    {
        n = n + 1;
    }
    if n == chars.len() {
        proof {
            lemma_first_index_none(value@, not_numeric);
        }
        return Err(
            String::from_str("Size tag can't be empty / must have a unit of ").concat(
                size_tokens(),
            ),
        );
    }
    proof {
        assert(is_first(value@, not_numeric, n as int));
        lemma_first_index_is(value@, not_numeric, n as int);
    }
    let count = string_of(&chars, 0, n);
    let suffix = string_of(&chars, n, chars.len());
    let unit = suffix.as_str().to_lowercase();
    part_size_from(count.as_str(), suffix.as_str(), unit.as_str())
}

/// Each unit is reached by its own name: `b`, `kb`, `mb`, `gb` and `tb`.
pub proof fn lemma_data_size_names()
    ensures
        data_size_of("b"@) == Some(DataSize::B),
        data_size_of("kb"@) == Some(DataSize::KB),
        data_size_of("mb"@) == Some(DataSize::MB),
        data_size_of("gb"@) == Some(DataSize::GB),
        data_size_of("tb"@) == Some(DataSize::TB),
{
    reveal_strlit("b");
    reveal_strlit("kb");
    reveal_strlit("mb");
    reveal_strlit("gb");
    reveal_strlit("tb");
    assert("kb"@.len() != "b"@.len());
    assert("mb"@.len() != "b"@.len());
    assert("gb"@.len() != "b"@.len());
    assert("tb"@.len() != "b"@.len());
    assert("mb"@[0] != "kb"@[0]);
    assert("gb"@[0] != "kb"@[0]);
    assert("gb"@[0] != "mb"@[0]);
    assert("tb"@[0] != "kb"@[0]);
    assert("tb"@[0] != "mb"@[0]);
    assert("tb"@[0] != "gb"@[0]);
}

} // verus!
