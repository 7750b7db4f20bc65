//! The arguments of the two startup options: the number of banks, and an
//! image to load with the bank that receives it.

use vstd::prelude::*;

verus! {

/// Why an option's argument was not accepted.
#[derive(Clone, Copy, Debug, PartialEq, Eq, Structural)]
pub enum ConfigError {
    /// A number was expected, and the text is no run of decimal digits.
    NotANumber,
    /// The number does not fit the machine's word.
    NumberTooLarge,
    /// The number of banks is not between 1 and 255.
    BankCountOutOfRange,
}

/// Whether a byte is an ASCII decimal digit.
pub open spec fn is_digit(byte: u8) -> bool {
    0x30 <= byte <= 0x39
}

/// Whether the text is a run of one or more decimal digits.
pub open spec fn is_decimal(text: Seq<u8>) -> bool {
    text.len() > 0 && forall|i: int| 0 <= i < text.len() ==> is_digit(#[trigger] text[i])
}

/// The number that a run of decimal digits denotes.
pub open spec fn decimal_value(text: Seq<u8>) -> nat
    decreases text.len(),
{
    if text.len() == 0 {
        0
    } else {
        (decimal_value(text.drop_last()) * 10 + (text.last() - 0x30)) as nat
    }
}

/// What a number option's argument denotes.
pub open spec fn number(text: Seq<u8>) -> Result<usize, ConfigError> {
    if !is_decimal(text) {
        Err(ConfigError::NotANumber)
    } else if decimal_value(text) > usize::MAX {
        Err(ConfigError::NumberTooLarge)
    } else {
        Ok(decimal_value(text) as usize)
    }
}

/// What the argument of the bank-count option denotes.
pub open spec fn bank_count(text: Seq<u8>) -> Result<u8, ConfigError> {
    match number(text) {
        Ok(count) => if 1 <= count <= 255 {
            Ok(count as u8)
        } else {
            Err(ConfigError::BankCountOutOfRange)
        },
        Err(ConfigError::NumberTooLarge) => Err(ConfigError::BankCountOutOfRange),
        Err(error) => Err(error),
    }
}

/// Position of the first `=` at or after `from`, or the length where there is none.
pub open spec fn equals_from(text: Seq<u8>, from: int) -> int
    decreases text.len() - from,
{
    if from < 0 || from >= text.len() || text[from] == 0x3d {
        from
    } else {
        equals_from(text, from + 1)
    }
}

/// An image to load: the bank that receives it, and where in the argument
/// the path of the file stands.
#[derive(Clone, Copy, Debug, PartialEq, Eq, Structural)]
pub struct LoadRequest {
    pub bank: usize,
    pub path_start: usize,
    pub path_end: usize,
}

/// What the argument of the load option denotes. Without `=` the whole text
/// is the path and the bank is 0. Otherwise the bank stands before the first
/// `=`, and the path behind it, up to a second `=` if there is one.
pub open spec fn load_request(text: Seq<u8>) -> Result<LoadRequest, ConfigError> {
    let first: int = equals_from(text, 0);
    if first >= text.len() {
        Ok(LoadRequest { bank: 0, path_start: 0, path_end: text.len() as usize })
    } else {
        match number(text.take(first)) {
            Ok(bank) => Ok(
                LoadRequest {
                    bank,
                    path_start: (first + 1) as usize,
                    path_end: equals_from(text, first + 1) as usize,
                },
            ),
            Err(error) => Err(error),
        }
    }
}

/// A prefix of a run of digits denotes no more than the whole run.
proof fn lemma_prefix_is_smaller(text: Seq<u8>, length: int)
    requires
        0 <= length <= text.len(),
        forall|i: int| 0 <= i < text.len() ==> is_digit(#[trigger] text[i]),
    ensures
        decimal_value(text.take(length)) <= decimal_value(text),
    decreases text.len(),
{
    if length == text.len() {
        assert(text.take(length) =~= text);
    } else {
        assert(text.drop_last().take(length) =~= text.take(length));
        assert(is_digit(text[text.len() - 1]));
        lemma_prefix_is_smaller(text.drop_last(), length);
    }
}

/// Reads a number option's argument.
pub fn parse_number(text: &[u8]) -> (result: Result<usize, ConfigError>)
    ensures
        result == number(text@),
{
    if text.len() == 0 {
        return Err(ConfigError::NotANumber);
    }
    let mut i: usize = 0;
    while i < text.len()
        invariant
            i <= text@.len(),
            forall|k: int| 0 <= k < i ==> is_digit(#[trigger] text@[k]),
        decreases text@.len() - i,
    {
        if text[i] < 0x30 || text[i] > 0x39 {
            return Err(ConfigError::NotANumber);
        }
        i += 1;
    }
    let mut value: usize = 0;
    let mut j: usize = 0;
    while j < text.len()
        invariant
            j <= text@.len(),
            is_decimal(text@),
            value == decimal_value(text@.take(j as int)),
        decreases text@.len() - j,
    {
        let digit: usize = (text[j] - 0x30) as usize;
        proof {
            assert(text@.take(j + 1).drop_last() =~= text@.take(j as int));
            assert(text@.take(j + 1).last() == text@[j as int]);
            lemma_prefix_is_smaller(text@, j + 1);
        }
        if value > (usize::MAX - digit) / 10 {
            return Err(ConfigError::NumberTooLarge);
        }
        value = value * 10 + digit;
        j += 1;
    }
    assert(text@.take(j as int) =~= text@);
    Ok(value)
}

/// Reads the argument of the bank-count option: a number between 1 and 255.
pub fn parse_bank_count(text: &[u8]) -> (result: Result<u8, ConfigError>)
    ensures
        result == bank_count(text@),
{
    match parse_number(text) {
        Ok(count) => {
            if 1 <= count && count <= 255 {
                Ok(count as u8)
            } else {
                Err(ConfigError::BankCountOutOfRange)
            }
        },
        Err(ConfigError::NumberTooLarge) => Err(ConfigError::BankCountOutOfRange),
        Err(error) => Err(error),
    }
}

/// Finds the first `=` at or after `from`.
fn find_equals(text: &[u8], from: usize) -> (position: usize)
    requires
        from <= text@.len(),
    ensures
        position == equals_from(text@, from as int),
        from <= position <= text@.len(),
{
    let mut i: usize = from;
    while i < text.len() && text[i] != 0x3d
        invariant
            from <= i <= text@.len(),
            equals_from(text@, from as int) == equals_from(text@, i as int),
        decreases text@.len() - i,
    {
        i += 1;
    }
    i
}

/// Reads the argument of the load option.
pub fn parse_load_request(text: &[u8]) -> (result: Result<LoadRequest, ConfigError>)
    ensures
        result == load_request(text@),
        result matches Ok(request) ==> request.path_start <= request.path_end <= text@.len(),
{
    let first: usize = find_equals(text, 0);
    if first >= text.len() {
        return Ok(LoadRequest { bank: 0, path_start: 0, path_end: text.len() });
    }
    let head = vstd::slice::slice_subrange(text, 0, first);
    assert(head@ =~= text@.take(first as int));
    match parse_number(head) {
        Ok(bank) => {
            let second: usize = find_equals(text, first + 1);
            Ok(LoadRequest { bank, path_start: first + 1, path_end: second })
        },
        Err(error) => Err(error),
    }
}

} // verus!
