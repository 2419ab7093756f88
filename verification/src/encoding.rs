//! The canonical text of a result: what is sent to the ledger and what is
//! signed.

use crate::error::TaskError;
use crate::uint256::{decimal_digits, Uint256};
use vstd::prelude::*;
use vstd::string::StringExecFns;

verus! {

/// The typed value that a run produced.
#[derive(Clone, Debug)]
pub enum ExecutionResult {
    UintArray(Vec<Uint256>),
    BoolArray(Vec<bool>),
    Uint(Uint256),
    Bool(bool),
    Bytes(Vec<u8>),
}

/// The value that an `ExecutionResult` stands for.
pub enum ResultValue {
    UintArray(Seq<nat>),
    BoolArray(Seq<bool>),
    Uint(nat),
    Bool(bool),
    Bytes(Seq<u8>),
}

/// The values of the integers, in order.
pub open spec fn uint_values(integers: Seq<Uint256>) -> Seq<nat> {
    Seq::new(integers.len(), |i: int| integers[i]@)
}

impl View for ExecutionResult {
    type V = ResultValue;

    open spec fn view(&self) -> ResultValue {
        match *self {
            ExecutionResult::UintArray(values) => ResultValue::UintArray(uint_values(values@)),
            ExecutionResult::BoolArray(values) => ResultValue::BoolArray(values@),
            ExecutionResult::Uint(value) => ResultValue::Uint(value@),
            ExecutionResult::Bool(value) => ResultValue::Bool(value),
            ExecutionResult::Bytes(bytes) => ResultValue::Bytes(bytes@),
        }
    }
}

/// The value of a result, or the failure in its place.
pub open spec fn outcome_value(outcome: Result<ExecutionResult, TaskError>) -> Result<
    ResultValue,
    TaskError,
> {
    match outcome {
        Ok(result) => Ok(result@),
        Err(e) => Err(e),
    }
}

/// `"true"` or `"false"`.
pub open spec fn bool_text(value: bool) -> Seq<char> {
    if value {
        seq!['t', 'r', 'u', 'e']
    } else {
        seq!['f', 'a', 'l', 's', 'e']
    }
}

/// The lowercase hexadecimal digit for `d`, where `d < 16`.
pub open spec fn hex_char(d: nat) -> char {
    if d == 0 {
        '0'
    } else if d == 1 {
        '1'
    } else if d == 2 {
        '2'
    } else if d == 3 {
        '3'
    } else if d == 4 {
        '4'
    } else if d == 5 {
        '5'
    } else if d == 6 {
        '6'
    } else if d == 7 {
        '7'
    } else if d == 8 {
        '8'
    } else if d == 9 {
        '9'
    } else if d == 10 {
        'a'
    } else if d == 11 {
        'b'
    } else if d == 12 {
        'c'
    } else if d == 13 {
        'd'
    } else if d == 14 {
        'e'
    } else {
        'f'
    }
}

/// Two lowercase hexadecimal digits for each byte, in order, without a
/// prefix.
pub open spec fn hex_digits(bytes: Seq<u8>) -> Seq<char>
    decreases bytes.len(),
{
    if bytes.len() == 0 {
        Seq::empty()
    } else {
        hex_digits(bytes.drop_last()).push(hex_char((bytes.last() / 16) as nat)).push(
            hex_char((bytes.last() % 16) as nat),
        )
    }
}

/// The parts in order, with one comma between neighbours.
pub open spec fn comma_joined(parts: Seq<Seq<char>>) -> Seq<char>
    decreases parts.len(),
{
    if parts.len() == 0 {
        Seq::empty()
    } else if parts.len() == 1 {
        parts[0]
    } else {
        comma_joined(parts.drop_last()).push(',') + parts.last()
    }
}

/// The decimal numeral of each integer.
pub open spec fn uint_texts(values: Seq<nat>) -> Seq<Seq<char>> {
    Seq::new(values.len(), |i: int| decimal_digits(values[i]))
}

/// The text of each boolean.
pub open spec fn bool_texts(values: Seq<bool>) -> Seq<Seq<char>> {
    Seq::new(values.len(), |i: int| bool_text(values[i]))
}

/// The canonical text of a result: arrays as their elements joined by single
/// commas without brackets, an integer as its decimal numeral, a boolean as
/// `true` or `false`, bytes as lowercase hexadecimal without a prefix.
pub open spec fn encoded(result: ResultValue) -> Seq<char> {
    match result {
        ResultValue::UintArray(values) => comma_joined(uint_texts(values)),
        ResultValue::BoolArray(values) => comma_joined(bool_texts(values)),
        ResultValue::Uint(value) => decimal_digits(value),
        ResultValue::Bool(value) => bool_text(value),
        ResultValue::Bytes(bytes) => hex_digits(bytes),
    }
}

/// Encodes the bytes with `ethers::utils::hex::encode`, which writes each byte
/// as two lowercase hexadecimal digits, in order and without a prefix.
#[verifier::external_body]
fn hex_encode(bytes: &Vec<u8>) -> (text: String)
    ensures
        text@ == hex_digits(bytes@),
{
    ethers::utils::hex::encode(bytes)
}

/// The text of a boolean.
pub fn bool_string(value: bool) -> (text: String)
    ensures
        text@ == bool_text(value),
{
    proof {
        reveal_strlit("true");
        reveal_strlit("false");
    }
    if value {
        let text = String::from_str("true");
        assert(text@ =~= bool_text(true));
        text
    } else {
        let text = String::from_str("false");
        assert(text@ =~= bool_text(false));
        text
    }
}

/// Appends `part` to `text`, after a comma unless it is the first part.
fn append_part(text: &mut String, part: &String, Ghost(parts): Ghost<Seq<Seq<char>>>, first: bool)
    requires
        old(text)@ == comma_joined(parts),
        first == (parts.len() == 0),
    ensures
        final(text)@ == comma_joined(parts.push(part@)),
{
    proof {
        reveal_strlit(",");
        assert(parts.push(part@).drop_last() =~= parts);
    }
    if !first {
        text.append(",");
        assert(text@ =~= comma_joined(parts).push(','));
    }
    text.append(part.as_str());
}

/// The canonical text of `result`.
pub fn encode(result: &ExecutionResult) -> (text: String)
    ensures
        text@ == encoded(result@),
{
    match result {
        ExecutionResult::UintArray(values) => {
            let mut text = String::new();
            let mut i: usize = 0;
            let ghost all = uint_values(values@);
            while i < values.len()
                invariant
                    i <= values.len(),
                    all == uint_values(values@),
                    text@ == comma_joined(uint_texts(all.subrange(0, i as int))),
                decreases values.len() - i,
            {
                let part = values[i].to_decimal_string();
                append_part(&mut text, &part, Ghost(uint_texts(all.subrange(0, i as int))), i == 0);
                assert(uint_texts(all.subrange(0, i as int)).push(part@) =~= uint_texts(
                    all.subrange(0, i + 1),
                ));
                i = i + 1;
            }
            assert(all.subrange(0, i as int) =~= all);
            text
        },
        ExecutionResult::BoolArray(values) => {
            let mut text = String::new();
            let mut i: usize = 0;
            while i < values.len()
                invariant
                    i <= values.len(),
                    text@ == comma_joined(bool_texts(values@.subrange(0, i as int))),
                decreases values.len() - i,
            {
                let part = bool_string(values[i]);
                append_part(
                    &mut text,
                    &part,
                    Ghost(bool_texts(values@.subrange(0, i as int))),
                    i == 0,
                );
                assert(bool_texts(values@.subrange(0, i as int)).push(part@) =~= bool_texts(
                    values@.subrange(0, i + 1),
                ));
                i = i + 1;
            }
            assert(values@.subrange(0, i as int) =~= values@);
            text
        },
        ExecutionResult::Uint(value) => value.to_decimal_string(),
        ExecutionResult::Bool(value) => bool_string(*value),
        ExecutionResult::Bytes(bytes) => hex_encode(bytes),
    }
}

} // verus!
