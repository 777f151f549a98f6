use vstd::prelude::*;
use vstd::string::StrSliceExecFns;
use vstd::utf8;

use crate::text::chars_of;

verus! {

/// Why a text is not the hexadecimal form of the bytes that were asked for.
#[derive(Debug, Clone, Copy, PartialEq, Eq)]
pub enum HexError {
    /// A character that is no hexadecimal digit, and where it stands.
    InvalidHexCharacter { c: char, index: usize },
    /// An odd number of digits.
    OddLength,
    /// An even number of digits, but not two for each byte.
    InvalidStringLength,
}

/// The value of a hexadecimal digit in either case.
pub open spec fn hex_digit(byte: u8) -> Option<int> {
    if 0x30 <= byte <= 0x39 {
        Some(byte - 0x30)
    } else if 0x41 <= byte <= 0x46 {
        Some(byte - 0x41 + 10)
    } else if 0x61 <= byte <= 0x66 {
        Some(byte - 0x61 + 10)
    } else {
        None
    }
}

/// The place of the first byte that is no hexadecimal digit, or the length where
/// there is none.
pub open spec fn first_non_hex(digits: Seq<u8>) -> nat
    decreases digits.len(),
{
    if digits.len() == 0 || hex_digit(digits[0]) is None {
        0
    } else {
        1 + first_non_hex(digits.drop_first())
    }
}

/// The sixteen bytes that thirty-two hexadecimal digits write down, or why they
/// do not.
pub open spec fn hex_block(digits: Seq<u8>) -> Result<Seq<u8>, HexError> {
    if digits.len() % 2 != 0 {
        Err(HexError::OddLength)
    } else if digits.len() != 32 {
        Err(HexError::InvalidStringLength)
    } else if first_non_hex(digits) < 32 {
        let index = first_non_hex(digits);
        Err(HexError::InvalidHexCharacter { c: digits[index as int] as char, index: index as usize })
    } else {
        Ok(
            Seq::new(
                16,
                |i: int|
                    (hex_digit(digits[2 * i])->0 * 16 + hex_digit(digits[2 * i + 1])->0) as u8,
            ),
        )
    }
}

/// `hex::decode_to_slice` into sixteen bytes. It looks at the number of digits
/// first, and then at the digits in order; the first bad one is reported as the
/// character with the byte's number.
#[verifier::external_body]
fn decode_block(digits: &[u8]) -> (block: Result<[u8; 16], HexError>)
    ensures
        match hex_block(digits@) {
            Ok(bytes) => block is Ok && block->Ok_0@ == bytes,
            Err(error) => block == Err::<[u8; 16], HexError>(error),
        },
{
    let mut block = [0_u8; 16];
    match hex::decode_to_slice(digits, &mut block) {
        Ok(()) => Ok(block),
        Err(hex::FromHexError::InvalidHexCharacter { c, index }) => Err(
            HexError::InvalidHexCharacter { c, index },
        ),
        Err(hex::FromHexError::OddLength) => Err(HexError::OddLength),
        Err(hex::FromHexError::InvalidStringLength) => Err(HexError::InvalidStringLength),
    }
}

/// What is left of a text after every `0x` that it starts with.
pub open spec fn without_hex_prefix(text: Seq<char>) -> Seq<char>
    decreases text.len(),
{
    if text.len() >= 2 && text[0] == '0' && text[1] == 'x' {
        without_hex_prefix(text.subrange(2, text.len() as int))
    } else {
        text
    }
}

/// Leaves out every `0x` that a text starts with.
pub fn trim_hex_prefix<'a>(text: &'a str) -> (rest: &'a str)
    ensures
        rest@ == without_hex_prefix(text@),
{
    let chars: Vec<char> = chars_of(text);
    let mut i: usize = 0;
    assert(text@.subrange(0, text@.len() as int) =~= text@);
    while chars.len() - i >= 2 && chars[i] == '0' && chars[i + 1] == 'x'
        invariant
            0 <= i <= chars.len(),
            chars@ == text@,
            without_hex_prefix(text@) == without_hex_prefix(
                text@.subrange(i as int, text@.len() as int),
            ),
        decreases chars.len() - i,
    {
        let ghost rest = text@.subrange(i as int, text@.len() as int);
        assert(rest[0] == '0' && rest[1] == 'x');
        assert(rest.subrange(2, rest.len() as int) =~= text@.subrange(
            i + 2,
            text@.len() as int,
        ));
        i = i + 2;
    }
    proof {
        let rest = text@.subrange(i as int, text@.len() as int);
        assert(rest.len() >= 2 ==> rest[0] == text@[i as int] && rest[1] == text@[i + 1]);
        assert(without_hex_prefix(rest) == rest);
    }
    text.substring_char(i, chars.len())
}

/// The sixteen bytes of an initialization vector that is written in hexadecimal,
/// with or without `0x` before it.
pub open spec fn vector_block(vector: Seq<char>) -> Result<Seq<u8>, HexError> {
    hex_block(utf8::encode_utf8(without_hex_prefix(vector)))
}

/// Reads an initialization vector that is written in hexadecimal.
pub fn parse_vector(vector: &str) -> (block: Result<[u8; 16], HexError>)
    ensures
        match vector_block(vector@) {
            Ok(bytes) => block is Ok && block->Ok_0@ == bytes,
            Err(error) => block == Err::<[u8; 16], HexError>(error),
        },
{
    let digits: &str = trim_hex_prefix(vector);
    decode_block(digits.as_bytes())
}

} // verus!
