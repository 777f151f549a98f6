use vstd::prelude::*;
use vstd::utf8;

use crate::hexadecimal;
use crate::hexadecimal::HexError;

verus! {

/// A vector is read alike with and without `0x` before it.
pub proof fn law_prefix_does_not_matter(vector: Seq<char>)
    ensures
        hexadecimal::vector_block(seq!['0', 'x'] + vector) == hexadecimal::vector_block(vector),
{
    let prefixed = seq!['0', 'x'] + vector;
    assert(prefixed[0] == '0' && prefixed[1] == 'x');
    assert(prefixed.subrange(2, prefixed.len() as int) =~= vector);
}

/// No `0x` is left in front.
pub proof fn law_every_prefix_is_left_out(vector: Seq<char>)
    ensures
        ({
            let rest = hexadecimal::without_hex_prefix(vector);
            &&& !(rest.len() >= 2 && rest[0] == '0' && rest[1] == 'x')
            &&& rest.is_suffix_of(vector)
        }),
    decreases vector.len(),
{
    if vector.len() >= 2 && vector[0] == '0' && vector[1] == 'x' {
        let shorter = vector.subrange(2, vector.len() as int);
        law_every_prefix_is_left_out(shorter);
        let rest = hexadecimal::without_hex_prefix(shorter);
        assert(rest =~= vector.subrange(vector.len() - rest.len(), vector.len() as int)) by {
            assert(rest =~= shorter.subrange(shorter.len() - rest.len(), shorter.len() as int));
        }
    } else {
        assert(vector =~= vector.subrange(0, vector.len() as int));
    }
}

/// The number that a hexadecimal digit of either case stands for.
pub open spec fn character_value(c: char) -> Option<int> {
    if '0' <= c <= '9' {
        Some(c as u32 - '0' as u32)
    } else if 'a' <= c <= 'f' {
        Some(c as u32 - 'a' as u32 + 10)
    } else if 'A' <= c <= 'F' {
        Some(c as u32 - 'A' as u32 + 10)
    } else {
        None
    }
}

/// Whether a text writes down sixteen bytes, two hexadecimal digits for each, the
/// greater one first.
pub open spec fn writes_block(written: Seq<char>, block: Seq<u8>) -> bool {
    &&& written.len() == 32
    &&& block.len() == 16
    &&& forall|i: int| 0 <= i < 32 ==> character_value(#[trigger] written[i]) is Some
    &&& forall|i: int|
        0 <= i < 16 ==> #[trigger] block[i] == character_value(written[2 * i])->0 * 16
            + character_value(written[2 * i + 1])->0
}

/// All digits means that none of them is the first that is not.
proof fn lemma_all_hex(digits: Seq<u8>)
    requires
        forall|i: int| 0 <= i < digits.len() ==> hexadecimal::hex_digit(
            #[trigger] digits[i],
        ) is Some,
    ensures
        hexadecimal::first_non_hex(digits) == digits.len(),
    decreases digits.len(),
{
    if digits.len() > 0 {
        let rest = digits.drop_first();
        assert forall|i: int| 0 <= i < rest.len() implies hexadecimal::hex_digit(
            #[trigger] rest[i],
        ) is Some by {
            assert(rest[i] == digits[i + 1]);
        }
        lemma_all_hex(rest);
    }
}

/// A vector that writes down sixteen bytes, with `0x` before it or without, is read
/// as just these bytes, all sixteen of them.
pub proof fn law_vector_is_read_as_written(written: Seq<char>, block: Seq<u8>)
    requires
        writes_block(written, block),
    ensures
        hexadecimal::vector_block(written) == Ok::<Seq<u8>, HexError>(block),
        hexadecimal::vector_block(seq!['0', 'x'] + written) == Ok::<Seq<u8>, HexError>(block),
{
    assert(character_value(written[1]) is Some);
    assert(hexadecimal::without_hex_prefix(written) == written);
    assert(utf8::is_ascii_chars(written)) by {
        assert forall|i: int| 0 <= i < written.len() implies '\0' <= #[trigger] written[i]
            <= '\u{7f}' by {
            assert(character_value(written[i]) is Some);
        }
    }
    utf8::is_ascii_chars_encode_utf8(written);
    let digits = utf8::encode_utf8(written);
    assert forall|i: int| 0 <= i < 32 implies hexadecimal::hex_digit(#[trigger] digits[i])
        == character_value(written[i]) && character_value(written[i]) is Some by {
        assert(digits[i] == written[i] as u8);
        assert(character_value(written[i]) is Some);
    }
    lemma_all_hex(digits);
    assert(hexadecimal::hex_block(digits)->Ok_0 =~= block);
    law_prefix_does_not_matter(written);
}

/// A vector is read at all only where it writes down sixteen bytes, behind every
/// `0x` that it starts with.
pub proof fn law_only_sixteen_bytes_are_a_vector(digits: Seq<u8>)
    ensures
        hexadecimal::hex_block(digits) matches Ok(block) ==> {
            &&& digits.len() == 32
            &&& block.len() == 16
            &&& forall|i: int|
                0 <= i < 32 ==> hexadecimal::hex_digit(#[trigger] digits[i]) is Some
        },
        digits.len() % 2 == 1 ==> hexadecimal::hex_block(digits) == Err::<Seq<u8>, HexError>(
            HexError::OddLength,
        ),
        digits.len() % 2 == 0 && digits.len() != 32 ==> hexadecimal::hex_block(digits) == Err::<
            Seq<u8>,
            HexError,
        >(HexError::InvalidStringLength),
{
    if hexadecimal::hex_block(digits) is Ok {
        assert forall|i: int| 0 <= i < 32 implies hexadecimal::hex_digit(
            #[trigger] digits[i],
        ) is Some by {
            lemma_before_first_non_hex(digits, i);
        }
    }
}

/// Everything before the first that is no digit is one.
proof fn lemma_before_first_non_hex(digits: Seq<u8>, i: int)
    requires
        0 <= i < hexadecimal::first_non_hex(digits),
        i < digits.len(),
    ensures
        hexadecimal::hex_digit(digits[i]) is Some,
    decreases digits.len(),
{
    if i > 0 {
        lemma_before_first_non_hex(digits.drop_first(), i - 1);
        assert(digits.drop_first()[i - 1] == digits[i]);
    }
}

/// Nothing but `0x` is left out, as often as it stands in front.
pub proof fn law_only_prefixes_are_left_out(vector: Seq<char>)
    ensures
        hexadecimal::without_hex_prefix(seq!['0', 'x'] + vector)
            == hexadecimal::without_hex_prefix(vector),
        !(vector.len() >= 2 && vector[0] == '0' && vector[1] == 'x')
            ==> hexadecimal::without_hex_prefix(vector) == vector,
{
    let prefixed = seq!['0', 'x'] + vector;
    assert(prefixed[0] == '0' && prefixed[1] == 'x');
    assert(prefixed.subrange(2, prefixed.len() as int) =~= vector);
}

/// Behind its prefixes a vector is read by its bytes.
pub proof fn law_vector_is_read_by_its_bytes(vector: Seq<char>)
    requires
        !(vector.len() >= 2 && vector[0] == '0' && vector[1] == 'x'),
    ensures
        hexadecimal::vector_block(vector) == hexadecimal::hex_block(utf8::encode_utf8(vector)),
{
}

} // verus!
