use vstd::prelude::*;

use crate::text;

verus! {

/// A number written in decimal is a non-empty run of digits that stands for it.
pub proof fn law_decimal_writes_the_number(n: nat)
    ensures
        text::decimal(n).len() > 0,
        text::all_digits(text::decimal(n)),
        text::digits_value(text::decimal(n)) == n,
    decreases n,
{
    let digit = text::digit_char(n % 10);
    assert(text::is_digit(digit) && text::digit_value(digit) == n % 10);
    if n < 10 {
        let written = text::decimal(n);
        assert(written.drop_last() =~= Seq::<char>::empty());
        assert(written.last() == digit);
        assert(text::digits_value(written.drop_last()) == 0);
    } else {
        law_decimal_writes_the_number(n / 10);
        let head = text::decimal(n / 10);
        let written = text::decimal(n);
        assert(written.drop_last() =~= head);
        assert forall|i: int| 0 <= i < written.len() implies text::is_digit(
            #[trigger] written[i],
        ) by {
            if i < head.len() {
                assert(written[i] == head[i]);
            }
        }
    }
}

/// Reading back a number that was written in decimal gives the number.
pub proof fn law_decimal_round_trip(n: u64)
    ensures
        text::parsed_u64(text::decimal(n as nat)) == Some(n),
{
    law_decimal_writes_the_number(n as nat);
    let written = text::decimal(n as nat);
    assert(text::is_digit(written[0]));
    assert(text::without_plus(written) == written);
}

/// Two numbers that are written alike are the same number.
pub proof fn law_decimal_is_injective(a: nat, b: nat)
    requires
        text::decimal(a) == text::decimal(b),
    ensures
        a == b,
{
    law_decimal_writes_the_number(a);
    law_decimal_writes_the_number(b);
}

/// The ten digits and what they stand for.
pub proof fn law_digits_stand_for_their_values(c: char, value: nat, s: Seq<char>)
    requires
        value < 10,
    ensures
        text::all_digits(s) <==> forall|i: int|
            0 <= i < s.len() ==> '0' <= #[trigger] s[i] <= '9',
        text::is_digit(c) <==> 48 <= c as u32 <= 57,
        text::is_digit(c) ==> text::digit_value(c) == c as u32 - 48,
        text::digit_char(value) as u32 == 48 + value,
{
    if forall|i: int| 0 <= i < s.len() ==> '0' <= #[trigger] s[i] <= '9' {
        assert forall|i: int| 0 <= i < s.len() implies text::is_digit(#[trigger] s[i]) by {
            assert('0' <= s[i] <= '9');
        }
    }
    if text::all_digits(s) {
        assert forall|i: int| 0 <= i < s.len() implies '0' <= #[trigger] s[i] <= '9' by {
            assert(text::is_digit(s[i]));
        }
    }
}

/// A digit string is read from left to right, ten times what was read and the next
/// digit.
pub proof fn law_digits_are_positional(digits: Seq<char>, c: char)
    requires
        text::is_digit(c),
    ensures
        text::digits_value(Seq::<char>::empty()) == 0,
        text::digits_value(digits.push(c)) == text::digits_value(digits) * 10 + (c as u32 - 48),
{
    assert(digits.push(c).drop_last() =~= digits);
}

/// A number is written without leading zeros: in one digit below ten, and else with
/// a first digit that is not zero.
pub proof fn law_decimal_has_no_leading_zeros(n: nat)
    ensures
        n < 10 ==> text::decimal(n).len() == 1,
        n >= 10 ==> text::decimal(n).len() >= 2 && text::decimal(n)[0] != '0',
    decreases n,
{
    if n >= 10 {
        law_decimal_has_no_leading_zeros(n / 10);
        law_decimal_writes_the_number(n / 10);
        let head = text::decimal(n / 10);
        assert(text::decimal(n)[0] == head[0]);
        if n / 10 < 10 {
            assert(text::digits_value(head) == text::digits_value(head.drop_last()) * 10
                + text::digit_value(head.last()));
            assert(head.drop_last() =~= Seq::<char>::empty());
            assert(text::digits_value(head.drop_last()) == 0);
        }
    }
}

/// Which texts are read as a number, and as which: digits, at least one, that write
/// down a number of 64 bits, with or without one plus sign before them.
pub proof fn law_number_is_read_exactly_when_it_is_written(s: Seq<char>, value: u64)
    ensures
        text::parsed_u64(s) == Some(value) <==> exists|digits: Seq<char>|
            {
                &&& s == digits || s == seq!['+'] + digits
                &&& digits.len() > 0
                &&& #[trigger] text::all_digits(digits)
                &&& text::digits_value(digits) == value
            },
{
    if text::parsed_u64(s) == Some(value) {
        let digits = text::without_plus(s);
        assert(s =~= digits || s =~= seq!['+'] + digits);
        assert(text::all_digits(digits));
    }
    if exists|digits: Seq<char>|
        {
            &&& s == digits || s == seq!['+'] + digits
            &&& digits.len() > 0
            &&& #[trigger] text::all_digits(digits)
            &&& text::digits_value(digits) == value
        } {
        let digits = choose|digits: Seq<char>|
            {
                &&& s == digits || s == seq!['+'] + digits
                &&& digits.len() > 0
                &&& #[trigger] text::all_digits(digits)
                &&& text::digits_value(digits) == value
            };
        assert(text::is_digit(digits[0]));
        if s == digits {
            assert(text::without_plus(s) == digits);
        } else {
            assert(s[0] == '+');
            assert(s.drop_first() =~= digits);
        }
    }
}

/// A text is split at a character exactly where it is the first part without that
/// character, the character, and the rest; and not at all where it does not hold
/// the character.
pub proof fn law_split_is_at_the_first(
    s: Seq<char>,
    c: char,
    head: Seq<char>,
    tail: Seq<char>,
)
    ensures
        text::split_at_first(s, c) == Some((head, tail)) <==> s == head.push(c) + tail
            && !head.contains(c),
        text::split_at_first(s, c) is None <==> !s.contains(c),
{
    text::lemma_first_index(s, c);
    let at = text::first_index(s, c) as int;
    if at < s.len() {
        assert(s[at] == c);
        let before = s.subrange(0, at);
        let after = s.subrange(at + 1, s.len() as int);
        assert(s =~= before.push(c) + after);
        assert(!before.contains(c)) by {
            assert forall|i: int| 0 <= i < before.len() implies before[i] != c by {
                assert(before[i] == s[i]);
            }
        }
    }
    if s == head.push(c) + tail && !head.contains(c) {
        assert(s[head.len() as int] == c);
        assert forall|i: int| 0 <= i < head.len() implies s[i] != c by {
            assert(s[i] == head[i]);
            assert(head.contains(head[i]));
        }
        text::lemma_first_index_at(s, c, head.len() as int);
        assert(s.subrange(0, head.len() as int) =~= head);
        assert(s.subrange(head.len() as int + 1, s.len() as int) =~= tail);
    }
}

/// A prefix is taken off exactly where the text is the prefix and the rest.
pub proof fn law_prefix_is_taken_off(s: Seq<char>, prefix: Seq<char>, rest: Seq<char>)
    ensures
        text::after_prefix(s, prefix) == Some(rest) <==> s == prefix + rest,
{
    if prefix.is_prefix_of(s) {
        assert(s =~= prefix + s.subrange(prefix.len() as int, s.len() as int));
    }
    if s == prefix + rest {
        assert(prefix.is_prefix_of(s));
        assert(s.subrange(prefix.len() as int, s.len() as int) =~= rest);
    }
}

} // verus!
