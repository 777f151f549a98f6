use vstd::prelude::*;

use crate::laws;
use crate::range;
use crate::text;

verus! {

/// A sum is exact where it has 64 bits, and else the greatest number that has.
pub proof fn law_sum_is_exact_or_the_greatest(a: u64, b: u64)
    ensures
        a + b <= u64::MAX ==> range::saturating_sum(a, b) == a + b,
        a + b > u64::MAX ==> range::saturating_sum(a, b) == u64::MAX,
{
}

/// The value of a `Range` header names its unit, and behind it just the two bounds
/// that it was made of, in decimal: reading it gives them back.
pub proof fn law_range_header_names_its_bounds(start: u64, end: u64)
    ensures
        ({
            let first = text::decimal(start as nat);
            let last = text::decimal(end as nat);
            &&& text::after_prefix(range::range_header(start, end), "bytes="@) == Some(
                first.push('-') + last,
            )
            &&& text::split_at_first(first.push('-') + last, '-') == Some((first, last))
            &&& text::parsed_u64(first) == Some(start)
            &&& text::parsed_u64(last) == Some(end)
        }),
{
    reveal_strlit("bytes=");
    reveal_strlit("-");
    let first = text::decimal(start as nat);
    let last = text::decimal(end as nat);
    let header = range::range_header(start, end);
    assert(header =~= "bytes="@ + (first.push('-') + last));
    laws::text::law_prefix_is_taken_off(header, "bytes="@, first.push('-') + last);
    laws::text::law_decimal_round_trip(start);
    laws::text::law_decimal_round_trip(end);
    laws::text::law_decimal_writes_the_number(start as nat);
    assert(!first.contains('-')) by {
        assert forall|i: int| 0 <= i < first.len() implies first[i] != '-' by {
            assert(text::is_digit(first[i]));
        }
    }
    laws::text::law_split_is_at_the_first(first.push('-') + last, '-', first, last);
}

} // verus!
