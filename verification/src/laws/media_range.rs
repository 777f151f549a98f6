use vstd::prelude::*;

use crate::error::VideoErrorView;
use crate::media_range;
use crate::playlist::ByteRange;

verus! {

/// A byte range that is accepted has its offset, keeps its length and ends at a
/// byte that has a number; the next one may continue behind that byte.
pub proof fn law_normal_range_is_explicit(
    uri: Seq<char>,
    range: ByteRange,
    previous: Option<(Seq<char>, u64)>,
)
    ensures
        media_range::normalized(uri, Some(range), previous) matches Ok((normal, next)) ==> {
            &&& normal is Some
            &&& normal->0.length == range.length
            &&& range.length > 0
            &&& normal->0.offset is Some
            &&& normal->0.offset->0 + range.length - 1 <= u64::MAX
            &&& next == Some((uri, (normal->0.offset->0 + range.length - 1) as u64))
        },
{
}

/// An implicit byte range starts right behind the sub-range before it.
pub proof fn law_implicit_range_continues(
    uri: Seq<char>,
    first: ByteRange,
    second: ByteRange,
    previous: Option<(Seq<char>, u64)>,
)
    requires
        second.offset is None,
    ensures
        media_range::normalized(uri, Some(first), previous) matches Ok((before, next)) ==> (
        media_range::normalized(uri, Some(second), next) matches Ok((after, _)) ==> after->0.offset
            == Some((before->0.offset->0 + before->0.length) as u64)),
{
}

/// A row of byte ranges of one resource, each made explicit behind the one before
/// it; `None` where one of them is refused.
pub open spec fn normalized_row(
    uri: Seq<char>,
    ranges: Seq<ByteRange>,
    previous: Option<(Seq<char>, u64)>,
) -> Option<Seq<ByteRange>>
    decreases ranges.len(),
{
    if ranges.len() == 0 {
        Some(Seq::empty())
    } else {
        match media_range::normalized(uri, Some(ranges.first()), previous) {
            Err(error) => None,
            Ok((normal, next)) => match normalized_row(uri, ranges.drop_first(), next) {
                None => None,
                Some(rest) => Some(seq![normal->0] + rest),
            },
        }
    }
}

/// How many bytes the first `n` ranges of a row have in all.
pub open spec fn total_length(ranges: Seq<ByteRange>, n: nat) -> nat
    decreases n,
{
    if n == 0 {
        0
    } else {
        total_length(ranges, (n - 1) as nat) + ranges[n - 1].length as nat
    }
}

/// Leaving out the first range takes its length off the total.
proof fn lemma_total_length_of_rest(ranges: Seq<ByteRange>, n: nat)
    requires
        n < ranges.len(),
    ensures
        total_length(ranges, n + 1) == ranges[0].length + total_length(ranges.drop_first(), n),
    decreases n,
{
    if n > 0 {
        lemma_total_length_of_rest(ranges, (n - 1) as nat);
    } else {
        assert(total_length(ranges, 0) == 0);
    }
}

/// The total grows along a row.
proof fn lemma_total_length_grows(ranges: Seq<ByteRange>, a: nat, b: nat)
    requires
        a <= b <= ranges.len(),
    ensures
        total_length(ranges, a) <= total_length(ranges, b),
    decreases b - a,
{
    if a < b {
        lemma_total_length_grows(ranges, a, (b - 1) as nat);
    }
}

/// Where the ranges of an implicit row start.
proof fn lemma_row_offsets(
    uri: Seq<char>,
    ranges: Seq<ByteRange>,
    previous: Option<(Seq<char>, u64)>,
    i: int,
)
    requires
        0 <= i < ranges.len(),
        forall|k: int| 0 < k < ranges.len() ==> (#[trigger] ranges[k]).offset is None,
        normalized_row(uri, ranges, previous) is Some,
    ensures
        ({
            let row = normalized_row(uri, ranges, previous)->0;
            &&& row.len() == ranges.len()
            &&& row[0].offset is Some
            &&& row[i].offset is Some
            &&& row[i].length == ranges[i].length
            &&& row[i].length > 0
            &&& row[i].offset->0 == row[0].offset->0 + total_length(ranges, i as nat)
            &&& row[i].offset->0 + row[i].length - 1 <= u64::MAX
        }),
    decreases ranges.len(),
{
    let (normal, next) = media_range::normalized(uri, Some(ranges.first()), previous)->Ok_0;
    let rest = ranges.drop_first();
    let row = normalized_row(uri, ranges, previous)->0;
    let tail = normalized_row(uri, rest, next)->0;
    law_normal_range_is_explicit(uri, ranges.first(), previous);
    assert forall|k: int| 0 < k < rest.len() implies (#[trigger] rest[k]).offset is None by {
        assert(rest[k] == ranges[k + 1]);
    }
    if rest.len() == 0 {
        assert(tail =~= Seq::empty());
    } else {
        let j = if i > 0 {
            i - 1
        } else {
            0
        };
        lemma_row_offsets(uri, rest, next, j);
        lemma_total_length_of_rest(ranges, j as nat);
        assert(rest[0] == ranges[1]);
        assert(rest[j] == ranges[j + 1]);
        assert(tail[0].offset->0 == normal->0.offset->0 + normal->0.length) by {
            lemma_row_start(uri, rest, next);
        }
        assert(row[j + 1] == tail[j]);
    }
}

/// Where an implicit row starts: right behind the sub-range before it.
proof fn lemma_row_start(
    uri: Seq<char>,
    ranges: Seq<ByteRange>,
    previous: Option<(Seq<char>, u64)>,
)
    requires
        ranges.len() > 0,
        ranges[0].offset is None,
        normalized_row(uri, ranges, previous) is Some,
    ensures
        previous is Some,
        normalized_row(uri, ranges, previous)->0[0].offset == Some(((previous->0).1 + 1) as u64),
        (previous->0).1 < u64::MAX,
{
}

/// Whether a byte lies in a range.
pub open spec fn in_range(range: ByteRange, byte: int) -> bool {
    range.offset is Some && range.offset->0 <= byte < range.offset->0 + range.length
}

/// Whether a byte lies in one of the ranges of a row.
pub open spec fn in_row(row: Seq<ByteRange>, byte: int) -> bool {
    exists|i: int| 0 <= i < row.len() && #[trigger] in_range(row[i], byte)
}

/// A row of implicit byte ranges, of any length, behind a first one that is
/// accepted: each starts right behind the one before it, no two of them share a
/// byte, and together they are the whole span from the start of the first to the
/// end of the last, whose length is the sum of theirs.
pub proof fn law_implicit_row_covers_its_span(
    uri: Seq<char>,
    ranges: Seq<ByteRange>,
    previous: Option<(Seq<char>, u64)>,
)
    requires
        ranges.len() > 0,
        forall|k: int| 0 < k < ranges.len() ==> (#[trigger] ranges[k]).offset is None,
    ensures
        normalized_row(uri, ranges, previous) matches Some(row) ==> {
            &&& row.len() == ranges.len()
            &&& forall|i: int|
                0 <= i < row.len() ==> {
                    &&& (#[trigger] row[i]).offset is Some
                    &&& row[i].length == ranges[i].length
                    &&& row[i].offset->0 == row[0].offset->0 + total_length(ranges, i as nat)
                }
            &&& forall|i: int, j: int|
                0 <= i < j < row.len() ==> {
                    &&& j == i + 1 ==> (#[trigger] row[i]).offset->0 + row[i].length
                        == row[j].offset->0
                    &&& row[i].offset->0 + row[i].length <= (#[trigger] row[j]).offset->0
                }
            &&& forall|byte: int|
                row[0].offset->0 <= byte < row[0].offset->0 + total_length(ranges, ranges.len())
                    ==> #[trigger] in_row(row, byte)
            &&& row.last().offset->0 + row.last().length == row[0].offset->0 + total_length(
                ranges,
                ranges.len(),
            )
        },
{
    if let Some(row) = normalized_row(uri, ranges, previous) {
        lemma_row_offsets(uri, ranges, previous, 0);
        assert forall|i: int| 0 <= i < row.len() implies {
            &&& (#[trigger] row[i]).offset is Some
            &&& row[i].length == ranges[i].length
            &&& row[i].offset->0 == row[0].offset->0 + total_length(ranges, i as nat)
        } by {
            lemma_row_offsets(uri, ranges, previous, i);
        }
        assert forall|i: int, j: int| 0 <= i < j < row.len() implies {
            &&& j == i + 1 ==> (#[trigger] row[i]).offset->0 + row[i].length == row[j].offset->0
            &&& row[i].offset->0 + row[i].length <= (#[trigger] row[j]).offset->0
        } by {
            lemma_total_length_grows(ranges, (i + 1) as nat, j as nat);
            assert(total_length(ranges, (i + 1) as nat) == total_length(ranges, i as nat)
                + ranges[i].length);
        }
        assert forall|byte: int|
            row[0].offset->0 <= byte < row[0].offset->0 + total_length(
                ranges,
                ranges.len(),
            ) implies #[trigger] in_row(row, byte) by {
            let i = lemma_place_of_byte(ranges, ranges.len(), byte - row[0].offset->0);
            assert(in_range(row[i], byte));
        }
    }
}

/// In which range of a row a place of its span lies.
proof fn lemma_place_of_byte(ranges: Seq<ByteRange>, n: nat, place: int) -> (i: int)
    requires
        n <= ranges.len(),
        0 <= place < total_length(ranges, n),
    ensures
        0 <= i < n,
        total_length(ranges, i as nat) <= place < total_length(ranges, i as nat)
            + ranges[i].length,
    decreases n,
{
    if place < total_length(ranges, (n - 1) as nat) {
        lemma_place_of_byte(ranges, (n - 1) as nat, place)
    } else {
        n - 1
    }
}

/// A row of implicit byte ranges is accepted, behind an explicit one or behind a
/// sub-range of the same resource, where none of them is empty and the last byte of
/// the row has a number.
pub proof fn law_implicit_row_is_accepted(
    uri: Seq<char>,
    ranges: Seq<ByteRange>,
    previous: Option<(Seq<char>, u64)>,
)
    requires
        ranges.len() > 0,
        ranges[0].offset is Some || (previous matches Some((resource, end)) && resource == uri
            && end < u64::MAX),
        forall|k: int| 0 <= k < ranges.len() ==> (#[trigger] ranges[k]).length > 0,
        forall|k: int| 0 < k < ranges.len() ==> (#[trigger] ranges[k]).offset is None,
        media_range::range_start(uri, ranges[0], previous)->Ok_0 + total_length(
            ranges,
            ranges.len(),
        ) - 1 <= u64::MAX,
    ensures
        normalized_row(uri, ranges, previous) is Some,
    decreases ranges.len(),
{
    let rest = ranges.drop_first();
    lemma_total_length_of_rest(ranges, rest.len());
    let (normal, next) = media_range::normalized(uri, Some(ranges[0]), previous)->Ok_0;
    if rest.len() > 0 {
        assert forall|k: int| 0 <= k < rest.len() implies (#[trigger] rest[k]).length > 0 by {
            assert(rest[k] == ranges[k + 1]);
        }
        assert forall|k: int| 0 < k < rest.len() implies (#[trigger] rest[k]).offset is None by {
            assert(rest[k] == ranges[k + 1]);
        }
        assert(rest[0] == ranges[1]);
        lemma_total_length_grows(rest, 1, rest.len());
        assert(total_length(rest, 1) == total_length(rest, 0) + rest[0].length);
        law_implicit_row_is_accepted(uri, rest, next);
    } else {
        assert(normalized_row(uri, rest, next) is Some);
    }
}

/// A byte range with an offset does not depend on what was before it.
pub proof fn law_explicit_range_stands_alone(
    uri: Seq<char>,
    range: ByteRange,
    a: Option<(Seq<char>, u64)>,
    b: Option<(Seq<char>, u64)>,
)
    requires
        range.offset is Some,
    ensures
        media_range::normalized(uri, Some(range), a) == media_range::normalized(
            uri,
            Some(range),
            b,
        ),
{
}

/// An implicit byte range is refused where no sub-range of the same resource is
/// right before it.
pub proof fn law_implicit_range_needs_the_same_resource(
    uri: Seq<char>,
    range: ByteRange,
    previous: Option<(Seq<char>, u64)>,
)
    requires
        range.offset is None,
        previous matches Some((resource, end)) ==> resource != uri,
    ensures
        media_range::normalized(uri, Some(range), previous) is Err,
{
}

/// A segment without a byte range ends the row of sub-ranges.
pub proof fn law_whole_segment_ends_the_row(
    uri: Seq<char>,
    next_uri: Seq<char>,
    range: ByteRange,
    previous: Option<(Seq<char>, u64)>,
)
    requires
        range.offset is None,
    ensures
        media_range::normalized(uri, None, previous) matches Ok((normal, next)) && normal is None
            && media_range::normalized(next_uri, Some(range), next) is Err,
{
}

/// Making a byte range explicit is done once: an explicit one stays as it is.
pub proof fn law_normal_range_is_stable(
    uri: Seq<char>,
    range: ByteRange,
    previous: Option<(Seq<char>, u64)>,
    other: Option<(Seq<char>, u64)>,
)
    ensures
        media_range::normalized(uri, Some(range), previous) matches Ok((normal, next)) ==>
            media_range::normalized(uri, normal, other) == media_range::normalized(
            uri,
            Some(range),
            previous,
        ),
{
}

/// A byte range that lists its offset is taken as it is listed, whatever came before:
/// just that length and that offset. It is refused exactly where it is empty or its
/// last byte has no number.
pub proof fn law_explicit_range_is_as_listed(
    uri: Seq<char>,
    length: u64,
    offset: u64,
    previous: Option<(Seq<char>, u64)>,
)
    ensures
        ({
            let range = ByteRange { length, offset: Some(offset) };
            let normal = media_range::normalized(uri, Some(range), previous);
            &&& normal is Ok <==> length > 0 && offset + length - 1 <= u64::MAX
            &&& normal matches Ok((taken, next)) ==> {
                &&& taken == Some(range)
                &&& next == Some((uri, (offset + length - 1) as u64))
            }
        }),
{
}

/// A byte range that lists no offset starts right behind the last byte of the
/// sub-range before it, with the length that it lists. It is refused exactly where
/// there is no such sub-range of the same resource, where it is empty, or where its
/// last byte has no number.
pub proof fn law_implicit_range_is_behind_the_last(
    uri: Seq<char>,
    length: u64,
    previous: Option<(Seq<char>, u64)>,
)
    ensures
        ({
            let normal = media_range::normalized(
                uri,
                Some(ByteRange { length, offset: None }),
                previous,
            );
            &&& normal is Ok <==> {
                &&& length > 0
                &&& previous is Some
                &&& (previous->0).0 == uri
                &&& (previous->0).1 + length <= u64::MAX
            }
            &&& normal matches Ok((taken, next)) ==> {
                &&& taken == Some(
                    ByteRange { length, offset: Some(((previous->0).1 + 1) as u64) },
                )
                &&& next == Some((uri, ((previous->0).1 + length) as u64))
            }
        }),
{
}

/// Every refusal of a byte range says why.
pub proof fn law_refused_range_says_why(
    uri: Seq<char>,
    range: ByteRange,
    previous: Option<(Seq<char>, u64)>,
)
    ensures
        ({
            let normal = media_range::normalized(uri, Some(range), previous);
            let refused = |text: Seq<char>|
                normal == Err::<
                    (Option<ByteRange>, Option<(Seq<char>, u64)>),
                    VideoErrorView,
                >(VideoErrorView::M3U8ParseError(text));
            let implicit = range.length > 0 && range.offset is None;
            &&& range.length == 0 ==> refused("HLS byte range length must be greater than zero"@)
            &&& implicit && previous is None ==> refused(
                "implicit HLS byte range has no previous sub-range"@,
            )
            &&& implicit && previous is Some && (previous->0).0 != uri ==> refused(
                "implicit HLS byte range changed media resource"@,
            )
            &&& implicit && previous == Some((uri, u64::MAX)) ==> refused(
                "implicit HLS byte range offset overflow"@,
            )
            &&& range.length > 0 && range.offset is Some && range.offset->0 + range.length - 1
                > u64::MAX ==> refused("HLS byte range end overflow"@)
            &&& implicit && previous is Some && (previous->0).0 == uri && (previous->0).1
                < u64::MAX && (previous->0).1 + range.length > u64::MAX ==> refused(
                "HLS byte range end overflow"@,
            )
        }),
{
}

} // verus!
