use vstd::prelude::*;

use crate::error::VideoErrorView;
use crate::playlist::ByteRange;
use crate::range;
use crate::remote_data;
use crate::remote_data::{RangeUse, RemoteDataView};
use crate::status::Delivery;
use crate::text;

verus! {

/// The range that is asked for never descends and never wraps; where the last byte
/// has a number it is exactly the last one of the sub-range.
pub proof fn law_requested_end_never_wraps(start: u64, length: u64)
    ensures
        start <= RemoteDataView::last_byte(start, length),
        length > 0 && start + length - 1 <= u64::MAX ==> RemoteDataView::last_byte(start, length)
            == start + length - 1,
{
}

/// Without a byte range no `Range` header is sent, and with one it is.
pub proof fn law_range_header_is_sent_for_ranges_only(data: RemoteDataView)
    ensures
        data.header() is Some == data.byte_range is Some,
        data.bounds() matches Some((start, length)) ==> data.header() == Some(
            range::range_header(start, RemoteDataView::last_byte(start, length)),
        ),
{
}

/// Whether a server honours the range or sends the whole resource, the reader gets
/// the same bytes: those of the sub-range.
pub proof fn law_ignored_range_gives_the_same_bytes(
    purpose: RangeUse,
    start: u64,
    length: u64,
    resource: Seq<u8>,
)
    requires
        start + length <= resource.len() <= usize::MAX,
    ensures
        ({
            let part = resource.subrange(start as int, start + length);
            let bounds = Some((start, length));
            &&& remote_data::delivered_part(purpose, bounds, Delivery::Full, resource) == Ok::<
                Seq<u8>,
                VideoErrorView,
            >(part)
            &&& remote_data::delivered_part(purpose, bounds, Delivery::Partial, part) == Ok::<
                Seq<u8>,
                VideoErrorView,
            >(part)
        }),
{
}

/// Whatever is fetched comes with the address that the reply came from in the end.
/// A status that is no success fetches nothing, and without a byte range, or from a
/// server that honours it, the body is fetched as it is.
pub proof fn law_fetched_bytes_come_with_their_address(
    data: RemoteDataView,
    status: u16,
    body: Seq<u8>,
    final_url: Seq<char>,
)
    ensures
        data.fetched(status, body, final_url) matches Ok((bytes, url)) ==> url == final_url,
        !(200 <= status < 300) ==> data.fetched(status, body, final_url) == Err::<
            (Seq<u8>, Seq<char>),
            VideoErrorView,
        >(VideoErrorView::BodyCannotParsed),
        200 < status < 300 || (status == 200 && data.byte_range is None) ==> data.fetched(
            status,
            body,
            final_url,
        ) == Ok::<(Seq<u8>, Seq<char>), VideoErrorView>((body, final_url)),
{
}

/// A resource without a byte range is taken as it comes.
pub proof fn law_whole_resource_is_unchanged(
    purpose: RangeUse,
    delivered: Delivery,
    body: Seq<u8>,
)
    ensures
        remote_data::delivered_part(purpose, None, delivered, body) == Ok::<
            Seq<u8>,
            VideoErrorView,
        >(body),
{
}

/// A whole resource that is too short for the sub-range is refused.
pub proof fn law_short_resource_is_refused(
    purpose: RangeUse,
    start: u64,
    length: u64,
    body: Seq<u8>,
)
    requires
        body.len() < start + length,
    ensures
        remote_data::delivered_part(purpose, Some((start, length)), Delivery::Full, body) is Err,
{
}

/// Which bytes of a resource are meant: all of them where no range is listed, and
/// else the listed length from the listed offset on, or from the first byte where no
/// offset is listed.
pub proof fn law_bounds_are_as_listed(url: Seq<char>, length: u64, offset: u64)
    ensures
        (RemoteDataView { url, byte_range: None }).bounds() is None,
        (RemoteDataView {
            url,
            byte_range: Some(ByteRange { length, offset: Some(offset) }),
        }).bounds() == Some((offset, length)),
        (RemoteDataView { url, byte_range: Some(ByteRange { length, offset: None }) }).bounds()
            == Some((0u64, length)),
{
}

/// The header that asks for a sub-range names its first and its last byte.
pub proof fn law_header_names_the_sub_range(url: Seq<char>, length: u64, offset: u64)
    ensures
        (RemoteDataView { url, byte_range: None }).header() is None,
        0 < length && offset + length - 1 <= u64::MAX ==> (RemoteDataView {
            url,
            byte_range: Some(ByteRange { length, offset: Some(offset) }),
        }).header() == Some(
            "bytes="@ + text::decimal(offset as nat) + "-"@ + text::decimal(
                (offset + length - 1) as nat,
            ),
        ),
        offset + length - 1 > u64::MAX ==> (RemoteDataView {
            url,
            byte_range: Some(ByteRange { length, offset: Some(offset) }),
        }).header() == Some(
            "bytes="@ + text::decimal(offset as nat) + "-"@ + text::decimal(u64::MAX as nat),
        ),
        length == 0 ==> (RemoteDataView {
            url,
            byte_range: Some(ByteRange { length, offset: Some(offset) }),
        }).header() == Some(
            "bytes="@ + text::decimal(offset as nat) + "-"@ + text::decimal(offset as nat),
        ),
        (RemoteDataView { url, byte_range: Some(ByteRange { length, offset: None }) }).header()
            == (RemoteDataView {
            url,
            byte_range: Some(ByteRange { length, offset: Some(0) }),
        }).header(),
{
}

/// What a reply delivers: the body as it is, but for the whole of a resource of which
/// a sub-range was asked for. Of that just the sub-range is taken, and exactly where
/// the body reaches that far.
pub proof fn law_delivered_part_is_what_was_asked_for(
    purpose: RangeUse,
    start: u64,
    length: u64,
    body: Seq<u8>,
)
    requires
        body.len() <= usize::MAX,
    ensures
        remote_data::delivered_part(purpose, None, Delivery::Full, body) == Ok::<
            Seq<u8>,
            VideoErrorView,
        >(body),
        remote_data::delivered_part(purpose, None, Delivery::Partial, body) == Ok::<
            Seq<u8>,
            VideoErrorView,
        >(body),
        remote_data::delivered_part(purpose, Some((start, length)), Delivery::Partial, body)
            == Ok::<Seq<u8>, VideoErrorView>(body),
        start + length <= body.len() ==> remote_data::delivered_part(
            purpose,
            Some((start, length)),
            Delivery::Full,
            body,
        ) == Ok::<Seq<u8>, VideoErrorView>(body.subrange(start as int, start + length)),
        start + length > body.len() ==> remote_data::delivered_part(
            purpose,
            Some((start, length)),
            Delivery::Full,
            body,
        ) is Err,
{
}

/// What a fetch of a sub-range gives from a server that sends the whole resource:
/// the sub-range, with the address that the reply came from.
pub proof fn law_whole_reply_is_cut_to_the_sub_range(
    url: Seq<char>,
    length: u64,
    offset: u64,
    body: Seq<u8>,
    final_url: Seq<char>,
)
    requires
        offset + length <= body.len() <= usize::MAX,
    ensures
        (RemoteDataView {
            url,
            byte_range: Some(ByteRange { length, offset: Some(offset) }),
        }).fetched(200, body, final_url) == Ok::<(Seq<u8>, Seq<char>), VideoErrorView>(
            (body.subrange(offset as int, offset + length), final_url),
        ),
{
}

/// Only a success delivers anything of a remote resource, and only 200 all of it.
pub proof fn law_only_success_delivers(status: u16)
    ensures
        remote_data::remote_delivery(status) == Ok::<Delivery, VideoErrorView>(Delivery::Full)
            <==> status == 200,
        remote_data::remote_delivery(status) == Ok::<Delivery, VideoErrorView>(Delivery::Partial)
            <==> 201 <= status <= 299,
        !(200 <= status <= 299) ==> remote_data::remote_delivery(status) == Err::<
            Delivery,
            VideoErrorView,
        >(VideoErrorView::BodyCannotParsed),
{
}

/// Every refusal of a whole resource says why.
pub proof fn law_refused_resource_says_why(start: u64, length: u64, body: Seq<u8>)
    requires
        body.len() < start + length,
    ensures
        start + length <= usize::MAX ==> {
            let returned = " but returned only "@ + text::decimal(body.len());
            let requested = " bytes for requested bytes="@ + text::decimal(start as nat) + "-"@
                + text::decimal((start + length - 1) as nat);
            &&& remote_data::part_of(RangeUse::Remote, start, length, body) == Err::<
                Seq<u8>,
                VideoErrorView,
            >(VideoErrorView::DownloadError("server ignored "@ + "Range"@ + returned + requested))
            &&& remote_data::part_of(RangeUse::Segment, start, length, body) == Err::<
                Seq<u8>,
                VideoErrorView,
            >(
                VideoErrorView::DownloadError(
                    "server ignored "@ + "HLS Range"@ + returned + requested,
                ),
            )
        },
        start > usize::MAX ==> {
            &&& remote_data::part_of(RangeUse::Remote, start, length, body) == Err::<
                Seq<u8>,
                VideoErrorView,
            >(
                VideoErrorView::DownloadError(
                    "remote"@ + " byte-range start does not fit this platform"@,
                ),
            )
            &&& remote_data::part_of(RangeUse::Segment, start, length, body) == Err::<
                Seq<u8>,
                VideoErrorView,
            >(
                VideoErrorView::DownloadError(
                    "HLS"@ + " byte-range start does not fit this platform"@,
                ),
            )
        },
        start <= usize::MAX && length > usize::MAX ==> {
            &&& remote_data::part_of(RangeUse::Remote, start, length, body) == Err::<
                Seq<u8>,
                VideoErrorView,
            >(
                VideoErrorView::DownloadError(
                    "remote"@ + " byte-range length does not fit this platform"@,
                ),
            )
            &&& remote_data::part_of(RangeUse::Segment, start, length, body) == Err::<
                Seq<u8>,
                VideoErrorView,
            >(
                VideoErrorView::DownloadError(
                    "HLS"@ + " byte-range length does not fit this platform"@,
                ),
            )
        },
        start <= usize::MAX && length <= usize::MAX && start + length > usize::MAX ==> {
            &&& remote_data::part_of(RangeUse::Remote, start, length, body) == Err::<
                Seq<u8>,
                VideoErrorView,
            >(VideoErrorView::DownloadError("remote"@ + " byte-range end overflow"@))
            &&& remote_data::part_of(RangeUse::Segment, start, length, body) == Err::<
                Seq<u8>,
                VideoErrorView,
            >(VideoErrorView::DownloadError("HLS"@ + " byte-range end overflow"@))
        },
{
    if start + length <= usize::MAX {
        let size = text::decimal(body.len());
        let first = text::decimal(start as nat);
        let last = text::decimal((start + length - 1) as nat);
        let returned = " but returned only "@ + size;
        let requested = " bytes for requested bytes="@ + first + "-"@ + last;
        let a = "server ignored "@ + "Range"@;
        let b = "server ignored "@ + "HLS Range"@;
        assert(a + returned + requested =~= a + " but returned only "@ + size
            + " bytes for requested bytes="@ + first + "-"@ + last);
        assert(b + returned + requested =~= b + " but returned only "@ + size
            + " bytes for requested bytes="@ + first + "-"@ + last);
    }
}

} // verus!
