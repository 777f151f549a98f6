use vstd::prelude::*;
use vstd::slice::{slice_subrange, slice_to_vec};
use vstd::string::StringExecFns;

use crate::error;
use crate::error::{VideoError, VideoErrorView};
use crate::playlist::ByteRange;
use crate::range;
use crate::range::range_header_value;
use crate::resource_url::ResourceUrl;
use crate::status::Delivery;
use crate::text;
use crate::text::decimal_text;
use crate::views;

verus! {

/// What a byte range is asked for, as far as the words of an error go.
#[derive(Debug, Clone, Copy, PartialEq, Eq, Structural)]
pub enum RangeUse {
    /// Any remote resource.
    Remote,
    /// A media segment of a live stream.
    Segment,
}

impl RangeUse {
    /// What the byte range is called.
    pub open spec fn range_name(self) -> Seq<char> {
        match self {
            RangeUse::Remote => "remote"@,
            RangeUse::Segment => "HLS"@,
        }
    }

    /// What the `Range` header is called.
    pub open spec fn header_name(self) -> Seq<char> {
        match self {
            RangeUse::Remote => "Range"@,
            RangeUse::Segment => "HLS Range"@,
        }
    }

    /// Gives the name of the byte range.
    fn range_word(self) -> (word: &'static str)
        ensures
            word@ == self.range_name(),
    {
        match self {
            RangeUse::Remote => "remote",
            RangeUse::Segment => "HLS",
        }
    }

    /// Gives the name of the `Range` header.
    fn header_word(self) -> (word: &'static str)
        ensures
            word@ == self.header_name(),
    {
        match self {
            RangeUse::Remote => "Range",
            RangeUse::Segment => "HLS Range",
        }
    }
}

/// The `length` bytes of a whole resource from `start` on, or why they cannot be
/// taken out of it.
pub open spec fn part_of(purpose: RangeUse, start: u64, length: u64, body: Seq<u8>) -> Result<
    Seq<u8>,
    VideoErrorView,
> {
    if start > usize::MAX {
        Err(
            VideoErrorView::DownloadError(
                purpose.range_name() + " byte-range start does not fit this platform"@,
            ),
        )
    } else if length > usize::MAX {
        Err(
            VideoErrorView::DownloadError(
                purpose.range_name() + " byte-range length does not fit this platform"@,
            ),
        )
    } else if start + length > usize::MAX {
        Err(VideoErrorView::DownloadError(purpose.range_name() + " byte-range end overflow"@))
    } else if start + length > body.len() {
        Err(
            VideoErrorView::DownloadError(
                "server ignored "@ + purpose.header_name() + " but returned only "@ + text::decimal(
                    body.len(),
                ) + " bytes for requested bytes="@ + text::decimal(start as nat) + "-"@
                    + text::decimal(
                    if start + length == 0 {
                        0
                    } else {
                        (start + length - 1) as nat
                    },
                ),
            ),
        )
    } else {
        Ok(body.subrange(start as int, start + length))
    }
}

/// Takes the `length` bytes from `start` on out of a whole resource.
pub fn take_part<'a>(purpose: RangeUse, start: u64, length: u64, body: &'a [u8]) -> (part: Result<
    &'a [u8],
    VideoError,
>)
    ensures
        match part_of(purpose, start, length, body@) {
            Ok(bytes) => part is Ok && part->Ok_0@ == bytes,
            Err(error) => part is Err && part->Err_0@ == error,
        },
{
    if start > usize::MAX as u64 {
        return Err(
            VideoError::DownloadError(
                purpose.range_word().to_owned().concat(
                    " byte-range start does not fit this platform",
                ),
            ),
        );
    }
    if length > usize::MAX as u64 {
        return Err(
            VideoError::DownloadError(
                purpose.range_word().to_owned().concat(
                    " byte-range length does not fit this platform",
                ),
            ),
        );
    }
    let start: usize = start as usize;
    let end: usize = match start.checked_add(length as usize) {
        Some(end) => end,
        None => {
            return Err(
                VideoError::DownloadError(
                    purpose.range_word().to_owned().concat(" byte-range end overflow"),
                ),
            );
        },
    };
    if end > body.len() {
        return Err(
            VideoError::DownloadError(
                "server ignored ".to_owned().concat(purpose.header_word()).concat(
                    " but returned only ",
                ).concat(decimal_text(body.len() as u64).as_str()).concat(
                    " bytes for requested bytes=",
                ).concat(decimal_text(start as u64).as_str()).concat("-").concat(
                    decimal_text(end.saturating_sub(1) as u64).as_str(),
                ),
            ),
        );
    }
    Ok(slice_subrange(body, start, end))
}

/// What a reply delivers of a resource of which the bytes `bounds`, a start and a
/// length, were asked for: the part where the whole resource came back, else the
/// body as it is.
pub open spec fn delivered_part(
    purpose: RangeUse,
    bounds: Option<(u64, u64)>,
    delivered: Delivery,
    body: Seq<u8>,
) -> Result<Seq<u8>, VideoErrorView> {
    match (delivered, bounds) {
        (Delivery::Full, Some((start, length))) => part_of(purpose, start, length, body),
        _ => Ok(body),
    }
}

/// Takes what was asked for out of the body of a reply.
pub fn requested_part<'a>(
    purpose: RangeUse,
    bounds: Option<(u64, u64)>,
    delivered: Delivery,
    body: &'a [u8],
) -> (part: Result<&'a [u8], VideoError>)
    ensures
        match delivered_part(purpose, bounds, delivered, body@) {
            Ok(bytes) => part is Ok && part->Ok_0@ == bytes,
            Err(error) => part is Err && part->Err_0@ == error,
        },
{
    match (delivered, bounds) {
        (Delivery::Full, Some((start, length))) => take_part(purpose, start, length, body),
        _ => Ok(body),
    }
}

/// A remote resource, or a sub-range of one.
#[derive(Debug, PartialEq, Eq, Hash)]
pub struct RemoteData {
    url: ResourceUrl,
    byte_range: Option<ByteRange>,
}

/// What a [`RemoteData`] says.
pub struct RemoteDataView {
    pub url: Seq<char>,
    pub byte_range: Option<ByteRange>,
}

impl View for RemoteData {
    type V = RemoteDataView;

    closed spec fn view(&self) -> RemoteDataView {
        RemoteDataView { url: self.url@, byte_range: self.byte_range }
    }
}

impl Clone for RemoteData {
    fn clone(&self) -> (copy: RemoteData)
        ensures
            copy@ == self@,
    {
        RemoteData { url: self.url.clone(), byte_range: self.byte_range }
    }
}

impl RemoteDataView {
    /// Where the sub-range starts and how long it is. Without an offset it starts
    /// at the first byte.
    pub open spec fn bounds(self) -> Option<(u64, u64)> {
        match self.byte_range {
            None => None,
            Some(range) => Some(
                (
                    match range.offset {
                        Some(offset) => offset,
                        None => 0,
                    },
                    range.length,
                ),
            ),
        }
    }

    /// The last byte of a sub-range, held to the greatest number there is.
    pub open spec fn last_byte(start: u64, length: u64) -> u64 {
        if length == 0 {
            start
        } else {
            range::saturating_sum(start, (length - 1) as u64)
        }
    }

    /// What a reply to a request for the resource gives: its bytes, and the address
    /// that the reply came from in the end.
    pub open spec fn fetched(self, status: u16, body: Seq<u8>, final_url: Seq<char>) -> Result<
        (Seq<u8>, Seq<char>),
        VideoErrorView,
    > {
        match remote_delivery(status) {
            Err(error) => Err(error),
            Ok(delivered) => match delivered_part(
                RangeUse::Remote,
                self.bounds(),
                delivered,
                body,
            ) {
                Err(error) => Err(error),
                Ok(part) => Ok((part, final_url)),
            },
        }
    }

    /// The `Range` header value that asks for the sub-range.
    pub open spec fn header(self) -> Option<Seq<char>> {
        match self.bounds() {
            None => None,
            Some((start, length)) => Some(
                range::range_header(start, RemoteDataView::last_byte(start, length)),
            ),
        }
    }
}

/// What a status code means for a remote resource: `OK` delivers all of it, any
/// other success what was asked for, and everything else nothing.
pub open spec fn remote_delivery(status: u16) -> Result<Delivery, VideoErrorView> {
    if status == 200 {
        Ok(Delivery::Full)
    } else if 200 < status < 300 {
        Ok(Delivery::Partial)
    } else {
        Err(VideoErrorView::BodyCannotParsed)
    }
}

impl RemoteData {
    /// The resource at `url`, or the sub-range `byte_range` of it.
    pub fn new(url: ResourceUrl, byte_range: Option<ByteRange>) -> (data: RemoteData)
        ensures
            data@ == (RemoteDataView { url: url@, byte_range }),
    {
        RemoteData { url, byte_range }
    }

    /// Where the resource is.
    pub fn url(&self) -> (url: &ResourceUrl)
        ensures
            url@ == self@.url,
    {
        &self.url
    }

    /// Where the sub-range starts and how long it is.
    pub fn byte_range_bounds(&self) -> (bounds: Option<(u64, u64)>)
        ensures
            bounds == self@.bounds(),
    {
        match self.byte_range {
            None => None,
            Some(range) => match range.offset {
                Some(offset) => Some((offset, range.length)),
                None => Some((0, range.length)),
            },
        }
    }

    /// The `Range` header value that asks for the sub-range. Its end never wraps.
    pub fn byte_range_string(&self) -> (header: Option<String>)
        ensures
            views::view_option(header) == self@.header(),
    {
        match self.byte_range_bounds() {
            None => None,
            Some((start, length)) => {
                let end: u64 = start.saturating_add(length.saturating_sub(1));
                Some(range_header_value(start, end))
            },
        }
    }

    /// Whether both are the same part of the same resource.
    pub fn same_as(&self, other: &RemoteData) -> (same: bool)
        ensures
            same == (self@ == other@),
    {
        self.url.same_as(&other.url) && match (self.byte_range, other.byte_range) {
            (None, None) => true,
            (Some(a), Some(b)) => a.length == b.length && match (a.offset, b.offset) {
                (None, None) => true,
                (Some(a), Some(b)) => a == b,
                _ => false,
            },
            _ => false,
        }
    }

    /// Sorts the status of a reply into what it delivers.
    pub fn fetch_status(status: u16) -> (delivered: Result<Delivery, VideoError>)
        ensures
            error::plain_result(delivered) == remote_delivery(status),
    {
        if status == 200 {
            Ok(Delivery::Full)
        } else if 200 < status && status < 300 {
            Ok(Delivery::Partial)
        } else {
            Err(VideoError::BodyCannotParsed)
        }
    }

    /// Takes the bytes of the resource out of what a reply delivers.
    pub fn received(&self, delivered: Delivery, body: &[u8]) -> (bytes: Result<
        Vec<u8>,
        VideoError,
    >)
        ensures
            match delivered_part(RangeUse::Remote, self@.bounds(), delivered, body@) {
                Ok(part) => bytes is Ok && bytes->Ok_0@ == part,
                Err(error) => bytes is Err && bytes->Err_0@ == error,
            },
    {
        match requested_part(RangeUse::Remote, self.byte_range_bounds(), delivered, body) {
            Ok(part) => Ok(slice_to_vec(part)),
            Err(error) => Err(error),
        }
    }

    /// Takes the bytes of the resource out of the reply to a request for it, given
    /// the reply's status, its body and the address that it came from in the end.
    /// The bytes come with that address.
    pub fn fetch(&self, status: u16, body: &[u8], final_url: ResourceUrl) -> (fetched: Result<
        (Vec<u8>, ResourceUrl),
        VideoError,
    >)
        ensures
            match self@.fetched(status, body@, final_url@) {
                Ok((bytes, url)) => {
                    &&& fetched is Ok
                    &&& fetched->Ok_0.0@ == bytes
                    &&& fetched->Ok_0.1@ == url
                },
                Err(error) => fetched is Err && fetched->Err_0@ == error,
            },
    {
        let delivered: Delivery = match RemoteData::fetch_status(status) {
            Ok(delivered) => delivered,
            Err(error) => {
                return Err(error);
            },
        };
        match self.received(delivered, body) {
            Ok(bytes) => Ok((bytes, final_url)),
            Err(error) => Err(error),
        }
    }
}

} // verus!
