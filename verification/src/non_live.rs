use bytes::Bytes;
use vstd::prelude::*;
use vstd::string::StringExecFns;

use crate::buffer;
use crate::buffer::bytes_slice;
use crate::error;
use crate::error::{VideoError, VideoErrorView};
use crate::range;
use crate::range::range_header_value;
use crate::status;
use crate::status::{classify_status, Delivery};
use crate::text;
use crate::text::{decimal_text, parse_u64, same_text, split_once, strip_prefix};

verus! {

/// Where the range that a partial response serves ends, given its
/// `Content-Range` header, the range that was asked for, the length of the whole
/// representation and the length of the body; or why the response is refused.
pub open spec fn served_end(
    content_range: Seq<char>,
    requested_start: u64,
    requested_end: u64,
    expected_content_length: u64,
    body_len: nat,
) -> Result<u64, VideoErrorView> {
    if body_len == 0 {
        Err(VideoErrorView::DownloadError("partial response body was empty"@))
    } else {
        match text::after_prefix(content_range, "bytes "@) {
            None => Err(
                VideoErrorView::DownloadError("invalid Content-Range unit: "@ + content_range),
            ),
            Some(range) => match text::split_at_first(range, '/') {
                None => Err(
                    VideoErrorView::DownloadError("invalid Content-Range: "@ + content_range),
                ),
                Some((bounds, total)) => match text::split_at_first(bounds, '-') {
                    None => Err(
                        VideoErrorView::DownloadError(
                            "invalid Content-Range bounds: "@ + content_range,
                        ),
                    ),
                    Some((start, end)) => match text::parsed_u64(start) {
                        None => Err(
                            VideoErrorView::DownloadError(
                                "invalid Content-Range start: "@ + content_range,
                            ),
                        ),
                        Some(start) => match text::parsed_u64(end) {
                            None => Err(
                                VideoErrorView::DownloadError(
                                    "invalid Content-Range end: "@ + content_range,
                                ),
                            ),
                            Some(end) => if start != requested_start || end < start || end
                                > requested_end {
                                Err(
                                    VideoErrorView::DownloadError(
                                        "unexpected Content-Range "@ + content_range
                                            + " for requested bytes="@ + text::decimal(
                                            requested_start as nat,
                                        ) + "-"@ + text::decimal(requested_end as nat),
                                    ),
                                )
                            } else if let Err(error) = total_check(
                                content_range,
                                total,
                                end,
                                expected_content_length,
                            ) {
                                Err(error)
                            } else if end - start + 1 > u64::MAX {
                                Err(
                                    VideoErrorView::DownloadError(
                                        "partial response length overflow"@,
                                    ),
                                )
                            } else if end - start + 1 != body_len {
                                Err(
                                    VideoErrorView::DownloadError(
                                        "Content-Range "@ + content_range + " describes "@
                                            + text::decimal((end - start + 1) as nat)
                                            + " bytes but body contained "@ + text::decimal(
                                            body_len,
                                        ),
                                    ),
                                )
                            } else {
                                Ok(end)
                            },
                        },
                    },
                },
            },
        }
    }
}

/// Whether the total of a `Content-Range` header agrees with the length of the
/// representation: an asterisk always does; a number has to be that length, and
/// the served range has to end before it.
pub open spec fn total_check(
    content_range: Seq<char>,
    total: Seq<char>,
    end: u64,
    expected_content_length: u64,
) -> Result<(), VideoErrorView> {
    if total == "*"@ {
        Ok(())
    } else {
        match text::parsed_u64(total) {
            None => Err(
                VideoErrorView::DownloadError("invalid Content-Range total: "@ + content_range),
            ),
            Some(total) => if total != expected_content_length {
                Err(
                    VideoErrorView::DownloadError(
                        "Content-Range representation length "@ + text::decimal(total as nat)
                            + " does not match expected content length "@ + text::decimal(
                            expected_content_length as nat,
                        ) + ": "@ + content_range,
                    ),
                )
            } else if end >= total {
                Err(
                    VideoErrorView::DownloadError(
                        "Content-Range end exceeds representation length: "@ + content_range,
                    ),
                )
            } else {
                Ok(())
            },
        }
    }
}

/// Checks the total of a `Content-Range` header.
fn check_total(
    content_range: &str,
    total: &str,
    end: u64,
    expected_content_length: u64,
) -> (checked: Result<(), VideoError>)
    ensures
        error::plain_result(checked) == total_check(
            content_range@,
            total@,
            end,
            expected_content_length,
        ),
{
    if same_text(total, "*") {
        return Ok(());
    }
    match parse_u64(total) {
        None => Err(
            VideoError::DownloadError(
                "invalid Content-Range total: ".to_owned().concat(content_range),
            ),
        ),
        Some(total) => {
            if total != expected_content_length {
                Err(
                    VideoError::DownloadError(
                        "Content-Range representation length ".to_owned().concat(
                            decimal_text(total).as_str(),
                        ).concat(" does not match expected content length ").concat(
                            decimal_text(expected_content_length).as_str(),
                        ).concat(": ").concat(content_range),
                    ),
                )
            } else if end >= total {
                Err(
                    VideoError::DownloadError(
                        "Content-Range end exceeds representation length: ".to_owned().concat(
                            content_range,
                        ),
                    ),
                )
            } else {
                Ok(())
            }
        },
    }
}

/// Checks a partial response against the range that was asked for and gives the
/// place of the last byte that it serves.
pub fn partial_response_end(
    content_range: &str,
    requested_start: u64,
    requested_end: u64,
    expected_content_length: u64,
    body_len: usize,
) -> (end: Result<u64, VideoError>)
    ensures
        error::plain_result(end) == served_end(
            content_range@,
            requested_start,
            requested_end,
            expected_content_length,
            body_len as nat,
        ),
{
    if body_len == 0 {
        return Err(VideoError::DownloadError("partial response body was empty".to_owned()));
    }
    let range: &str = match strip_prefix(content_range, "bytes ") {
        Some(range) => range,
        None => {
            return Err(
                VideoError::DownloadError(
                    "invalid Content-Range unit: ".to_owned().concat(content_range),
                ),
            );
        },
    };
    let (bounds, total): (&str, &str) = match split_once(range, '/') {
        Some(parts) => parts,
        None => {
            return Err(
                VideoError::DownloadError(
                    "invalid Content-Range: ".to_owned().concat(content_range),
                ),
            );
        },
    };
    let (start, end): (&str, &str) = match split_once(bounds, '-') {
        Some(parts) => parts,
        None => {
            return Err(
                VideoError::DownloadError(
                    "invalid Content-Range bounds: ".to_owned().concat(content_range),
                ),
            );
        },
    };
    let start: u64 = match parse_u64(start) {
        Some(start) => start,
        None => {
            return Err(
                VideoError::DownloadError(
                    "invalid Content-Range start: ".to_owned().concat(content_range),
                ),
            );
        },
    };
    let end: u64 = match parse_u64(end) {
        Some(end) => end,
        None => {
            return Err(
                VideoError::DownloadError(
                    "invalid Content-Range end: ".to_owned().concat(content_range),
                ),
            );
        },
    };
    if start != requested_start || end < start || end > requested_end {
        return Err(
            VideoError::DownloadError(
                "unexpected Content-Range ".to_owned().concat(content_range).concat(
                    " for requested bytes=",
                ).concat(decimal_text(requested_start).as_str()).concat("-").concat(
                    decimal_text(requested_end).as_str(),
                ),
            ),
        );
    }
    if let Err(error) = check_total(content_range, total, end, expected_content_length) {
        return Err(error);
    }
    let expected_len: u64 = match (end - start).checked_add(1) {
        Some(length) => length,
        None => {
            return Err(VideoError::DownloadError("partial response length overflow".to_owned()));
        },
    };
    if expected_len != body_len as u64 {
        return Err(
            VideoError::DownloadError(
                "Content-Range ".to_owned().concat(content_range).concat(" describes ").concat(
                    decimal_text(expected_len).as_str(),
                ).concat(" bytes but body contained ").concat(
                    decimal_text(body_len as u64).as_str(),
                ),
            ),
        );
    }
    Ok(end)
}

/// How a stream over a resource of known length is set up.
pub struct NonLiveStreamOptions {
    /// Where the resource is.
    pub link: String,
    /// How many bytes the resource has.
    pub content_length: u64,
    /// How many bytes each request after the first asks for.
    pub dl_chunk_size: u64,
    /// The first byte of the first request.
    pub start: u64,
    /// The last byte of the first request.
    pub end: u64,
}

/// A stream over a resource of known length, downloaded range by range.
///
/// `start` and `end` are the range to ask for next. When the resource is used
/// up they go back to where they began, and the stream can be read again.
pub struct NonLiveStream {
    link: String,
    content_length: u64,
    dl_chunk_size: u64,
    start: u64,
    end: u64,
    start_static: u64,
    end_static: u64,
}

/// What a [`NonLiveStream`] holds.
#[verifier::ext_equal]
pub struct NonLiveStreamView {
    pub link: Seq<char>,
    pub content_length: u64,
    pub dl_chunk_size: u64,
    pub start: u64,
    pub end: u64,
    pub start_static: u64,
    pub end_static: u64,
}

impl View for NonLiveStream {
    type V = NonLiveStreamView;

    closed spec fn view(&self) -> NonLiveStreamView {
        NonLiveStreamView {
            link: self.link@,
            content_length: self.content_length,
            dl_chunk_size: self.dl_chunk_size,
            start: self.start,
            end: self.end,
            start_static: self.start_static,
            end_static: self.end_static,
        }
    }
}

impl NonLiveStreamView {
    /// A stream that has not been read from.
    pub open spec fn fresh(
        link: Seq<char>,
        content_length: u64,
        dl_chunk_size: u64,
        start: u64,
        end: u64,
    ) -> NonLiveStreamView {
        NonLiveStreamView {
            link,
            content_length,
            dl_chunk_size,
            start,
            end,
            start_static: start,
            end_static: end,
        }
    }

    /// Every request asks for at least one byte.
    pub open spec fn well_formed(self) -> bool {
        self.dl_chunk_size > 0
    }

    /// The range to ask for next is no descending one.
    pub open spec fn ascending(self) -> bool {
        self.start <= self.end
    }

    /// Nothing is left to ask for.
    pub open spec fn exhausted(self) -> bool {
        self.start >= self.content_length
    }

    /// The same stream, back at its first range.
    pub open spec fn rewound(self) -> NonLiveStreamView {
        NonLiveStreamView { start: self.start_static, end: self.end_static, ..self }
    }

    /// The last byte to ask for: never one past the end of the resource.
    pub open spec fn request_end(self) -> u64 {
        if self.content_length == 0 {
            0
        } else if self.end < self.content_length {
            self.end
        } else {
            (self.content_length - 1) as u64
        }
    }

    /// The same stream after a full reply: nothing is left.
    pub open spec fn after_full(self) -> NonLiveStreamView {
        NonLiveStreamView {
            start: self.content_length,
            end: if self.content_length == 0 {
                0
            } else {
                (self.content_length - 1) as u64
            },
            ..self
        }
    }

    /// The same stream after a partial reply whose last byte was `served`.
    pub open spec fn after_partial(self, served: u64) -> NonLiveStreamView {
        NonLiveStreamView {
            start: range::saturating_sum(served, 1),
            end: range::saturating_sum(served, self.dl_chunk_size),
            ..self
        }
    }

    /// What a reply to the current request makes of the stream, and the bytes
    /// that it hands out; or why the reply is refused.
    ///
    /// A full reply has to be the whole resource, and only what follows `start`
    /// is handed out. A partial reply has to say truly which range it serves, and
    /// is handed out as it is.
    pub open spec fn finished(
        self,
        delivered: Delivery,
        content_range: Option<Seq<char>>,
        body: Seq<u8>,
    ) -> Result<(NonLiveStreamView, Seq<u8>), VideoErrorView> {
        match delivered {
            Delivery::Full => if body.len() != self.content_length || self.start > body.len() {
                Err(
                    VideoErrorView::DownloadError(
                        "server ignored Range but returned "@ + text::decimal(body.len())
                            + " bytes for a "@ + text::decimal(self.content_length as nat)
                            + "-byte representation"@,
                    ),
                )
            } else {
                Ok((self.after_full(), body.subrange(self.start as int, body.len() as int)))
            },
            Delivery::Partial => match content_range {
                None => Err(
                    VideoErrorView::DownloadError("partial response was missing Content-Range"@),
                ),
                Some(content_range) => match served_end(
                    content_range,
                    self.start,
                    self.request_end(),
                    self.content_length,
                    body.len(),
                ) {
                    Err(error) => Err(error),
                    Ok(served) => Ok((self.after_partial(served), body)),
                },
            },
        }
    }
}

/// A range to ask for.
pub struct RangeRequest {
    /// The first byte.
    pub start: u64,
    /// The last byte.
    pub end: u64,
    /// The `Range` header value that says so.
    pub range: String,
}

impl NonLiveStream {
    /// Sets a stream up. A chunk size of zero is refused: every range after the
    /// first would be a descending one.
    pub fn new(options: NonLiveStreamOptions) -> (stream: Result<NonLiveStream, VideoError>)
        ensures
            error::view_result(stream) == if options.dl_chunk_size == 0 {
                Err(
                    VideoErrorView::DownloadError(
                        "download chunk size must be greater than zero"@,
                    ),
                )
            } else {
                Ok(
                    NonLiveStreamView::fresh(
                        options.link@,
                        options.content_length,
                        options.dl_chunk_size,
                        options.start,
                        options.end,
                    ),
                )
            },
            stream matches Ok(stream) ==> stream@.well_formed(),
    {
        if options.dl_chunk_size == 0 {
            return Err(
                VideoError::DownloadError(
                    "download chunk size must be greater than zero".to_owned(),
                ),
            );
        }
        Ok(
            NonLiveStream {
                link: options.link,
                content_length: options.content_length,
                dl_chunk_size: options.dl_chunk_size,
                start: options.start,
                end: options.end,
                start_static: options.start,
                end_static: options.end,
            },
        )
    }

    /// Sorts the status of a reply into what it delivers.
    pub fn range_status(status: u16) -> (delivered: Result<Delivery, VideoError>)
        ensures
            error::plain_result(delivered) == status::delivery(status, "ranged media request"@),
    {
        classify_status(status, "ranged media request")
    }

    /// Where the resource is.
    pub fn link(&self) -> (link: &str)
        ensures
            link@ == self@.link,
    {
        self.link.as_str()
    }

    /// How many bytes the resource has.
    pub fn content_length(&self) -> (length: u64)
        ensures
            length == self@.content_length,
    {
        self.content_length
    }

    /// The first byte to ask for next.
    pub fn start_index(&self) -> (start: u64)
        ensures
            start == self@.start,
    {
        self.start
    }

    /// The last byte to ask for next, where the resource reaches that far.
    pub fn end_index(&self) -> (end: u64)
        ensures
            end == self@.end,
    {
        self.end
    }

    /// Starts a chunk: the range to ask for, or `None` at the end of the
    /// resource, where the stream goes back to its first range.
    pub fn begin_chunk(&mut self) -> (request: Option<RangeRequest>)
        ensures
            request is None == old(self)@.exhausted(),
            request is None ==> final(self)@ == old(self)@.rewound(),
            request matches Some(request) ==> {
                &&& final(self)@ == old(self)@
                &&& request.start == old(self)@.start
                &&& request.end == old(self)@.request_end()
                &&& request.range@ == range::range_header(request.start, request.end)
            },
    {
        if self.start >= self.content_length {
            self.end = self.end_static;
            self.start = self.start_static;
            return None;
        }
        let end: u64 = self.request_end();
        Some(RangeRequest { start: self.start, end, range: range_header_value(self.start, end) })
    }

    /// The last byte to ask for.
    fn request_end(&self) -> (end: u64)
        ensures
            end == self@.request_end(),
    {
        let last: u64 = self.content_length.saturating_sub(1);
        if self.end < last {
            self.end
        } else {
            last
        }
    }

    /// Finishes a chunk with the reply to the range that `begin_chunk` gave:
    /// checks it, hands its bytes out and moves on. A refused reply leaves the
    /// stream as it was, so the same range is asked for again.
    pub fn finish_chunk(
        &mut self,
        delivered: Delivery,
        content_range: Option<&str>,
        body: Bytes,
    ) -> (chunk: Result<Bytes, VideoError>)
        ensures
            ({
                let header = match content_range {
                    Some(value) => Some(value@),
                    None => None,
                };
                match old(self)@.finished(delivered, header, buffer::bytes_contents(body)) {
                    Ok((next, bytes)) => {
                        &&& final(self)@ == next
                        &&& chunk is Ok
                        &&& buffer::bytes_contents(chunk->Ok_0) == bytes
                    },
                    Err(error) => {
                        &&& final(self)@ == old(self)@
                        &&& chunk is Err
                        &&& chunk->Err_0@ == error
                    },
                }
            }),
    {
        match delivered {
            Delivery::Full => {
                let body_len: usize = body.len();
                if body_len as u64 != self.content_length || self.start > body_len as u64 {
                    return Err(
                        VideoError::DownloadError(
                            "server ignored Range but returned ".to_owned().concat(
                                decimal_text(body_len as u64).as_str(),
                            ).concat(" bytes for a ").concat(
                                decimal_text(self.content_length).as_str(),
                            ).concat("-byte representation"),
                        ),
                    );
                }
                let remaining: Bytes = bytes_slice(&body, self.start as usize, body_len);
                self.start = self.content_length;
                self.end = self.content_length.saturating_sub(1);
                Ok(remaining)
            },
            Delivery::Partial => {
                let content_range: &str = match content_range {
                    Some(value) => value,
                    None => {
                        return Err(
                            VideoError::DownloadError(
                                "partial response was missing Content-Range".to_owned(),
                            ),
                        );
                    },
                };
                let served: u64 = match partial_response_end(
                    content_range,
                    self.start,
                    self.request_end(),
                    self.content_length,
                    body.len(),
                ) {
                    Ok(served) => served,
                    Err(error) => {
                        return Err(error);
                    },
                };
                self.start = served.saturating_add(1);
                self.end = served.saturating_add(self.dl_chunk_size);
                Ok(body)
            },
        }
    }
}

} // verus!
