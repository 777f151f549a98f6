use vstd::prelude::*;

use crate::error::{VideoError, VideoErrorView};
use crate::playlist::ByteRange;
use crate::resource_url::ResourceUrl;

verus! {

/// The resource and the last byte of the sub-range before, by view.
pub open spec fn previous_view(previous: Option<(ResourceUrl, u64)>) -> Option<(Seq<char>, u64)> {
    match previous {
        Some((uri, end)) => Some((uri@, end)),
        None => None,
    }
}

/// Where a byte range of `uri` starts: at its offset, or right behind the
/// sub-range before, which has to be one of the same resource.
pub open spec fn range_start(
    uri: Seq<char>,
    byte_range: ByteRange,
    previous: Option<(Seq<char>, u64)>,
) -> Result<u64, VideoErrorView> {
    match byte_range.offset {
        Some(offset) => Ok(offset),
        None => match previous {
            None => Err(
                VideoErrorView::M3U8ParseError("implicit HLS byte range has no previous sub-range"@),
            ),
            Some((previous_uri, previous_end)) => if previous_uri != uri {
                Err(
                    VideoErrorView::M3U8ParseError(
                        "implicit HLS byte range changed media resource"@,
                    ),
                )
            } else if previous_end == u64::MAX {
                Err(VideoErrorView::M3U8ParseError("implicit HLS byte range offset overflow"@))
            } else {
                Ok((previous_end + 1) as u64)
            },
        },
    }
}

/// A byte range of `uri` with its offset made explicit, and the sub-range that
/// the next one may continue; or why the byte range makes no sense. No byte range
/// can continue a segment without one.
pub open spec fn normalized(
    uri: Seq<char>,
    byte_range: Option<ByteRange>,
    previous: Option<(Seq<char>, u64)>,
) -> Result<(Option<ByteRange>, Option<(Seq<char>, u64)>), VideoErrorView> {
    match byte_range {
        None => Ok((None, None)),
        Some(range) => if range.length == 0 {
            Err(VideoErrorView::M3U8ParseError("HLS byte range length must be greater than zero"@))
        } else {
            match range_start(uri, range, previous) {
                Err(error) => Err(error),
                Ok(start) => if start + (range.length - 1) > u64::MAX {
                    Err(VideoErrorView::M3U8ParseError("HLS byte range end overflow"@))
                } else {
                    Ok(
                        (
                            Some(ByteRange { length: range.length, offset: Some(start) }),
                            Some((uri, (start + (range.length - 1)) as u64)),
                        ),
                    )
                },
            }
        },
    }
}

/// Makes the offset of a byte range of `uri` explicit, and notes in `previous`
/// where the next one may continue. A refused byte range leaves `previous` alone.
pub fn normalize_media_byte_range(
    uri: &ResourceUrl,
    byte_range: Option<&ByteRange>,
    previous: &mut Option<(ResourceUrl, u64)>,
) -> (range: Result<Option<ByteRange>, VideoError>)
    ensures
        ({
            let byte_range = match byte_range {
                Some(range) => Some(*range),
                None => None,
            };
            match normalized(uri@, byte_range, previous_view(*old(previous))) {
                Ok((normal, next)) => {
                    &&& range == Ok::<Option<ByteRange>, VideoError>(normal)
                    &&& previous_view(*final(previous)) == next
                },
                Err(error) => {
                    &&& range is Err
                    &&& range->Err_0@ == error
                    &&& *final(previous) == *old(previous)
                },
            }
        }),
{
    let range: &ByteRange = match byte_range {
        Some(range) => range,
        None => {
            *previous = None;
            return Ok(None);
        },
    };
    if range.length == 0 {
        return Err(
            VideoError::M3U8ParseError(
                "HLS byte range length must be greater than zero".to_owned(),
            ),
        );
    }
    let start: u64 = match range.offset {
        Some(offset) => offset,
        None => match previous.as_ref() {
            None => {
                return Err(
                    VideoError::M3U8ParseError(
                        "implicit HLS byte range has no previous sub-range".to_owned(),
                    ),
                );
            },
            Some(sub_range) => {
                if !sub_range.0.same_as(uri) {
                    return Err(
                        VideoError::M3U8ParseError(
                            "implicit HLS byte range changed media resource".to_owned(),
                        ),
                    );
                }
                match sub_range.1.checked_add(1) {
                    Some(start) => start,
                    None => {
                        return Err(
                            VideoError::M3U8ParseError(
                                "implicit HLS byte range offset overflow".to_owned(),
                            ),
                        );
                    },
                }
            },
        },
    };
    let end: u64 = match start.checked_add(range.length - 1) {
        Some(end) => end,
        None => {
            return Err(VideoError::M3U8ParseError("HLS byte range end overflow".to_owned()));
        },
    };
    *previous = Some((uri.clone(), end));
    Ok(Some(ByteRange { length: range.length, offset: Some(start) }))
}

} // verus!
