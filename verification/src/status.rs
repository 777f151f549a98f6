use vstd::prelude::*;
use vstd::string::StringExecFns;

use crate::error;
use crate::error::{VideoError, VideoErrorView};

verus! {

/// How a media request was answered.
#[derive(Debug, Clone, Copy, PartialEq, Eq, Structural)]
pub enum Delivery {
    /// The whole representation, whatever range was asked for.
    Full,
    /// A part of the representation.
    Partial,
}

/// What an HTTP status code is called: its number and its reason phrase.
pub uninterp spec fn status_name(status: u16) -> Seq<char>;

/// `reqwest::StatusCode` written out by its `Display`; for a number that is no
/// status code, the `Display` of the error. Either depends on the number alone.
#[verifier::external_body]
fn status_text(status: u16) -> (text: String)
    ensures
        text@ == status_name(status),
{
    match reqwest::StatusCode::from_u16(status) {
        Ok(code) => code.to_string(),
        Err(error) => error.to_string(),
    }
}

/// What a status code means for a media request: `OK` delivers everything,
/// `Partial Content` a part, client and server errors are reported as such, and
/// nothing else is expected.
pub open spec fn delivery(status: u16, request: Seq<char>) -> Result<Delivery, VideoErrorView> {
    if status == 200 {
        Ok(Delivery::Full)
    } else if status == 206 {
        Ok(Delivery::Partial)
    } else if 400 <= status < 600 {
        Err(VideoErrorView::HttpStatus(status))
    } else {
        Err(
            VideoErrorView::DownloadError(
                "unexpected HTTP status "@ + status_name(status) + " for "@ + request,
            ),
        )
    }
}

/// The refusal of a reply whose status, called `name`, `request` does not expect.
pub fn unexpected_status(name: &str, request: &str) -> (error: VideoError)
    ensures
        error@ == VideoErrorView::DownloadError(
            "unexpected HTTP status "@ + name@ + " for "@ + request@,
        ),
{
    VideoError::DownloadError(
        "unexpected HTTP status ".to_owned().concat(name).concat(" for ").concat(request),
    )
}

/// Sorts the status of a reply to `request` into what it delivers.
pub fn classify_status(status: u16, request: &str) -> (delivered: Result<Delivery, VideoError>)
    ensures
        error::plain_result(delivered) == delivery(status, request@),
{
    if status == 200 {
        Ok(Delivery::Full)
    } else if status == 206 {
        Ok(Delivery::Partial)
    } else if 400 <= status && status < 600 {
        Err(VideoError::HttpStatus(status))
    } else {
        Err(unexpected_status(status_text(status).as_str(), request))
    }
}

} // verus!
