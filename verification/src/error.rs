use vstd::prelude::*;

use crate::hexadecimal::HexError;

verus! {

/// Everything that can go wrong while a stream is planned, checked or decoded.
#[derive(Debug, PartialEq, Eq)]
pub enum VideoError {
    /// A reply that does not deliver what was asked for.
    DownloadError(String),
    /// A playlist that cannot be read, or whose byte ranges make no sense.
    M3U8ParseError(String),
    /// A key tag that cannot be honoured, or key material of the wrong size.
    EncryptionError(String),
    /// Ciphertext that does not decrypt.
    DecryptionError(String),
    /// An address that is no URL.
    UrlParseError(String),
    /// An initialization vector that is not written in hexadecimal.
    HexError(HexError),
    /// A reply whose status is a client or server error.
    HttpStatus(u16),
    /// A remote resource that was not served at all.
    BodyCannotParsed,
}

/// What a [`VideoError`] says, with its texts as character sequences.
pub enum VideoErrorView {
    DownloadError(Seq<char>),
    M3U8ParseError(Seq<char>),
    EncryptionError(Seq<char>),
    DecryptionError(Seq<char>),
    UrlParseError(Seq<char>),
    HexError(HexError),
    HttpStatus(u16),
    BodyCannotParsed,
}

impl View for VideoError {
    type V = VideoErrorView;

    open spec fn view(&self) -> VideoErrorView {
        match *self {
            VideoError::DownloadError(text) => VideoErrorView::DownloadError(text@),
            VideoError::M3U8ParseError(text) => VideoErrorView::M3U8ParseError(text@),
            VideoError::EncryptionError(text) => VideoErrorView::EncryptionError(text@),
            VideoError::DecryptionError(text) => VideoErrorView::DecryptionError(text@),
            VideoError::UrlParseError(text) => VideoErrorView::UrlParseError(text@),
            VideoError::HexError(error) => VideoErrorView::HexError(error),
            VideoError::HttpStatus(status) => VideoErrorView::HttpStatus(status),
            VideoError::BodyCannotParsed => VideoErrorView::BodyCannotParsed,
        }
    }
}

/// A result whose value is plain, with its error taken by view.
pub open spec fn plain_result<T>(result: Result<T, VideoError>) -> Result<T, VideoErrorView> {
    match result {
        Ok(value) => Ok(value),
        Err(error) => Err(error@),
    }
}

/// A result whose value and error are both taken by view.
pub open spec fn view_result<T: View>(result: Result<T, VideoError>) -> Result<
    T::V,
    VideoErrorView,
> {
    match result {
        Ok(value) => Ok(value@),
        Err(error) => Err(error@),
    }
}

} // verus!
