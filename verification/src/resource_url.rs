use vstd::prelude::*;

use crate::error;
use crate::error::{VideoError, VideoErrorView};

verus! {

/// The address of a resource, as the normal form of a URL. Two addresses are the
/// same when their normal forms are.
#[derive(Debug, PartialEq, Eq, Hash)]
pub struct ResourceUrl {
    serialization: String,
}

impl View for ResourceUrl {
    type V = Seq<char>;

    closed spec fn view(&self) -> Seq<char> {
        self.serialization@
    }
}

impl Clone for ResourceUrl {
    fn clone(&self) -> (copy: ResourceUrl)
        ensures
            copy@ == self@,
    {
        ResourceUrl { serialization: self.serialization.clone() }
    }
}

impl ResourceUrl {
    /// The address, written out.
    pub fn as_str(&self) -> (text: &str)
        ensures
            text@ == self@,
    {
        self.serialization.as_str()
    }

    /// Whether both are the same address.
    pub fn same_as(&self, other: &ResourceUrl) -> (same: bool)
        ensures
            same == (self@ == other@),
    {
        self.serialization == other.serialization
    }

    /// Reads an absolute URL.
    pub fn parse(input: &str) -> (url: Result<ResourceUrl, VideoError>)
        ensures
            error::view_result(url) == absolute(url_parse(input@)),
    {
        url_from(parse_url(input))
    }
}

/// What a text is when it is read as a URL of its own.
pub enum ParsedUrl {
    /// An absolute URL, in its normal form.
    Absolute(String),
    /// A reference that needs a base; with what is said where there is none.
    Relative(String),
    /// Neither, and why.
    Invalid(String),
}

/// What a [`ParsedUrl`] says, with its texts as character sequences.
pub enum ParsedUrlView {
    Absolute(Seq<char>),
    Relative(Seq<char>),
    Invalid(Seq<char>),
}

impl View for ParsedUrl {
    type V = ParsedUrlView;

    open spec fn view(&self) -> ParsedUrlView {
        match *self {
            ParsedUrl::Absolute(url) => ParsedUrlView::Absolute(url@),
            ParsedUrl::Relative(text) => ParsedUrlView::Relative(text@),
            ParsedUrl::Invalid(text) => ParsedUrlView::Invalid(text@),
        }
    }
}

/// What `url::Url::parse` makes of a text.
pub uninterp spec fn url_parse(input: Seq<char>) -> ParsedUrlView;

/// What `url::Url::join` makes of a reference, on the base that a text is read as.
pub uninterp spec fn url_join(base: Seq<char>, input: Seq<char>) -> ParsedUrlView;

/// `url::Url::parse`: the URL in its normal form, or what the `Display` of the
/// error says. `ParseError::RelativeUrlWithoutBase` is told apart from the other
/// errors. The result depends on the text alone.
#[verifier::external_body]
fn parse_url(input: &str) -> (parsed: ParsedUrl)
    ensures
        parsed@ == url_parse(input@),
{
    match url::Url::parse(input) {
        Ok(url) => ParsedUrl::Absolute(String::from(url)),
        Err(error @ url::ParseError::RelativeUrlWithoutBase) => ParsedUrl::Relative(
            error.to_string(),
        ),
        Err(error) => ParsedUrl::Invalid(error.to_string()),
    }
}

/// `url::Url::join` on the base that `base` is read as: the URL that `input`
/// refers to in its normal form, or what the `Display` of the error says. The
/// result depends on the two texts alone.
#[verifier::external_body]
fn join_url(base: &str, input: &str) -> (joined: ParsedUrl)
    ensures
        joined@ == url_join(base@, input@),
        !(joined is Relative),
{
    match url::Url::parse(base) {
        Ok(base) => match base.join(input) {
            Ok(url) => ParsedUrl::Absolute(String::from(url)),
            Err(error) => ParsedUrl::Invalid(error.to_string()),
        },
        Err(error) => ParsedUrl::Invalid(error.to_string()),
    }
}

/// The absolute URL among the ways a text can be read; the others are errors.
pub open spec fn absolute(parsed: ParsedUrlView) -> Result<Seq<char>, VideoErrorView> {
    match parsed {
        ParsedUrlView::Absolute(url) => Ok(url),
        ParsedUrlView::Relative(text) => Err(VideoErrorView::UrlParseError(text)),
        ParsedUrlView::Invalid(text) => Err(VideoErrorView::UrlParseError(text)),
    }
}

/// Takes the absolute URL out of what a text was read as.
pub fn url_from(parsed: ParsedUrl) -> (url: Result<ResourceUrl, VideoError>)
    ensures
        error::view_result(url) == absolute(parsed@),
{
    match parsed {
        ParsedUrl::Absolute(url) => Ok(ResourceUrl { serialization: url }),
        ParsedUrl::Relative(text) => Err(VideoError::UrlParseError(text)),
        ParsedUrl::Invalid(text) => Err(VideoError::UrlParseError(text)),
    }
}

/// The address that `url` stands for in a document at `base`: itself where it is
/// absolute, and joined to the base only where it is relative.
pub open spec fn absolute_url(base: Seq<char>, url: Seq<char>) -> Result<
    Seq<char>,
    VideoErrorView,
> {
    match url_parse(url) {
        ParsedUrlView::Relative(text) => absolute(url_join(base, url)),
        parsed => absolute(parsed),
    }
}

/// Finds the address that `url` stands for in a document at `base`.
pub fn make_absolute_url(base: &str, url: &str) -> (address: Result<ResourceUrl, VideoError>)
    ensures
        error::view_result(address) == absolute_url(base@, url@),
{
    match parse_url(url) {
        ParsedUrl::Relative(_) => url_from(join_url(base, url)),
        parsed => url_from(parsed),
    }
}

} // verus!
