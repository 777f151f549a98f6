use vstd::prelude::*;

use crate::error::VideoErrorView;
use crate::resource_url;
use crate::resource_url::ParsedUrlView;

verus! {

/// An absolute URL stands for itself, whatever document it is in.
pub proof fn law_absolute_url_stands_for_itself(
    base: Seq<char>,
    url: Seq<char>,
    address: Seq<char>,
)
    requires
        resource_url::url_parse(url) == ParsedUrlView::Absolute(address),
    ensures
        resource_url::absolute_url(base, url) == Ok::<Seq<char>, VideoErrorView>(address),
{
}

/// A relative reference stands for what it is when joined to the address of its
/// document.
pub proof fn law_relative_reference_is_joined(base: Seq<char>, url: Seq<char>)
    requires
        resource_url::url_parse(url) is Relative,
    ensures
        match resource_url::url_join(base, url) {
            ParsedUrlView::Absolute(address) => resource_url::absolute_url(base, url) == Ok::<
                Seq<char>,
                VideoErrorView,
            >(address),
            ParsedUrlView::Relative(text) => resource_url::absolute_url(base, url) == Err::<
                Seq<char>,
                VideoErrorView,
            >(VideoErrorView::UrlParseError(text)),
            ParsedUrlView::Invalid(text) => resource_url::absolute_url(base, url) == Err::<
                Seq<char>,
                VideoErrorView,
            >(VideoErrorView::UrlParseError(text)),
        },
{
}

/// What is neither is refused in the words of the parser.
pub proof fn law_invalid_url_is_refused(base: Seq<char>, url: Seq<char>, text: Seq<char>)
    requires
        resource_url::url_parse(url) == ParsedUrlView::Invalid(text),
    ensures
        resource_url::absolute_url(base, url) == Err::<Seq<char>, VideoErrorView>(
            VideoErrorView::UrlParseError(text),
        ),
{
}

/// Read on its own, a text is an address only where it is an absolute URL.
pub proof fn law_only_absolute_urls_are_addresses(parsed: ParsedUrlView, address: Seq<char>)
    ensures
        resource_url::absolute(parsed) == Ok::<Seq<char>, VideoErrorView>(address) <==> parsed
            == ParsedUrlView::Absolute(address),
        parsed matches ParsedUrlView::Relative(text) ==> resource_url::absolute(parsed) == Err::<
            Seq<char>,
            VideoErrorView,
        >(VideoErrorView::UrlParseError(text)),
        parsed matches ParsedUrlView::Invalid(text) ==> resource_url::absolute(parsed) == Err::<
            Seq<char>,
            VideoErrorView,
        >(VideoErrorView::UrlParseError(text)),
{
}

} // verus!
