//! What the pipeline asks of the URL parser.

use crate::error::PipelineError;
use crate::text::same_text;
use reqwest::Url;
use vstd::prelude::*;

verus! {

/// A parsed absolute URL, as the parser holds it.
#[verifier::external_type_specification]
#[verifier::external_body]
pub struct ExUrl(Url);

/// What `Url::parse` makes of a text: the URL, or the parser's words on
/// why the text is no absolute URL.
pub uninterp spec fn parsed_url(input: Seq<char>) -> Result<Url, Seq<char>>;

/// The text of a parsed URL, as `Url::as_str` gives it.
pub uninterp spec fn text_of(url: Url) -> Seq<char>;

/// The scheme of a parsed URL: lower case, without the `:`.
pub uninterp spec fn scheme_of(url: Url) -> Seq<char>;

/// What `Url::parse_with_params` makes of a base URL and a list of query
/// pairs, of which there is at least one: the text of the URL with the pairs appended to its query in
/// `application/x-www-form-urlencoded` syntax, or the parser's words on why
/// the base is no absolute URL.
pub uninterp spec fn url_with_query(base: Seq<char>, pairs: Seq<(Seq<char>, Seq<char>)>) -> Result<
    Seq<char>,
    Seq<char>,
>;

/// The longest base URL handed to the parser together with query pairs.
pub const MAX_BASE_LEN: usize = 4096;

/// The model of a list of query pairs.
pub open spec fn pairs_view(pairs: Seq<(String, String)>) -> Seq<(Seq<char>, Seq<char>)> {
    Seq::new(pairs.len(), |i: int| (pairs[i].0@, pairs[i].1@))
}

/// The model of a result that is text either way.
pub open spec fn text_result(r: Result<String, String>) -> Result<Seq<char>, Seq<char>> {
    match r {
        Ok(t) => Ok(t@),
        Err(e) => Err(e@),
    }
}

/// Calls `Url::parse` and hands back the URL, or the parser's error as
/// text. The result depends on the text alone.
#[verifier::external_body]
pub(crate) fn parse_url(input: &str) -> (r: Result<Url, String>)
    ensures
        match r {
            Ok(url) => parsed_url(input@) == Ok::<Url, Seq<char>>(url),
            Err(e) => parsed_url(input@) == Err::<Url, Seq<char>>(e@),
        },
{
    Url::parse(input).map_err(|e| e.to_string())
}

/// Calls `Url::as_str`.
#[verifier::external_body]
pub(crate) fn url_text(url: &Url) -> (r: String)
    ensures
        r@ == text_of(*url),
{
    url.as_str().to_string()
}

/// Calls `Url::scheme`.
#[verifier::external_body]
fn url_scheme(url: &Url) -> (r: String)
    ensures
        r@ == scheme_of(*url),
{
    url.scheme().to_string()
}

/// Calls `Url::parse_with_params` and hands back the URL as text, or the
/// parser's error as text. The base is short and has no fragment: the parser
/// counts positions in 32 bits and panics where a fragment would start past
/// that.
#[verifier::external_body]
pub(crate) fn parse_with_params(base: &str, pairs: &Vec<(String, String)>) -> (r: Result<String, String>)
    requires
        base@.len() <= MAX_BASE_LEN,
        !base@.contains('#'),
        pairs@.len() > 0,
    ensures
        text_result(r) == url_with_query(base@, pairs_view(pairs@)),
{
    Url::parse_with_params(base, pairs).map(String::from).map_err(|e| e.to_string())
}

/// Whether a scheme is one that a download can use.
pub open spec fn is_web_scheme(scheme: Seq<char>) -> bool {
    scheme == "http"@ || scheme == "https"@
}

/// Whether a text is a well-formed absolute HTTP or HTTPS URL.
pub open spec fn is_web_url(input: Seq<char>) -> bool {
    match parsed_url(input) {
        Ok(url) => is_web_scheme(scheme_of(url)),
        Err(_) => false,
    }
}

/// Tells whether a scheme, as the parser reports it, is HTTP or HTTPS.
pub fn scheme_is_web(scheme: &str) -> (r: bool)
    ensures
        r == is_web_scheme(scheme@),
{
    same_text(scheme, "http") || same_text(scheme, "https")
}

/// Accepts a download URL, or says that it is malformed.
pub fn check_url(input: &str) -> (r: Result<(), PipelineError>)
    ensures
        is_web_url(input@) ==> r is Ok,
        !is_web_url(input@) ==> r == Err::<(), PipelineError>(PipelineError::UrlError),
{
    match parse_url(input) {
        Ok(url) => {
            let scheme = url_scheme(&url);
            if scheme_is_web(scheme.as_str()) {
                Ok(())
            } else {
                Err(PipelineError::UrlError)
            }
        },
        Err(_) => Err(PipelineError::UrlError),
    }
}

} // verus!
