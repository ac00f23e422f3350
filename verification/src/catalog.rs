//! The request for a page of the pack catalog.

use crate::sort::SortField;
use crate::text::{chars_of, cut, decimal, decimal_of, trim_text, trimmed};
use crate::url::{
    pairs_view, parse_url, parse_with_params, parsed_url, text_of, text_result, url_text,
    url_with_query,
};
use vstd::prelude::*;

verus! {

/// The address of the catalog.
pub open spec fn catalog_base() -> Seq<char> {
    "https://api.etternaonline.com/api/packs"@
}

/// What is left of a sort parameter once white space at its ends and a
/// leading `-` are taken away: the name of the field.
pub open spec fn sort_field_text(sort: Seq<char>) -> Seq<char> {
    let t = trimmed(sort);
    if t.len() > 0 && t[0] == '-' {
        t.skip(1)
    } else {
        t
    }
}

/// The message for a sort parameter that names no field.
pub open spec fn invalid_sort_text(field: Seq<char>) -> Seq<char> {
    "Invalid sort field: "@ + field
        + ". Valid options: name, popularity, overall, stream, jumpstream, handstream, jacks, chordjacks, stamina, technical"@
}

/// The message for a catalog address that the parser refuses.
pub open spec fn url_error_text(cause: Seq<char>) -> Seq<char> {
    "URL parse error: "@ + cause
}

/// The query pairs of a request, in order: page, limit, sort, search. A
/// parameter that is not given adds none, nor does a search that is empty
/// but for white space. The sort is handed on as given, the search trimmed.
pub open spec fn query_pairs(
    page: Option<u64>,
    limit: Option<u64>,
    sort: Option<Seq<char>>,
    search: Option<Seq<char>>,
) -> Seq<(Seq<char>, Seq<char>)> {
    let p = match page {
        Some(n) => seq![("page"@, decimal(n as nat))],
        None => seq![],
    };
    let l = match limit {
        Some(n) => seq![("limit"@, decimal(n as nat))],
        None => seq![],
    };
    let s = match sort {
        Some(t) => seq![("sort"@, t)],
        None => seq![],
    };
    let q = match search {
        Some(t) => if trimmed(t).len() > 0 {
            seq![("filter[search]"@, trimmed(t))]
        } else {
            seq![]
        },
        None => seq![],
    };
    p + l + s + q
}

/// The query of a request: its pairs, or the message that refuses a sort
/// parameter that names no field.
pub open spec fn catalog_query(
    page: Option<u64>,
    limit: Option<u64>,
    sort: Option<Seq<char>>,
    search: Option<Seq<char>>,
) -> Result<Seq<(Seq<char>, Seq<char>)>, Seq<char>> {
    match sort {
        Some(t) if SortField::parse(sort_field_text(t)) is None => Err(
            invalid_sort_text(sort_field_text(t)),
        ),
        _ => Ok(query_pairs(page, limit, sort, search)),
    }
}

/// The address of a request, or the message that refuses it. The address
/// of the catalog is parsed first; then the sort parameter is judged. A
/// request without pairs goes to the address as it is, without a query.
pub open spec fn catalog_url(
    page: Option<u64>,
    limit: Option<u64>,
    sort: Option<Seq<char>>,
    search: Option<Seq<char>>,
) -> Result<Seq<char>, Seq<char>> {
    match parsed_url(catalog_base()) {
        Err(cause) => Err(url_error_text(cause)),
        Ok(base) => match catalog_query(page, limit, sort, search) {
            Err(message) => Err(message),
            Ok(pairs) => if pairs.len() == 0 {
                Ok(text_of(base))
            } else {
                match url_with_query(catalog_base(), pairs) {
                    Ok(url) => Ok(url),
                    Err(cause) => Err(url_error_text(cause)),
                }
            },
        },
    }
}

/// The headers of a catalog request: JSON is preferred, and the origin is
/// the site of the catalog.
pub open spec fn catalog_headers() -> Seq<(Seq<char>, Seq<char>)> {
    seq![
        ("Accept"@, "application/json, text/plain, */*"@),
        ("Origin"@, "https://etternaonline.com"@),
    ]
}

/// The headers to send with a catalog request.
pub fn request_headers() -> (r: Vec<(String, String)>)
    ensures
        pairs_view(r@) == catalog_headers(),
{
    let mut out: Vec<(String, String)> = Vec::new();
    out.push(("Accept".to_owned(), "application/json, text/plain, */*".to_owned()));
    out.push(("Origin".to_owned(), "https://etternaonline.com".to_owned()));
    assert(pairs_view(out@) =~= catalog_headers());
    out
}

/// The view of an optional text.
pub open spec fn opt_text(t: Option<String>) -> Option<Seq<char>> {
    match t {
        Some(s) => Some(s@),
        None => None,
    }
}

/// The model of a query or its refusal.
pub open spec fn query_result(r: Result<Vec<(String, String)>, String>) -> Result<
    Seq<(Seq<char>, Seq<char>)>,
    Seq<char>,
> {
    match r {
        Ok(pairs) => Ok(pairs_view(pairs@)),
        Err(e) => Err(e@),
    }
}

/// Reads the field out of a sort parameter.
pub fn sort_field_of(sort: &str) -> (r: String)
    ensures
        r@ == sort_field_text(sort@),
{
    let t = trim_text(sort);
    let v = chars_of(t.as_str());
    if v.len() > 0 && v[0] == '-' {
        cut(t.as_str(), 1, v.len())
    } else {
        t
    }
}

/// Accepts a sort parameter that names a field, ascending or descending,
/// and refuses any other with a message that lists the fields.
pub fn check_sort(sort: &str) -> (r: Result<SortField, String>)
    ensures
        match r {
            Ok(f) => SortField::parse(sort_field_text(sort@)) == Some(f),
            Err(e) => SortField::parse(sort_field_text(sort@)) is None && e@ == invalid_sort_text(
                sort_field_text(sort@),
            ),
        },
{
    let field = sort_field_of(sort);
    match SortField::from_str(field.as_str()) {
        Some(f) => Ok(f),
        None => Err(
            "Invalid sort field: ".to_owned().concat(field.as_str()).concat(
                ". Valid options: name, popularity, overall, stream, jumpstream, handstream, jacks, chordjacks, stamina, technical",
            ),
        ),
    }
}

/// Builds the query of a catalog request.
pub fn packs_query(
    page: Option<u64>,
    limit: Option<u64>,
    sort: Option<String>,
    search: Option<String>,
) -> (r: Result<Vec<(String, String)>, String>)
    ensures
        query_result(r) == catalog_query(page, limit, opt_text(sort), opt_text(search)),
{
    let mut pairs: Vec<(String, String)> = Vec::new();
    if let Some(n) = page {
        pairs.push(("page".to_owned(), decimal_of(n)));
    }
    if let Some(n) = limit {
        pairs.push(("limit".to_owned(), decimal_of(n)));
    }
    if let Some(s) = sort {
        match check_sort(s.as_str()) {
            Ok(_) => {},
            Err(message) => {
                return Err(message);
            },
        }
        pairs.push(("sort".to_owned(), s));
    }
    if let Some(term) = search {
        let t = trim_text(term.as_str());
        if !t.as_str().is_empty() {
            pairs.push(("filter[search]".to_owned(), t));
        }
    }
    assert(pairs_view(pairs@) =~= query_pairs(page, limit, opt_text(sort), opt_text(search)));
    Ok(pairs)
}

/// Builds the address of a catalog request.
pub fn packs_url(
    page: Option<u64>,
    limit: Option<u64>,
    sort: Option<String>,
    search: Option<String>,
) -> (r: Result<String, String>)
    ensures
        text_result(r) == catalog_url(page, limit, opt_text(sort), opt_text(search)),
{
    let base = match parse_url("https://api.etternaonline.com/api/packs") {
        Ok(url) => url,
        Err(cause) => {
            return Err("URL parse error: ".to_owned().concat(cause.as_str()));
        },
    };
    match packs_query(page, limit, sort, search) {
        Err(message) => Err(message),
        Ok(pairs) => {
            if pairs.len() == 0 {
                return Ok(url_text(&base));
            }
            proof {
                reveal_strlit("https://api.etternaonline.com/api/packs");
            }
            match parse_with_params("https://api.etternaonline.com/api/packs", &pairs) {
                Ok(url) => Ok(url),
                Err(cause) => Err("URL parse error: ".to_owned().concat(cause.as_str())),
            }
        },
    }
}

} // verus!
