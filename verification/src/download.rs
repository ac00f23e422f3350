//! Where a download goes, and how its response is judged.

use crate::error::PipelineError;
use crate::paths::{file_name, file_name_of, join, join_path};
use crate::text::{before_first, chars_of, cut, find_first, first_at};
use crate::url::pairs_view;
use vstd::prelude::*;

verus! {

/// The name given to an archive whose URL names no file.
pub open spec fn default_archive_name() -> Seq<char> {
    "pack.zip"@
}

/// The directory, inside the working directory, that holds archives.
pub open spec fn downloads_dir(work_dir: Seq<char>) -> Seq<char> {
    join(work_dir, "downloads"@)
}

/// The path of a URL: what is left of it without the fragment, the query
/// string, and the scheme and host that stand before the path. A text
/// without `://` after its first `:` is taken as a path.
pub open spec fn url_path(url: Seq<char>) -> Seq<char> {
    let head = before_first(before_first(url, '#'), '?');
    let k = first_at(head, ':');
    if head.len() - k > 2 && head[k + 1] == '/' && head[k + 2] == '/' {
        let rest = head.skip(k + 3);
        rest.skip(first_at(rest, '/'))
    } else {
        head
    }
}

/// The file name of the archive behind a URL: the last segment of its
/// path, or the default name where that is empty or the URL has no path.
pub open spec fn archive_name(url: Seq<char>) -> Seq<char> {
    let name = file_name(url_path(url));
    if name.len() == 0 {
        default_archive_name()
    } else {
        name
    }
}

/// Cuts a text before its first `c`.
fn cut_before(s: &str, c: char) -> (r: String)
    ensures
        r@ == before_first(s@, c),
{
    let v = chars_of(s);
    let k = find_first(&v, c);
    cut(s, 0, k)
}

/// The path of a URL.
pub fn path_of_url(url: &str) -> (r: String)
    ensures
        r@ == url_path(url@),
{
    let head = cut_before(cut_before(url, '#').as_str(), '?');
    let v = chars_of(head.as_str());
    let k = find_first(&v, ':');
    if v.len() - k > 2 && v[k + 1] == '/' && v[k + 2] == '/' {
        let rest = cut(head.as_str(), k + 3, v.len());
        let w = chars_of(rest.as_str());
        let s = find_first(&w, '/');
        cut(rest.as_str(), s, w.len())
    } else {
        head
    }
}

/// Derives the file name of an archive from its URL.
pub fn file_name_from_url(url: &str) -> (r: String)
    ensures
        r@ == archive_name(url@),
{
    let path = path_of_url(url);
    let name = file_name_of(path.as_str());
    if name.as_str().is_empty() {
        "pack.zip".to_owned()
    } else {
        name
    }
}

/// A remote archive and the directory that receives it.
#[derive(Debug, Clone, PartialEq, Eq)]
pub struct DownloadTarget {
    pub url: String,
    pub destination_dir: String,
}

impl DownloadTarget {
    /// The path at which the archive is stored.
    pub open spec fn path(self) -> Seq<char> {
        join(self.destination_dir@, archive_name(self.url@))
    }

    /// The target for a URL, below the given working directory.
    pub fn new(url: String, work_dir: &str) -> (r: Self)
        ensures
            r.url@ == url@,
            r.destination_dir@ == downloads_dir(work_dir@),
    {
        DownloadTarget { url, destination_dir: join_path(work_dir, "downloads") }
    }

    /// The file name of the archive.
    pub fn file_name(&self) -> (r: String)
        ensures
            r@ == archive_name(self.url@),
    {
        file_name_from_url(self.url.as_str())
    }

    /// The path at which the archive is stored.
    pub fn local_path(&self) -> (r: String)
        ensures
            r@ == self.path(),
    {
        let name = self.file_name();
        join_path(self.destination_dir.as_str(), name.as_str())
    }
}

/// The headers of the request for an archive: any content is accepted,
/// and the origin is the site of the catalog, which the server asks for.
pub open spec fn download_headers() -> Seq<(Seq<char>, Seq<char>)> {
    seq![("Accept"@, "*/*"@), ("Origin"@, "https://etternaonline.com"@)]
}

/// The headers to send with the request for an archive.
pub fn request_headers() -> (r: Vec<(String, String)>)
    ensures
        pairs_view(r@) == download_headers(),
{
    let mut out: Vec<(String, String)> = Vec::new();
    out.push(("Accept".to_owned(), "*/*".to_owned()));
    out.push(("Origin".to_owned(), "https://etternaonline.com".to_owned()));
    assert(pairs_view(out@) =~= download_headers());
    out
}

/// Whether an HTTP status reports success.
pub open spec fn is_success(status: u16) -> bool {
    200 <= status < 300
}

/// Judges the status of a response: a success lets the run go on, anything
/// else fails it with the status.
pub fn check_status(status: u16) -> (r: Result<(), PipelineError>)
    ensures
        is_success(status) ==> r is Ok,
        !is_success(status) ==> r == Err::<(), PipelineError>(
            PipelineError::HttpStatusError(status),
        ),
{
    if 200 <= status && status < 300 {
        Ok(())
    } else {
        Err(PipelineError::HttpStatusError(status))
    }
}

} // verus!
