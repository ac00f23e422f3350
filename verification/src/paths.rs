//! Paths as text, with `/` between components.
//!
//! The pipeline derives every path it touches from another one: a working
//! directory from an archive, an artifact from its source, a mirror target
//! from a song directory. The rules for that are stated here over plain
//! character sequences.

use crate::text::{
    after_last, chars_of, cut, find_past_last, is_past_last, lemma_past_last,
    lemma_past_last_exists, past_last, same_text,
};
use vstd::prelude::*;

verus! {

/// The last component of a path: what follows its last `/`.
pub open spec fn file_name(p: Seq<char>) -> Seq<char> {
    after_last(p, '/')
}

/// The directory that holds a path: what stands before its last `/`, the
/// root `/` for an entry of the root, and nothing for a bare name.
pub open spec fn parent(p: Seq<char>) -> Seq<char> {
    let k = past_last(p, '/');
    if k <= 1 {
        p.take(k)
    } else {
        p.take(k - 1)
    }
}

/// A file name without its extension: what stands before its last `.`. A
/// name without a `.`, or with none but a leading one, is its own stem.
pub open spec fn stem(name: Seq<char>) -> Seq<char> {
    let k = past_last(name, '.');
    if k <= 1 {
        name
    } else {
        name.take(k - 1)
    }
}

/// The extension of a file name: what follows its last `.`. A name without
/// a `.`, or with none but a leading one, has no extension.
pub open spec fn extension(name: Seq<char>) -> Option<Seq<char>> {
    let k = past_last(name, '.');
    if k <= 1 {
        None
    } else {
        Some(name.skip(k))
    }
}

/// The path of `name` inside `dir`. An empty `dir` stands for the current
/// directory.
pub open spec fn join(dir: Seq<char>, name: Seq<char>) -> Seq<char> {
    if dir.len() == 0 {
        name
    } else if dir.last() == '/' {
        dir + name
    } else {
        dir + seq!['/'] + name
    }
}

/// Whether the path names a file with exactly the extension `ext`.
pub open spec fn has_extension(p: Seq<char>, ext: Seq<char>) -> bool {
    extension(file_name(p)) == Some(ext)
}

/// The file name of a path holds no `/`.
pub proof fn lemma_file_name_is_plain(p: Seq<char>)
    ensures
        !file_name(p).contains('/'),
{
    let k = past_last(p, '/');
    lemma_past_last_exists(p, '/');
    if file_name(p).contains('/') {
        let i = choose|i: int| 0 <= i < file_name(p).len() && file_name(p)[i] == '/';
        assert(p[k + i] == '/');
    }
}

/// A name without `/` is the file name of its path inside any directory.
pub proof fn lemma_file_name_of_join(dir: Seq<char>, name: Seq<char>)
    requires
        !name.contains('/'),
    ensures
        file_name(join(dir, name)) == name,
{
    let path = join(dir, name);
    let k = path.len() - name.len();
    assert forall|j: int| k <= j < path.len() implies path[j] != '/' by {
        assert(path[j] == name[j - k]);
        assert(name.contains(name[j - k]));
    }
    if dir.len() > 0 {
        assert(path[k - 1] == '/');
    }
    assert(is_past_last(path, '/', k));
    lemma_past_last(path, '/', k);
    assert(path.skip(k) =~= name);
}

/// The last component of a path.
pub fn file_name_of(path: &str) -> (r: String)
    ensures
        r@ == file_name(path@),
{
    let v = chars_of(path);
    let k = find_past_last(&v, '/');
    cut(path, k, v.len())
}

/// The directory that holds a path.
pub fn parent_of(path: &str) -> (r: String)
    ensures
        r@ == parent(path@),
{
    let v = chars_of(path);
    let k = find_past_last(&v, '/');
    if k <= 1 {
        cut(path, 0, k)
    } else {
        cut(path, 0, k - 1)
    }
}

/// A file name without its extension.
pub fn stem_of(name: &str) -> (r: String)
    ensures
        r@ == stem(name@),
{
    let v = chars_of(name);
    let k = find_past_last(&v, '.');
    if k <= 1 {
        assert(name@.subrange(0, v.len() as int) =~= name@);
        cut(name, 0, v.len())
    } else {
        cut(name, 0, k - 1)
    }
}

/// The extension of a file name, if it has one.
pub fn extension_of(name: &str) -> (r: Option<String>)
    ensures
        match r {
            Some(e) => extension(name@) == Some(e@),
            None => extension(name@) is None,
        },
{
    let v = chars_of(name);
    let k = find_past_last(&v, '.');
    if k <= 1 {
        None
    } else {
        Some(cut(name, k, v.len()))
    }
}

/// The path of `name` inside `dir`.
pub fn join_path(dir: &str, name: &str) -> (r: String)
    ensures
        r@ == join(dir@, name@),
{
    let v = chars_of(dir);
    if v.len() == 0 {
        name.to_owned()
    } else if v[v.len() - 1] == '/' {
        dir.to_owned().concat(name)
    } else {
        proof {
            reveal_strlit("/");
        }
        let r = dir.to_owned().concat("/").concat(name);
        assert("/"@ =~= seq!['/']);
        r
    }
}

/// Whether the path names a file with exactly the extension `ext`.
pub fn path_has_extension(path: &str, ext: &str) -> (r: bool)
    ensures
        r == has_extension(path@, ext@),
{
    let name = file_name_of(path);
    match extension_of(name.as_str()) {
        Some(e) => same_text(e.as_str(), ext),
        None => false,
    }
}

} // verus!
