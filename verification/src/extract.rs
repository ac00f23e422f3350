//! Where an archive is unpacked.

use crate::paths::{file_name, file_name_of, join, join_path, parent, parent_of, stem, stem_of};
use vstd::prelude::*;

verus! {

/// The working directory of an archive: a sibling of the archive, named
/// like it without the extension. A path that names no file has none.
pub open spec fn working_dir(archive: Seq<char>) -> Option<Seq<char>> {
    let name = file_name(archive);
    if name.len() == 0 {
        None
    } else {
        Some(join(parent(archive), stem(name)))
    }
}

/// Derives the directory into which an archive is unpacked.
pub fn working_dir_for(archive: &str) -> (r: Option<String>)
    ensures
        match r {
            Some(dir) => working_dir(archive@) == Some(dir@),
            None => working_dir(archive@) is None,
        },
{
    let name = file_name_of(archive);
    if name.as_str().is_empty() {
        None
    } else {
        let dir = parent_of(archive);
        let base = stem_of(name.as_str());
        Some(join_path(dir.as_str(), base.as_str()))
    }
}

} // verus!
