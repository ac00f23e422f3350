//! Converting the chart sources of a pack, one file at a time.
//!
//! A file that cannot be read or that the codec refuses fails alone: the
//! files after it are converted all the same.

use crate::error::{ErrorModel, PipelineError};
use crate::maps::{from_sm_to_osu, sm_to_osu};
use crate::paths::{file_name, file_name_of, join, join_path, parent, parent_of, stem, stem_of};
use vstd::prelude::*;

verus! {

/// The name of the artifact of a variant: `{base} - {variant}.osu`.
pub open spec fn artifact_name(base: Seq<char>, variant: Seq<char>) -> Seq<char> {
    base + " - "@ + variant + ".osu"@
}

/// The base name of the artifacts of a source: its file name without the
/// extension, or `output` where that is empty.
pub open spec fn source_base(source: Seq<char>) -> Seq<char> {
    let base = stem(file_name(source));
    if base.len() == 0 {
        "output"@
    } else {
        base
    }
}

/// The path of the artifact of a variant: beside the source.
pub open spec fn artifact_path(source: Seq<char>, variant: Seq<char>) -> Seq<char> {
    join(parent(source), artifact_name(source_base(source), variant))
}

/// An artifact is named `{base} - {variant}.osu`, and where the variant
/// holds no `/`, that is its file name: the artifact is an entry of the
/// directory that `artifact_path` puts it in.
pub proof fn lemma_artifact_file_name(source: Seq<char>, variant: Seq<char>)
    requires
        !variant.contains('/'),
    ensures
        file_name(artifact_path(source, variant)) == artifact_name(source_base(source), variant),
{
    reveal_strlit("output");
    reveal_strlit(" - ");
    reveal_strlit(".osu");
    let base = source_base(source);
    let name = artifact_name(base, variant);
    crate::paths::lemma_file_name_is_plain(source);
    let whole = file_name(source);
    let cut = stem(whole);
    if name.contains('/') {
        let i = choose|i: int| 0 <= i < name.len() && name[i] == '/';
        if i < base.len() {
            assert(base[i] == '/');
            if cut.len() > 0 {
                crate::text::lemma_past_last_exists(whole, '.');
                assert(cut[i] == whole[i]);
                assert(whole[i] == '/');
                assert(whole.contains('/'));
            }
        } else if i < base.len() + 3 {
        } else if i < base.len() + 3 + variant.len() {
            assert(variant[i - base.len() - 3] == '/');
            assert(variant.contains('/'));
        } else {
        }
    }
    crate::paths::lemma_file_name_of_join(parent(source), name);
}

/// A file to write: the path and the bytes.
#[derive(Debug, Clone, PartialEq, Eq)]
pub struct Artifact {
    pub path: String,
    pub bytes: Vec<u8>,
}

/// The model of a list of artifacts.
pub open spec fn artifacts_model(v: Seq<Artifact>) -> Seq<(Seq<char>, Seq<u8>)> {
    Seq::new(v.len(), |i: int| (v[i].path@, v[i].bytes@))
}

/// The artifacts of the variants of a source: one for each, in their order,
/// with the same bytes.
pub open spec fn planned(source: Seq<char>, variants: Seq<(Seq<char>, Seq<u8>)>) -> Seq<
    (Seq<char>, Seq<u8>),
> {
    Seq::new(variants.len(), |i: int| (artifact_path(source, variants[i].0), variants[i].1))
}

/// The outcome of converting one source, given what reading it gave: its
/// bytes, or the cause for which it could not be read.
pub open spec fn converted(source: Seq<char>, content: Result<Seq<u8>, Seq<char>>) -> Result<
    Seq<(Seq<char>, Seq<u8>)>,
    ErrorModel,
> {
    match content {
        Err(cause) => Err(ErrorModel::Io(source, cause)),
        Ok(bytes) => match sm_to_osu(bytes) {
            Err(message) => Err(ErrorModel::Codec(message)),
            Ok(variants) => Ok(planned(source, variants)),
        },
    }
}

/// The model of what reading a file gave.
pub open spec fn content_model(content: Result<Vec<u8>, String>) -> Result<Seq<u8>, Seq<char>> {
    match content {
        Ok(bytes) => Ok(bytes@),
        Err(cause) => Err(cause@),
    }
}

/// The model of the outcome of a conversion.
pub open spec fn outcome_model(r: Result<Vec<Artifact>, PipelineError>) -> Result<
    Seq<(Seq<char>, Seq<u8>)>,
    ErrorModel,
> {
    match r {
        Ok(v) => Ok(artifacts_model(v@)),
        Err(e) => Err(e@),
    }
}

/// Names the artifact of a variant of a source.
pub fn artifact_path_for(source: &str, variant: &str) -> (r: String)
    ensures
        r@ == artifact_path(source@, variant@),
{
    let name = file_name_of(source);
    let mut base = stem_of(name.as_str());
    if base.as_str().is_empty() {
        base = "output".to_owned();
    }
    let file = base.concat(" - ").concat(variant).concat(".osu");
    let dir = parent_of(source);
    join_path(dir.as_str(), file.as_str())
}

/// Plans the files to write for the variants that the codec returned for a
/// source: as many files as variants.
pub fn plan_artifacts(source: &str, variants: Vec<(String, Vec<u8>)>) -> (r: Vec<Artifact>)
    ensures
        r@.len() == variants@.len(),
        artifacts_model(r@) == planned(source@, crate::maps::artifacts_view(variants@)),
{
    let ghost all = variants@;
    let mut out: Vec<Artifact> = Vec::new();
    for pair in it: variants
        invariant
            it.seq() == all,
            out@.len() == it.index(),
            forall|j: int|
                0 <= j < out@.len() ==> (#[trigger] out@[j]).path@ == artifact_path(
                    source@,
                    all[j].0@,
                ) && out@[j].bytes@ == all[j].1@,
    {
        let (variant, bytes) = pair;
        let path = artifact_path_for(source, variant.as_str());
        out.push(Artifact { path, bytes });
    }
    assert(artifacts_model(out@) =~= planned(source@, crate::maps::artifacts_view(all)));
    out
}

/// Converts one source: the files to write beside it, or why there are
/// none. `content` is what reading the source gave.
pub fn convert_source(source: &str, content: Result<Vec<u8>, String>) -> (r: Result<
    Vec<Artifact>,
    PipelineError,
>)
    ensures
        outcome_model(r) == converted(source@, content_model(content)),
{
    match content {
        Err(cause) => Err(PipelineError::IoError(source.to_owned(), cause)),
        Ok(bytes) => match from_sm_to_osu(bytes) {
            Err(message) => Err(PipelineError::CodecError(message)),
            Ok(variants) => Ok(plan_artifacts(source, variants)),
        },
    }
}

/// A chart source as read: its path, and its bytes or why it has none.
#[derive(Debug, PartialEq, Eq)]
pub struct SourceFile {
    pub path: String,
    pub content: Result<Vec<u8>, String>,
}

/// What became of one source of a batch.
#[derive(Debug, PartialEq, Eq)]
pub struct FileReport {
    pub source: String,
    pub outcome: Result<Vec<Artifact>, PipelineError>,
}

/// Converts a batch, one source after the other. Every source is attempted
/// once, and what becomes of it depends on that source alone.
pub fn convert_batch(files: Vec<SourceFile>) -> (r: Vec<FileReport>)
    ensures
        r@.len() == files@.len(),
        forall|i: int|
            0 <= i < r@.len() ==> (#[trigger] r@[i]).source@ == files@[i].path@ && outcome_model(
                r@[i].outcome,
            ) == converted(files@[i].path@, content_model(files@[i].content)),
{
    let ghost all = files@;
    let mut out: Vec<FileReport> = Vec::new();
    for file in it: files
        invariant
            it.seq() == all,
            out@.len() == it.index(),
            forall|j: int|
                0 <= j < out@.len() ==> (#[trigger] out@[j]).source@ == all[j].path@
                    && outcome_model(out@[j].outcome) == converted(
                    all[j].path@,
                    content_model(all[j].content),
                ),
    {
        let SourceFile { path, content } = file;
        let outcome = convert_source(path.as_str(), content);
        out.push(FileReport { source: path, outcome });
    }
    out
}

} // verus!
