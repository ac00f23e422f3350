//! Finding the chart sources of an unpacked archive, and the song
//! directories that hold them.

use crate::paths::{has_extension, parent, parent_of, path_has_extension};
use crate::text::{same_text, texts};
use crate::walk::{
    is_child, is_tree, lemma_walk_finds_once, lemma_walk_reads_all, lemma_walk_stays_within,
    lies_below, walk_after, DirEntry,
};
use vstd::prelude::*;

verus! {

/// The extension that marks a file as a chart source. It is matched with
/// case.
pub open spec fn chart_extension() -> Seq<char> {
    "sm"@
}

/// Whether a path names a chart source.
pub open spec fn is_chart(path: Seq<char>) -> bool {
    has_extension(path, chart_extension())
}

/// The chart sources among some paths, in the order of the paths.
pub open spec fn chart_sources(paths: Seq<Seq<char>>) -> Seq<Seq<char>>
    decreases paths.len(),
{
    if paths.len() == 0 {
        seq![]
    } else {
        let rest = chart_sources(paths.drop_last());
        if is_chart(paths.last()) {
            rest.push(paths.last())
        } else {
            rest
        }
    }
}

/// The parent directory of each path.
pub open spec fn parents(paths: Seq<Seq<char>>) -> Seq<Seq<char>> {
    Seq::new(paths.len(), |i: int| parent(paths[i]))
}

/// The items of a sequence, each once, in the order in which they first
/// occur.
pub open spec fn distinct(s: Seq<Seq<char>>) -> Seq<Seq<char>>
    decreases s.len(),
{
    if s.len() == 0 {
        seq![]
    } else {
        let rest = distinct(s.drop_last());
        if rest.contains(s.last()) {
            rest
        } else {
            rest.push(s.last())
        }
    }
}

/// The song directories of some chart sources: their parent directories,
/// each once.
pub open spec fn song_dirs(sources: Seq<Seq<char>>) -> Seq<Seq<char>> {
    distinct(parents(sources))
}

/// `distinct` holds nothing twice, holds exactly what the sequence holds,
/// and is no longer than it.
pub proof fn lemma_distinct(s: Seq<Seq<char>>)
    ensures
        distinct(s).no_duplicates(),
        distinct(s).len() <= s.len(),
        forall|x: Seq<char>| distinct(s).contains(x) <==> s.contains(x),
    decreases s.len(),
{
    if s.len() > 0 {
        let front = s.drop_last();
        let rest = distinct(front);
        lemma_distinct(front);
        assert forall|x: Seq<char>| distinct(s).contains(x) <==> s.contains(x) by {
            if s.contains(x) {
                let i = choose|i: int| 0 <= i < s.len() && s[i] == x;
                if i < s.len() - 1 {
                    assert(front[i] == x);
                    assert(front.contains(x));
                    assert(rest.contains(x));
                    let k = choose|k: int| 0 <= k < rest.len() && rest[k] == x;
                    assert(distinct(s)[k] == x);
                } else {
                    if !rest.contains(x) {
                        assert(distinct(s)[rest.len() as int] == x);
                    }
                }
            }
            if distinct(s).contains(x) {
                let k = choose|k: int| 0 <= k < distinct(s).len() && distinct(s)[k] == x;
                if k < rest.len() {
                    assert(rest[k] == x);
                    assert(rest.contains(x));
                    assert(front.contains(x));
                    let i = choose|i: int| 0 <= i < front.len() && front[i] == x;
                    assert(s[i] == x);
                } else {
                    assert(s[s.len() - 1] == x);
                }
            }
        }
    }
}

/// The chart sources among some paths are exactly the paths among them
/// that name a chart source, and no more of them than there are paths.
pub proof fn lemma_chart_sources(paths: Seq<Seq<char>>)
    ensures
        chart_sources(paths).len() <= paths.len(),
        forall|p: Seq<char>| #[trigger]
            chart_sources(paths).contains(p) <==> paths.contains(p) && is_chart(p),
    decreases paths.len(),
{
    if paths.len() > 0 {
        let front = paths.drop_last();
        let rest = chart_sources(front);
        lemma_chart_sources(front);
        assert forall|p: Seq<char>| #[trigger]
            chart_sources(paths).contains(p) <==> paths.contains(p) && is_chart(p) by {
            assert(chart_sources(front).contains(p) <==> front.contains(p) && is_chart(p));
            if chart_sources(paths).contains(p) {
                let k = choose|k: int|
                    0 <= k < chart_sources(paths).len() && chart_sources(paths)[k] == p;
                if k < rest.len() {
                    assert(rest[k] == p);
                    assert(rest.contains(p));
                    let i = choose|i: int| 0 <= i < front.len() && front[i] == p;
                    assert(paths[i] == p);
                } else {
                    assert(paths[paths.len() - 1] == p);
                }
            }
            if paths.contains(p) && is_chart(p) {
                let i = choose|i: int| 0 <= i < paths.len() && paths[i] == p;
                if i < paths.len() - 1 {
                    assert(front[i] == p);
                    assert(front.contains(p));
                    let k = choose|k: int| 0 <= k < rest.len() && rest[k] == p;
                    assert(chart_sources(paths)[k] == p);
                } else {
                    assert(chart_sources(paths)[rest.len() as int] == p);
                }
            }
        }
    }
}

/// Among paths of which none comes twice, no chart source comes twice,
/// and there are as many of them as the set of them has members.
pub proof fn lemma_chart_sources_distinct(paths: Seq<Seq<char>>)
    requires
        paths.no_duplicates(),
    ensures
        chart_sources(paths).no_duplicates(),
        chart_sources(paths).len() == chart_sources(paths).to_set().len(),
    decreases paths.len(),
{
    if paths.len() > 0 {
        let front = paths.drop_last();
        let rest = chart_sources(front);
        lemma_chart_sources_distinct(front);
        lemma_chart_sources(front);
        if is_chart(paths.last()) {
            if rest.contains(paths.last()) {
                assert(front.contains(paths.last()));
                let i = choose|i: int| 0 <= i < front.len() && front[i] == paths.last();
                assert(paths[i] == paths[paths.len() - 1]);
            }
            assert forall|i: int, j: int|
                0 <= i < rest.push(paths.last()).len() && 0 <= j < rest.push(paths.last()).len()
                    && i != j implies rest.push(paths.last())[i] != rest.push(paths.last())[j] by {
                if i < rest.len() {
                    assert(rest.contains(rest[i]));
                }
                if j < rest.len() {
                    assert(rest.contains(rest[j]));
                }
            }
        }
    }
    chart_sources(paths).unique_seq_to_set();
}

/// A set of chart sources holds at least as many files as song directories,
/// and no song directory twice.
pub proof fn lemma_song_dirs(sources: Seq<Seq<char>>)
    ensures
        song_dirs(sources).len() <= sources.len(),
        song_dirs(sources).no_duplicates(),
        forall|i: int|
            0 <= i < sources.len() ==> song_dirs(sources).contains(parent(#[trigger] sources[i])),
        forall|d: Seq<char>|
            song_dirs(sources).contains(d) ==> exists|i: int|
                0 <= i < sources.len() && parent(#[trigger] sources[i]) == d,
{
    let ps = parents(sources);
    lemma_distinct(ps);
    assert forall|i: int| 0 <= i < sources.len() implies song_dirs(sources).contains(
        parent(#[trigger] sources[i]),
    ) by {
        assert(ps[i] == parent(sources[i]));
        assert(ps.contains(parent(sources[i])));
    }
    assert forall|d: Seq<char>| song_dirs(sources).contains(d) implies exists|i: int|
        0 <= i < sources.len() && parent(#[trigger] sources[i]) == d by {
        assert(ps.contains(d));
        let i = choose|i: int| 0 <= i < ps.len() && ps[i] == d;
        assert(parent(sources[i]) == d);
    }
}

/// The chart sources that a finished walk hands to the locator are exactly
/// the chart sources among the files of the directories below the root.
pub proof fn lemma_walk_locates_all(
    tree: spec_fn(Seq<char>) -> Seq<DirEntry>,
    root: Seq<char>,
    rounds: nat,
)
    requires
        walk_after(tree, root, rounds).pending.len() == 0,
    ensures
        forall|dir: Seq<char>, depth: nat, f: Seq<char>|
            #![trigger lies_below(tree, root, dir, depth), is_child(tree, dir, f, false)]
            lies_below(tree, root, dir, depth) && is_child(tree, dir, f, false) && is_chart(f)
                ==> chart_sources(walk_after(tree, root, rounds).files).contains(f),
        forall|f: Seq<char>| #[trigger]
            chart_sources(walk_after(tree, root, rounds).files).contains(f) ==> is_chart(f)
                && exists|dir: Seq<char>, depth: nat|
                #![trigger lies_below(tree, root, dir, depth), is_child(tree, dir, f, false)]
                lies_below(tree, root, dir, depth) && is_child(tree, dir, f, false),
{
    let w = walk_after(tree, root, rounds);
    lemma_chart_sources(w.files);
    lemma_walk_stays_within(tree, root, rounds);
    assert forall|dir: Seq<char>, depth: nat, f: Seq<char>|
        #![trigger lies_below(tree, root, dir, depth), is_child(tree, dir, f, false)]
        lies_below(tree, root, dir, depth) && is_child(tree, dir, f, false) && is_chart(
            f,
        ) implies chart_sources(w.files).contains(f) by {
        lemma_walk_reads_all(tree, root, rounds, dir, depth);
    }
    assert forall|f: Seq<char>| #[trigger] chart_sources(w.files).contains(f) implies is_chart(f)
        && exists|dir: Seq<char>, depth: nat|
        #![trigger lies_below(tree, root, dir, depth), is_child(tree, dir, f, false)]
        lies_below(tree, root, dir, depth) && is_child(tree, dir, f, false) by {
        assert(w.files.contains(f));
        let d = choose|d: Seq<char>| w.read.contains(d) && #[trigger] is_child(tree, d, f, false);
        let depth = choose|depth: nat| lies_below(tree, root, d, depth);
        assert(lies_below(tree, root, d, depth) && is_child(tree, d, f, false));
    }
}

/// Over a tree, the chart sources that a finished walk hands to the
/// locator are each found once: there are exactly as many as the tree
/// holds chart sources below its root.
pub proof fn lemma_walk_counts_sources(
    tree: spec_fn(Seq<char>) -> Seq<DirEntry>,
    root: Seq<char>,
    rounds: nat,
)
    requires
        is_tree(tree, root),
        walk_after(tree, root, rounds).pending.len() == 0,
    ensures
        chart_sources(walk_after(tree, root, rounds).files).no_duplicates(),
        chart_sources(walk_after(tree, root, rounds).files).len() == Set::new(
            |f: Seq<char>|
                is_chart(f) && exists|dir: Seq<char>, depth: nat|
                    #![trigger lies_below(tree, root, dir, depth), is_child(tree, dir, f, false)]
                    lies_below(tree, root, dir, depth) && is_child(tree, dir, f, false),
        ).len(),
{
    let w = walk_after(tree, root, rounds);
    let found = chart_sources(w.files);
    let all = Set::new(
        |f: Seq<char>|
            is_chart(f) && exists|dir: Seq<char>, depth: nat|
                #![trigger lies_below(tree, root, dir, depth), is_child(tree, dir, f, false)]
                lies_below(tree, root, dir, depth) && is_child(tree, dir, f, false),
    );
    lemma_walk_finds_once(tree, root, rounds);
    lemma_chart_sources_distinct(w.files);
    lemma_walk_locates_all(tree, root, rounds);
    assert forall|f: Seq<char>| found.to_set().contains(f) <==> all.contains(f) by {
        if all.contains(f) {
            let (dir, depth) = choose|dir: Seq<char>, depth: nat|
                #![trigger lies_below(tree, root, dir, depth), is_child(tree, dir, f, false)]
                lies_below(tree, root, dir, depth) && is_child(tree, dir, f, false);
            assert(lies_below(tree, root, dir, depth) && is_child(tree, dir, f, false));
            assert(found.contains(f));
        }
        if found.to_set().contains(f) {
            assert(found.contains(f));
        }
    }
    assert(found.to_set() =~= all);
}

/// Whether a path names a chart source: a file whose extension is `sm`.
pub fn is_chart_source(path: &str) -> (r: bool)
    ensures
        r == is_chart(path@),
{
    path_has_extension(path, "sm")
}

/// Whether a list of texts holds a text.
pub fn holds_text(list: &Vec<String>, t: &str) -> (r: bool)
    ensures
        r == texts(list@).contains(t@),
{
    let mut i: usize = 0;
    while i < list.len()
        invariant
            i <= list.len(),
            forall|j: int| 0 <= j < i ==> texts(list@)[j] != t@,
        decreases list.len() - i,
    {
        if same_text(list[i].as_str(), t) {
            assert(texts(list@)[i as int] == t@);
            return true;
        }
        i += 1;
    }
    false
}

/// What the locator found: the chart sources in the order of the walk, and
/// the directories that hold them, each once.
#[derive(Debug, Clone, PartialEq, Eq)]
pub struct Located {
    pub sources: Vec<String>,
    pub song_dirs: Vec<String>,
}

impl Located {
    /// The song directories are those of the sources.
    pub open spec fn wf(self) -> bool {
        texts(self.song_dirs@) == song_dirs(texts(self.sources@))
    }
}

/// The song directories of some chart sources: the parent directory of
/// each, once, in the order in which the sources first name them.
pub fn song_directories(sources: &Vec<String>) -> (r: Vec<String>)
    ensures
        texts(r@) == song_dirs(texts(sources@)),
        r@.len() <= sources@.len(),
        texts(r@).no_duplicates(),
{
    let mut out: Vec<String> = Vec::new();
    let ghost all = parents(texts(sources@));
    let mut i: usize = 0;
    while i < sources.len()
        invariant
            i <= sources.len(),
            all == parents(texts(sources@)),
            texts(out@) == distinct(all.take(i as int)),
        decreases sources.len() - i,
    {
        let dir = parent_of(sources[i].as_str());
        proof {
            assert(all.take(i + 1).drop_last() =~= all.take(i as int));
            assert(all.take(i + 1).last() == dir@);
        }
        if !holds_text(&out, dir.as_str()) {
            let ghost before = texts(out@);
            out.push(dir);
            assert(texts(out@) =~= before.push(dir@));
        }
        i += 1;
    }
    proof {
        assert(all.take(i as int) =~= all);
        lemma_distinct(all);
    }
    out
}

/// Picks the chart sources out of the files of a tree and groups them by
/// song directory.
pub fn locate(files: &Vec<String>) -> (r: Located)
    ensures
        r.wf(),
        texts(r.sources@) == chart_sources(texts(files@)),
        r.song_dirs@.len() <= r.sources@.len(),
        texts(r.song_dirs@).no_duplicates(),
        texts(files@).no_duplicates() ==> texts(r.sources@).no_duplicates(),
{
    let mut sources: Vec<String> = Vec::new();
    let ghost all = texts(files@);
    let mut i: usize = 0;
    while i < files.len()
        invariant
            i <= files.len(),
            all == texts(files@),
            texts(sources@) == chart_sources(all.take(i as int)),
        decreases files.len() - i,
    {
        proof {
            assert(all.take(i + 1).drop_last() =~= all.take(i as int));
            assert(all.take(i + 1).last() == files@[i as int]@);
        }
        if is_chart_source(files[i].as_str()) {
            let ghost before = texts(sources@);
            sources.push(files[i].clone());
            assert(texts(sources@) =~= before.push(files@[i as int]@));
        }
        i += 1;
    }
    proof {
        assert(all.take(i as int) =~= all);
        if all.no_duplicates() {
            lemma_chart_sources_distinct(all);
        }
    }
    let song_dirs = song_directories(&sources);
    Located { sources, song_dirs }
}

} // verus!
