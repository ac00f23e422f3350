//! Walking a directory tree one directory at a time.
//!
//! Reading a directory is the caller's work. The walk decides which
//! directory is read next and what becomes of the entries that were found.

use crate::paths::{join, join_path};
use crate::text::texts;
use vstd::prelude::*;

verus! {

/// An entry of a directory, as a listing gives it: its name, and whether it
/// is itself a directory.
#[derive(Debug, Clone, PartialEq, Eq)]
pub struct DirEntry {
    pub name: String,
    pub is_dir: bool,
}

/// The paths of the entries of `dir` that are directories (`dirs`), or of
/// those that are not, in the order of the listing.
pub open spec fn children(dir: Seq<char>, entries: Seq<DirEntry>, dirs: bool) -> Seq<Seq<char>>
    decreases entries.len(),
{
    if entries.len() == 0 {
        seq![]
    } else {
        let rest = children(dir, entries.drop_last(), dirs);
        if entries.last().is_dir == dirs {
            rest.push(join(dir, entries.last().name@))
        } else {
            rest
        }
    }
}

/// A walk over a tree: the directories that are still to be read, and the
/// files found so far.
#[derive(Debug, Clone, PartialEq, Eq)]
pub struct TreeWalk {
    pub pending: Vec<String>,
    pub files: Vec<String>,
}

impl TreeWalk {
    /// A walk that has the root to read and has found nothing.
    pub fn new(root: &str) -> (r: Self)
        ensures
            texts(r.pending@) == seq![root@],
            r.files@.len() == 0,
    {
        let mut pending: Vec<String> = Vec::new();
        pending.push(root.to_owned());
        assert(texts(pending@) =~= seq![root@]);
        TreeWalk { pending, files: Vec::new() }
    }

    /// Whether every directory has been read.
    pub fn is_done(&self) -> (r: bool)
        ensures
            r == (self.pending@.len() == 0),
    {
        self.pending.len() == 0
    }

    /// Takes the directory to read next: the one found last, so that the
    /// walk goes depth first. `None` when the walk is done.
    pub fn next_dir(&mut self) -> (r: Option<String>)
        ensures
            final(self).files == old(self).files,
            old(self).pending@.len() == 0 ==> r is None,
            old(self).pending@.len() == 0 ==> final(self).pending@ == old(self).pending@,
            old(self).pending@.len() > 0 ==> r == Some(old(self).pending@.last()),
            old(self).pending@.len() > 0 ==> final(self).pending@ == old(self).pending@.drop_last(),
    {
        self.pending.pop()
    }

    /// Takes in the listing of `dir`: its directories are to be read, its
    /// other entries are files found.
    pub fn visit(&mut self, dir: &str, entries: &Vec<DirEntry>)
        ensures
            texts(final(self).pending@) == texts(old(self).pending@) + children(
                dir@,
                entries@,
                true,
            ),
            texts(final(self).files@) == texts(old(self).files@) + children(dir@, entries@, false),
    {
        let mut i: usize = 0;
        while i < entries.len()
            invariant
                i <= entries.len(),
                texts(self.pending@) == texts(old(self).pending@) + children(
                    dir@,
                    entries@.take(i as int),
                    true,
                ),
                texts(self.files@) == texts(old(self).files@) + children(
                    dir@,
                    entries@.take(i as int),
                    false,
                ),
            decreases entries.len() - i,
        {
            let path = join_path(dir, entries[i].name.as_str());
            proof {
                assert(entries@.take(i + 1).drop_last() =~= entries@.take(i as int));
                assert(entries@.take(i + 1).last() == entries@[i as int]);
            }
            if entries[i].is_dir {
                let ghost before = texts(self.pending@);
                self.pending.push(path);
                assert(texts(self.pending@) =~= before.push(path@));
            } else {
                let ghost before = texts(self.files@);
                self.files.push(path);
                assert(texts(self.files@) =~= before.push(path@));
            }
            i += 1;
        }
        proof {
            assert(entries@.take(i as int) =~= entries@);
        }
    }

    /// The files found.
    pub fn into_files(self) -> (r: Vec<String>)
        ensures
            r == self.files,
    {
        self.files
    }
}

/// The state of a walk as plain values: the directories still to read,
/// the files found, and the directories read so far.
pub struct WalkModel {
    pub pending: Seq<Seq<char>>,
    pub files: Seq<Seq<char>>,
    pub read: Seq<Seq<char>>,
}

/// Whether `child` is an entry of the directory `dir` in the tree `tree`,
/// which gives the listing of each directory: a directory (`dirs`), or not.
pub open spec fn is_child(
    tree: spec_fn(Seq<char>) -> Seq<DirEntry>,
    dir: Seq<char>,
    child: Seq<char>,
    dirs: bool,
) -> bool {
    children(dir, tree(dir), dirs).contains(child)
}

/// Whether `dir` lies `depth` levels below `root` in the tree.
pub open spec fn lies_below(
    tree: spec_fn(Seq<char>) -> Seq<DirEntry>,
    root: Seq<char>,
    dir: Seq<char>,
    depth: nat,
) -> bool
    decreases depth,
{
    if depth == 0 {
        dir == root
    } else {
        exists|p: Seq<char>|
            lies_below(tree, root, p, (depth - 1) as nat) && #[trigger] is_child(
                tree,
                p,
                dir,
                true,
            )
    }
}

/// One round of a walk: the directory found last is taken and read, its
/// directories are to be read, its other entries are files found.
pub open spec fn walk_step(tree: spec_fn(Seq<char>) -> Seq<DirEntry>, w: WalkModel) -> WalkModel {
    if w.pending.len() == 0 {
        w
    } else {
        let dir = w.pending.last();
        WalkModel {
            pending: w.pending.drop_last() + children(dir, tree(dir), true),
            files: w.files + children(dir, tree(dir), false),
            read: w.read.push(dir),
        }
    }
}

/// A walk from `root` after `rounds` rounds.
pub open spec fn walk_after(
    tree: spec_fn(Seq<char>) -> Seq<DirEntry>,
    root: Seq<char>,
    rounds: nat,
) -> WalkModel
    decreases rounds,
{
    if rounds == 0 {
        WalkModel { pending: seq![root], files: seq![], read: seq![] }
    } else {
        walk_step(tree, walk_after(tree, root, (rounds - 1) as nat))
    }
}

impl TreeWalk {
    /// The walk as plain values, beside the directories that it has read.
    pub open spec fn model(self, read: Seq<Seq<char>>) -> WalkModel {
        WalkModel { pending: texts(self.pending@), files: texts(self.files@), read }
    }
}

/// Taking the next directory and taking in its listing is one round: where
/// `taken` is the walk `before` after `next_dir`, and `after` is `taken`
/// after `visit` with the listing that the tree has for that directory.
pub proof fn lemma_round_is_step(
    tree: spec_fn(Seq<char>) -> Seq<DirEntry>,
    before: TreeWalk,
    taken: TreeWalk,
    after: TreeWalk,
    read: Seq<Seq<char>>,
)
    requires
        before.pending@.len() > 0,
        taken.pending@ == before.pending@.drop_last(),
        taken.files == before.files,
        texts(after.pending@) == texts(taken.pending@) + children(
            before.pending@.last()@,
            tree(before.pending@.last()@),
            true,
        ),
        texts(after.files@) == texts(taken.files@) + children(
            before.pending@.last()@,
            tree(before.pending@.last()@),
            false,
        ),
    ensures
        after.model(read.push(before.pending@.last()@)) == walk_step(tree, before.model(read)),
{
    assert(texts(before.pending@).drop_last() =~= texts(taken.pending@));
    assert(texts(before.pending@).last() == before.pending@.last()@);
}

/// What holds of a walk at every round: the root is read or to be read,
/// and so is every directory of a directory that was read; every file of a
/// directory that was read is found.
pub open spec fn walk_inv(
    tree: spec_fn(Seq<char>) -> Seq<DirEntry>,
    root: Seq<char>,
    w: WalkModel,
) -> bool {
    &&& w.pending.contains(root) || w.read.contains(root)
    &&& forall|d: Seq<char>, c: Seq<char>|
        w.read.contains(d) && #[trigger] is_child(tree, d, c, true) ==> w.pending.contains(c)
            || w.read.contains(c)
    &&& forall|d: Seq<char>, f: Seq<char>|
        w.read.contains(d) && #[trigger] is_child(tree, d, f, false) ==> w.files.contains(f)
}

pub(crate) proof fn lemma_in_concat<T>(a: Seq<T>, b: Seq<T>, x: T)
    ensures
        (a + b).contains(x) <==> (a.contains(x) || b.contains(x)),
{
    if a.contains(x) {
        let i = choose|i: int| 0 <= i < a.len() && a[i] == x;
        assert((a + b)[i] == x);
    }
    if b.contains(x) {
        let i = choose|i: int| 0 <= i < b.len() && b[i] == x;
        assert((a + b)[a.len() + i] == x);
    }
    if (a + b).contains(x) {
        let i = choose|i: int| 0 <= i < (a + b).len() && (a + b)[i] == x;
        if i < a.len() {
            assert(a[i] == x);
        } else {
            assert(b[i - a.len()] == x);
        }
    }
}

pub(crate) proof fn lemma_in_front_or_last<T>(a: Seq<T>, x: T)
    requires
        a.contains(x),
    ensures
        a.drop_last().contains(x) || a.last() == x,
{
    let i = choose|i: int| 0 <= i < a.len() && a[i] == x;
    if i < a.len() - 1 {
        assert(a.drop_last()[i] == x);
    }
}

pub(crate) proof fn lemma_in_push<T>(a: Seq<T>, y: T, x: T)
    ensures
        a.push(y).contains(x) <==> (a.contains(x) || x == y),
{
    if a.contains(x) {
        let i = choose|i: int| 0 <= i < a.len() && a[i] == x;
        assert(a.push(y)[i] == x);
    }
    if x == y {
        assert(a.push(y)[a.len() as int] == x);
    }
    if a.push(y).contains(x) {
        let i = choose|i: int| 0 <= i < a.push(y).len() && a.push(y)[i] == x;
        if i < a.len() {
            assert(a[i] == x);
        }
    }
}

proof fn lemma_walk_step_keeps_inv(
    tree: spec_fn(Seq<char>) -> Seq<DirEntry>,
    root: Seq<char>,
    w: WalkModel,
)
    requires
        walk_inv(tree, root, w),
    ensures
        walk_inv(tree, root, walk_step(tree, w)),
{
    if w.pending.len() > 0 {
        let x = w.pending.last();
        let kids = children(x, tree(x), true);
        let leaves = children(x, tree(x), false);
        let n = walk_step(tree, w);
        assert forall|c: Seq<char>| w.pending.contains(c) || w.read.contains(c) implies n.pending.contains(
            c,
        ) || n.read.contains(c) by {
            lemma_in_push(w.read, x, c);
            if w.pending.contains(c) {
                lemma_in_front_or_last(w.pending, c);
                lemma_in_concat(w.pending.drop_last(), kids, c);
            }
        }
        assert forall|d: Seq<char>, c: Seq<char>|
            n.read.contains(d) && #[trigger] is_child(tree, d, c, true) implies n.pending.contains(c)
            || n.read.contains(c) by {
            lemma_in_push(w.read, x, d);
            if w.read.contains(d) {
                assert(w.pending.contains(c) || w.read.contains(c));
            } else {
                lemma_in_concat(w.pending.drop_last(), kids, c);
            }
        }
        assert forall|d: Seq<char>, f: Seq<char>|
            n.read.contains(d) && #[trigger] is_child(tree, d, f, false) implies n.files.contains(
            f,
        ) by {
            lemma_in_push(w.read, x, d);
            lemma_in_concat(w.files, leaves, f);
        }
    }
}

proof fn lemma_walk_inv(tree: spec_fn(Seq<char>) -> Seq<DirEntry>, root: Seq<char>, rounds: nat)
    ensures
        walk_inv(tree, root, walk_after(tree, root, rounds)),
    decreases rounds,
{
    if rounds == 0 {
        assert(seq![root][0] == root);
    } else {
        lemma_walk_inv(tree, root, (rounds - 1) as nat);
        lemma_walk_step_keeps_inv(tree, root, walk_after(tree, root, (rounds - 1) as nat));
    }
}

/// What a walk never leaves: every directory read or to be read lies
/// below the root, and every file found is a file of a directory that was
/// read.
pub open spec fn walk_within(
    tree: spec_fn(Seq<char>) -> Seq<DirEntry>,
    root: Seq<char>,
    w: WalkModel,
) -> bool {
    &&& forall|d: Seq<char>|
        w.pending.contains(d) || w.read.contains(d) ==> exists|depth: nat|
            lies_below(tree, root, d, depth)
    &&& forall|f: Seq<char>| #[trigger]
        w.files.contains(f) ==> exists|d: Seq<char>|
            w.read.contains(d) && #[trigger] is_child(tree, d, f, false)
}

proof fn lemma_walk_step_keeps_within(
    tree: spec_fn(Seq<char>) -> Seq<DirEntry>,
    root: Seq<char>,
    w: WalkModel,
)
    requires
        walk_within(tree, root, w),
    ensures
        walk_within(tree, root, walk_step(tree, w)),
{
    if w.pending.len() > 0 {
        let x = w.pending.last();
        let kids = children(x, tree(x), true);
        let leaves = children(x, tree(x), false);
        let n = walk_step(tree, w);
        assert(w.pending[w.pending.len() - 1] == x);
        assert(w.pending.contains(x));
        let depth_x = choose|depth: nat| lies_below(tree, root, x, depth);
        assert forall|d: Seq<char>| n.pending.contains(d) || n.read.contains(d) implies exists|
            depth: nat,
        |
            lies_below(tree, root, d, depth) by {
            lemma_in_push(w.read, x, d);
            lemma_in_concat(w.pending.drop_last(), kids, d);
            if w.read.contains(d) || d == x {
            } else if w.pending.drop_last().contains(d) {
                let i = choose|i: int|
                    0 <= i < w.pending.drop_last().len() && w.pending.drop_last()[i] == d;
                assert(w.pending[i] == d);
            } else {
                assert(is_child(tree, x, d, true));
                assert(lies_below(tree, root, d, depth_x + 1));
            }
        }
        assert forall|f: Seq<char>| #[trigger] n.files.contains(f) implies exists|d: Seq<char>|
            n.read.contains(d) && #[trigger] is_child(tree, d, f, false) by {
            lemma_in_concat(w.files, leaves, f);
            if w.files.contains(f) {
                let d = choose|d: Seq<char>|
                    w.read.contains(d) && #[trigger] is_child(tree, d, f, false);
                lemma_in_push(w.read, x, d);
                assert(n.read.contains(d) && is_child(tree, d, f, false));
            } else {
                lemma_in_push(w.read, x, x);
                assert(n.read.contains(x) && is_child(tree, x, f, false));
            }
        }
    }
}

/// A walk reads no directory but those that lie below its root, and finds
/// no file but those of the directories that it has read.
pub proof fn lemma_walk_stays_within(
    tree: spec_fn(Seq<char>) -> Seq<DirEntry>,
    root: Seq<char>,
    rounds: nat,
)
    ensures
        walk_within(tree, root, walk_after(tree, root, rounds)),
    decreases rounds,
{
    if rounds == 0 {
        let w = walk_after(tree, root, 0);
        assert forall|d: Seq<char>| w.pending.contains(d) || w.read.contains(d) implies exists|
            depth: nat,
        |
            lies_below(tree, root, d, depth) by {
            assert(lies_below(tree, root, root, 0));
        }
    } else {
        lemma_walk_stays_within(tree, root, (rounds - 1) as nat);
        lemma_walk_step_keeps_within(tree, root, walk_after(tree, root, (rounds - 1) as nat));
    }
}

/// A walk that has nothing left to read has read every directory that
/// lies below its root, at whatever depth, and has found every file of
/// each.
pub proof fn lemma_walk_reads_all(
    tree: spec_fn(Seq<char>) -> Seq<DirEntry>,
    root: Seq<char>,
    rounds: nat,
    dir: Seq<char>,
    depth: nat,
)
    requires
        walk_after(tree, root, rounds).pending.len() == 0,
        lies_below(tree, root, dir, depth),
    ensures
        walk_after(tree, root, rounds).read.contains(dir),
        forall|f: Seq<char>|
            #[trigger] is_child(tree, dir, f, false) ==> walk_after(tree, root, rounds).files.contains(
                f,
            ),
    decreases depth,
{
    let w = walk_after(tree, root, rounds);
    lemma_walk_inv(tree, root, rounds);
    assert(forall|x: Seq<char>| !w.pending.contains(x));
    if depth > 0 {
        let p = choose|p: Seq<char>|
            lies_below(tree, root, p, (depth - 1) as nat) && #[trigger] is_child(
                tree,
                p,
                dir,
                true,
            );
        lemma_walk_reads_all(tree, root, rounds, p, (depth - 1) as nat);
        assert(is_child(tree, p, dir, true));
    }
}

/// Whether `p` is an entry of the directory `dir`, of either kind.
pub open spec fn is_entry(
    tree: spec_fn(Seq<char>) -> Seq<DirEntry>,
    dir: Seq<char>,
    p: Seq<char>,
) -> bool {
    is_child(tree, dir, p, true) || is_child(tree, dir, p, false)
}

/// Whether the listings below `root` are those of a tree, in which every
/// entry has one path and one directory that holds it: a listing names no
/// entry twice, no directory holds the root, and no two directories hold
/// the same entry. Directories that are reached through links break this.
pub open spec fn is_tree(tree: spec_fn(Seq<char>) -> Seq<DirEntry>, root: Seq<char>) -> bool {
    &&& forall|d: Seq<char>, k: nat| #[trigger]
        lies_below(tree, root, d, k) ==> children(d, tree(d), true).no_duplicates() && children(
            d,
            tree(d),
            false,
        ).no_duplicates() && !is_entry(tree, d, root)
    &&& forall|d1: Seq<char>, k1: nat, d2: Seq<char>, k2: nat, p: Seq<char>|
        #![trigger lies_below(tree, root, d1, k1), lies_below(tree, root, d2, k2), is_entry(tree, d1, p)]
        lies_below(tree, root, d1, k1) && lies_below(tree, root, d2, k2) && d1 != d2 && is_entry(
            tree,
            d1,
            p,
        ) ==> !is_entry(tree, d2, p)
}

/// What holds of a walk over a tree at every round: no directory is read
/// or to be read twice, no file is found twice, and every directory that
/// the walk knows is the root or was listed in a directory that was read.
pub open spec fn walk_distinct(
    tree: spec_fn(Seq<char>) -> Seq<DirEntry>,
    root: Seq<char>,
    w: WalkModel,
) -> bool {
    &&& w.pending.no_duplicates()
    &&& w.read.no_duplicates()
    &&& w.files.no_duplicates()
    &&& forall|p: Seq<char>| #[trigger] w.pending.contains(p) ==> !w.read.contains(p)
    &&& forall|c: Seq<char>|
        #![trigger w.pending.contains(c)]
        #![trigger w.read.contains(c)]
        (w.pending.contains(c) || w.read.contains(c)) ==> c == root || exists|d: Seq<char>|
            w.read.contains(d) && #[trigger] is_child(tree, d, c, true)
}

proof fn lemma_walk_step_keeps_distinct(
    tree: spec_fn(Seq<char>) -> Seq<DirEntry>,
    root: Seq<char>,
    w: WalkModel,
)
    requires
        is_tree(tree, root),
        walk_within(tree, root, w),
        walk_distinct(tree, root, w),
    ensures
        walk_distinct(tree, root, walk_step(tree, w)),
{
    if w.pending.len() > 0 {
        let x = w.pending.last();
        let kids = children(x, tree(x), true);
        let leaves = children(x, tree(x), false);
        let front = w.pending.drop_last();
        let n = walk_step(tree, w);
        assert(w.pending[w.pending.len() - 1] == x);
        assert(w.pending.contains(x));
        assert(!w.read.contains(x));
        let kx = choose|depth: nat| lies_below(tree, root, x, depth);
        assert(lies_below(tree, root, x, kx));
        assert forall|p: Seq<char>| front.contains(p) implies w.pending.contains(p) && p != x by {
            let i = choose|i: int| 0 <= i < front.len() && front[i] == p;
            assert(w.pending[i] == p);
        }
        assert forall|p: Seq<char>| is_entry(tree, x, p) implies !w.pending.contains(p)
            && !w.read.contains(p) && !w.files.contains(p) by {
            if w.pending.contains(p) || w.read.contains(p) {
                if p != root {
                    let d = choose|d: Seq<char>|
                        w.read.contains(d) && #[trigger] is_child(tree, d, p, true);
                    let kd = choose|depth: nat| lies_below(tree, root, d, depth);
                    assert(lies_below(tree, root, d, kd));
                    assert(is_entry(tree, d, p));
                    assert(d != x);
                }
            }
            if w.files.contains(p) {
                let d = choose|d: Seq<char>|
                    w.read.contains(d) && #[trigger] is_child(tree, d, p, false);
                let kd = choose|depth: nat| lies_below(tree, root, d, depth);
                assert(lies_below(tree, root, d, kd));
                assert(is_entry(tree, d, p));
                assert(d != x);
            }
        }
        assert forall|i: int, j: int| 0 <= i < front.len() && 0 <= j < kids.len() implies front[i]
            != kids[j] by {
            assert(front.contains(front[i]));
            assert(kids.contains(kids[j]));
            assert(is_entry(tree, x, kids[j]));
        }
        assert(front.no_duplicates());
        vstd::seq_lib::lemma_no_dup_in_concat(front, kids);
        assert forall|i: int, j: int|
            0 <= i < w.files.len() && 0 <= j < leaves.len() implies w.files[i] != leaves[j] by {
            assert(w.files.contains(w.files[i]));
            assert(leaves.contains(leaves[j]));
            assert(is_entry(tree, x, leaves[j]));
        }
        vstd::seq_lib::lemma_no_dup_in_concat(w.files, leaves);
        assert(n.read.no_duplicates()) by {
            assert forall|i: int, j: int|
                0 <= i < n.read.len() && 0 <= j < n.read.len() && i != j implies n.read[i]
                != n.read[j] by {
                if i < w.read.len() {
                    assert(w.read.contains(w.read[i]));
                }
                if j < w.read.len() {
                    assert(w.read.contains(w.read[j]));
                }
            }
        }
        assert forall|p: Seq<char>| #[trigger] n.pending.contains(p) implies !n.read.contains(
            p,
        ) by {
            lemma_in_concat(front, kids, p);
            lemma_in_push(w.read, x, p);
            if kids.contains(p) {
                assert(is_entry(tree, x, p));
            }
        }
        assert forall|c: Seq<char>|
            #![trigger n.pending.contains(c)]
            #![trigger n.read.contains(c)]
            (n.pending.contains(c) || n.read.contains(c)) implies c == root || exists|
                d: Seq<char>,
            |
                n.read.contains(d) && #[trigger] is_child(tree, d, c, true) by {
            lemma_in_concat(front, kids, c);
            lemma_in_push(w.read, x, c);
            lemma_in_push(w.read, x, x);
            if kids.contains(c) {
                assert(n.read.contains(x) && is_child(tree, x, c, true));
            } else if c != root {
                assert(w.pending.contains(c) || w.read.contains(c));
                let d = choose|d: Seq<char>|
                    w.read.contains(d) && #[trigger] is_child(tree, d, c, true);
                lemma_in_push(w.read, x, d);
                assert(n.read.contains(d) && is_child(tree, d, c, true));
            }
        }
    }
}

/// A walk over a tree reads no directory twice and finds no file twice.
pub proof fn lemma_walk_finds_once(
    tree: spec_fn(Seq<char>) -> Seq<DirEntry>,
    root: Seq<char>,
    rounds: nat,
)
    requires
        is_tree(tree, root),
    ensures
        walk_distinct(tree, root, walk_after(tree, root, rounds)),
        walk_after(tree, root, rounds).files.no_duplicates(),
        walk_after(tree, root, rounds).read.no_duplicates(),
    decreases rounds,
{
    if rounds == 0 {
        let w = walk_after(tree, root, 0);
        assert forall|c: Seq<char>| #[trigger] w.pending.contains(c) implies c == root by {
            let i = choose|i: int| 0 <= i < w.pending.len() && w.pending[i] == c;
        }
    } else {
        let before = walk_after(tree, root, (rounds - 1) as nat);
        lemma_walk_finds_once(tree, root, (rounds - 1) as nat);
        lemma_walk_stays_within(tree, root, (rounds - 1) as nat);
        lemma_walk_step_keeps_distinct(tree, root, before);
    }
}

} // verus!
