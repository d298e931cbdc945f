//! The decisions of a breadth-first walk over a remote directory tree: the
//! caller lists each directory of the frontier and hands the listing here.

use vstd::prelude::*;

use crate::tablet::remote::{RemoteEntry, RemoteFileKind};
use crate::text::{append_char, chars_of, string_from_chars};

verus! {

/// How many transfers run at once.
pub const TRANSFER_CONCURRENCY: usize = 16;

/// One regular file found by a walk.
#[derive(Debug, Clone)]
pub struct WalkedFile {
    /// Absolute remote path.
    pub remote_path: String,
    /// Path relative to the walk root.
    pub rel_path: String,
    pub size: Option<u64>,
    /// Modification time, seconds since the Unix epoch.
    pub mtime: Option<u64>,
}

/// A directory still to be listed: its remote path and its path relative
/// to the root.
#[derive(Debug, Clone)]
pub struct PendingDir {
    pub remote: String,
    pub rel: String,
}

/// `s` without its trailing slashes.
pub open spec fn trim_trailing_slashes(s: Seq<char>) -> Seq<char>
    decreases s.len(),
{
    if s.len() > 0 && s.last() == '/' {
        trim_trailing_slashes(s.drop_last())
    } else {
        s
    }
}

/// The walk root with trailing slashes removed.
pub fn walk_root(root: &str) -> (r: String)
    ensures
        r@ == trim_trailing_slashes(root@),
{
    let v = chars_of(root);
    let mut n = v.len();
    proof {
        assert(v@.take(n as int) =~= v@);
    }
    while n > 0 && v[n - 1] == '/'
        invariant
            n <= v@.len(),
            trim_trailing_slashes(v@.take(n as int)) == trim_trailing_slashes(v@),
        decreases n,
    {
        proof {
            assert(v@.take(n as int).drop_last() =~= v@.take(n - 1));
        }
        n = n - 1;
    }
    proof {
        assert(v@.take(v@.len() as int) =~= v@);
    }
    let r = string_from_chars(&v, 0, n);
    proof {
        assert(v@.subrange(0, n as int) =~= v@.take(n as int));
    }
    r
}

/// A relative path extended by one name, as `Path::join` forms it: an
/// absolute name replaces the path, an empty path takes the name as is.
pub open spec fn join_rel(rel: Seq<char>, name: Seq<char>) -> Seq<char> {
    if name.len() > 0 && name[0] == '/' {
        name
    } else if rel.len() == 0 {
        name
    } else if rel.last() == '/' {
        rel + name
    } else {
        rel + seq!['/'] + name
    }
}

pub fn join_rel_path(rel: &str, name: &str) -> (r: String)
    ensures
        r@ == join_rel(rel@, name@),
{
    let n = chars_of(name);
    let d = chars_of(rel);
    let mut r = String::new();
    if n.len() > 0 && n[0] == '/' {
        r.append(name);
    } else if d.len() == 0 {
        r.append(name);
    } else if d[d.len() - 1] == '/' {
        r.append(rel);
        r.append(name);
    } else {
        r.append(rel);
        append_char(&mut r, '/');
        r.append(name);
    }
    proof {
        assert(r@ =~= join_rel(rel@, name@));
    }
    r
}

pub struct PendingView {
    pub remote: Seq<char>,
    pub rel: Seq<char>,
}

pub struct WalkedView {
    pub remote_path: Seq<char>,
    pub rel_path: Seq<char>,
    pub size: Option<u64>,
    pub mtime: Option<u64>,
}

pub open spec fn pending_views(v: Seq<PendingDir>) -> Seq<PendingView> {
    v.map_values(|p: PendingDir| PendingView { remote: p.remote@, rel: p.rel@ })
}

pub open spec fn walked_views(v: Seq<WalkedFile>) -> Seq<WalkedView> {
    v.map_values(
        |f: WalkedFile|
            WalkedView { remote_path: f.remote_path@, rel_path: f.rel_path@, size: f.size, mtime: f.mtime },
    )
}

/// The subdirectories of one listing, in listing order.
pub open spec fn listed_dirs(remote_dir: Seq<char>, rel_dir: Seq<char>, es: Seq<RemoteEntry>) -> Seq<PendingView>
    decreases es.len(),
{
    if es.len() == 0 {
        Seq::empty()
    } else {
        let prev = listed_dirs(remote_dir, rel_dir, es.drop_last());
        let e = es.last();
        if e.metadata.kind == RemoteFileKind::Dir {
            prev.push(
                PendingView {
                    remote: remote_dir + seq!['/'] + e.name@,
                    rel: join_rel(rel_dir, e.name@),
                },
            )
        } else {
            prev
        }
    }
}

/// The regular files of one listing, in listing order.
pub open spec fn listed_files(remote_dir: Seq<char>, rel_dir: Seq<char>, es: Seq<RemoteEntry>) -> Seq<WalkedView>
    decreases es.len(),
{
    if es.len() == 0 {
        Seq::empty()
    } else {
        let prev = listed_files(remote_dir, rel_dir, es.drop_last());
        let e = es.last();
        if e.metadata.kind == RemoteFileKind::File {
            prev.push(
                WalkedView {
                    remote_path: remote_dir + seq!['/'] + e.name@,
                    rel_path: join_rel(rel_dir, e.name@),
                    size: e.metadata.size,
                    mtime: e.metadata.mtime,
                },
            )
        } else {
            prev
        }
    }
}

/// Take in the listing of one directory: its subdirectories join the
/// frontier and its regular files the result; other kinds are skipped.
pub fn take_listing(
    dir: &PendingDir,
    entries: &Vec<RemoteEntry>,
    frontier: &mut Vec<PendingDir>,
    files: &mut Vec<WalkedFile>,
)
    ensures
        pending_views(final(frontier)@) == pending_views(old(frontier)@) + listed_dirs(
            dir.remote@,
            dir.rel@,
            entries@,
        ),
        walked_views(final(files)@) == walked_views(old(files)@) + listed_files(
            dir.remote@,
            dir.rel@,
            entries@,
        ),
{
    let ghost f0 = pending_views(frontier@);
    let ghost w0 = walked_views(files@);
    let mut i: usize = 0;
    proof {
        assert(entries@.take(0) =~= Seq::<RemoteEntry>::empty());
        assert(f0 + listed_dirs(dir.remote@, dir.rel@, entries@.take(0)) =~= f0);
        assert(w0 + listed_files(dir.remote@, dir.rel@, entries@.take(0)) =~= w0);
    }
    while i < entries.len()
        invariant
            i <= entries@.len(),
            pending_views(frontier@) == f0 + listed_dirs(dir.remote@, dir.rel@, entries@.take(i as int)),
            walked_views(files@) == w0 + listed_files(dir.remote@, dir.rel@, entries@.take(i as int)),
        decreases entries@.len() - i,
    {
        proof {
            assert(entries@.take(i + 1).drop_last() =~= entries@.take(i as int));
        }
        let e = &entries[i];
        let mut child_remote = dir.remote.clone();
        append_char(&mut child_remote, '/');
        child_remote.append(e.name.as_str());
        proof {
            assert(child_remote@ =~= dir.remote@ + seq!['/'] + e.name@);
        }
        let child_rel = join_rel_path(dir.rel.as_str(), e.name.as_str());
        match e.metadata.kind {
            RemoteFileKind::Dir => {
                let ghost before = frontier@;
                let p = PendingDir { remote: child_remote, rel: child_rel };
                frontier.push(p);
                proof {
                    assert(pending_views(frontier@) =~= pending_views(before).push(
                        PendingView { remote: p.remote@, rel: p.rel@ },
                    ));
                }
            },
            RemoteFileKind::File => {
                let ghost before = files@;
                let f = WalkedFile {
                    remote_path: child_remote,
                    rel_path: child_rel,
                    size: e.metadata.size,
                    mtime: e.metadata.mtime,
                };
                files.push(f);
                proof {
                    assert(walked_views(files@) =~= walked_views(before).push(
                        WalkedView {
                            remote_path: f.remote_path@,
                            rel_path: f.rel_path@,
                            size: f.size,
                            mtime: f.mtime,
                        },
                    ));
                }
            },
            RemoteFileKind::Other => {},
        }
        i = i + 1;
    }
    proof {
        assert(entries@.take(entries@.len() as int) =~= entries@);
    }
}

/// The subdirectories a listing model gives for directory `d`.
pub open spec fn dirs_of(ls: spec_fn(Seq<char>) -> Seq<RemoteEntry>, d: PendingView) -> Seq<
    PendingView,
> {
    listed_dirs(d.remote, d.rel, ls(d.remote))
}

/// The regular files a listing model gives for directory `d`.
pub open spec fn files_of(ls: spec_fn(Seq<char>) -> Seq<RemoteEntry>, d: PendingView) -> Seq<
    WalkedView,
> {
    listed_files(d.remote, d.rel, ls(d.remote))
}

/// Every regular file at any depth below `d`, when its tree is at most `h`
/// levels deep: its own files, then those below each subdirectory.
pub open spec fn tree_files(ls: spec_fn(Seq<char>) -> Seq<RemoteEntry>, d: PendingView, h: nat) -> Seq<
    WalkedView,
>
    decreases h, 0int,
{
    if h == 0 {
        Seq::empty()
    } else {
        files_of(ls, d) + frontier_files(ls, dirs_of(ls, d), (h - 1) as nat)
    }
}

/// The files below each directory of `f`, in order.
pub open spec fn frontier_files(ls: spec_fn(Seq<char>) -> Seq<RemoteEntry>, f: Seq<PendingView>, h: nat) -> Seq<
    WalkedView,
>
    decreases h, f.len() + 1,
{
    if f.len() == 0 {
        Seq::empty()
    } else {
        frontier_files(ls, f.drop_last(), h) + tree_files(ls, f.last(), h)
    }
}

/// The tree below `d` is at most `h` levels deep.
pub open spec fn height_within(ls: spec_fn(Seq<char>) -> Seq<RemoteEntry>, d: PendingView, h: nat) -> bool
    decreases h, 0int,
{
    h > 0 && all_within(ls, dirs_of(ls, d), (h - 1) as nat)
}

/// The trees below every directory of `f` are at most `h` levels deep.
pub open spec fn all_within(ls: spec_fn(Seq<char>) -> Seq<RemoteEntry>, f: Seq<PendingView>, h: nat) -> bool
    decreases h, f.len() + 1,
{
    f.len() == 0 || (all_within(ls, f.drop_last(), h) && height_within(ls, f.last(), h))
}

/// `n` rounds of the walk: take the last directory of the frontier, list
/// it, and hand the listing to `take_listing`; stop once the frontier is
/// empty.
pub open spec fn walk_steps(
    ls: spec_fn(Seq<char>) -> Seq<RemoteEntry>,
    frontier: Seq<PendingView>,
    files: Seq<WalkedView>,
    n: nat,
) -> (Seq<PendingView>, Seq<WalkedView>)
    decreases n,
{
    if n == 0 || frontier.len() == 0 {
        (frontier, files)
    } else {
        let d = frontier.last();
        walk_steps(ls, frontier.drop_last() + dirs_of(ls, d), files + files_of(ls, d), (n - 1) as nat)
    }
}

proof fn lemma_all_within(ls: spec_fn(Seq<char>) -> Seq<RemoteEntry>, f: Seq<PendingView>, h: nat)
    ensures
        all_within(ls, f, h) <==> forall|k: int| 0 <= k < f.len() ==> #[trigger] height_within(ls, f[k], h),
    decreases f.len(),
{
    if f.len() > 0 {
        lemma_all_within(ls, f.drop_last(), h);
        if forall|k: int| 0 <= k < f.len() ==> #[trigger] height_within(ls, f[k], h) {
            assert forall|k: int| 0 <= k < f.drop_last().len() implies #[trigger] height_within(
                ls,
                f.drop_last()[k],
                h,
            ) by {
                assert(f.drop_last()[k] == f[k]);
            }
            assert(height_within(ls, f[f.len() - 1], h));
        }
        if all_within(ls, f, h) {
            assert forall|k: int| 0 <= k < f.len() implies #[trigger] height_within(ls, f[k], h) by {
                if k < f.len() - 1 {
                    assert(f.drop_last()[k] == f[k]);
                }
            }
        }
    }
}

proof fn lemma_height_unfold(ls: spec_fn(Seq<char>) -> Seq<RemoteEntry>, d: PendingView, h: nat)
    requires
        height_within(ls, d, h),
    ensures
        h > 0,
        forall|k: int|
            0 <= k < dirs_of(ls, d).len() ==> #[trigger] height_within(
                ls,
                dirs_of(ls, d)[k],
                (h - 1) as nat,
            ),
{
    lemma_all_within(ls, dirs_of(ls, d), (h - 1) as nat);
}

proof fn lemma_height_mono(ls: spec_fn(Seq<char>) -> Seq<RemoteEntry>, d: PendingView, h: nat)
    requires
        height_within(ls, d, h),
    ensures
        height_within(ls, d, h + 1),
    decreases h,
{
    let ds = dirs_of(ls, d);
    lemma_height_unfold(ls, d, h);
    assert forall|k: int| 0 <= k < ds.len() implies #[trigger] height_within(ls, ds[k], h) by {
        assert(height_within(ls, ds[k], (h - 1) as nat));
        lemma_height_mono(ls, ds[k], (h - 1) as nat);
    }
    lemma_all_within(ls, ds, h);
}

proof fn lemma_tree_mono(ls: spec_fn(Seq<char>) -> Seq<RemoteEntry>, d: PendingView, h: nat)
    requires
        height_within(ls, d, h),
    ensures
        tree_files(ls, d, h + 1) == tree_files(ls, d, h),
    decreases h, 0int,
{
    let ds = dirs_of(ls, d);
    lemma_height_unfold(ls, d, h);
    lemma_frontier_mono(ls, ds, (h - 1) as nat);
}

proof fn lemma_frontier_mono(ls: spec_fn(Seq<char>) -> Seq<RemoteEntry>, f: Seq<PendingView>, h: nat)
    requires
        forall|k: int| 0 <= k < f.len() ==> #[trigger] height_within(ls, f[k], h),
    ensures
        frontier_files(ls, f, h + 1) == frontier_files(ls, f, h),
    decreases h, f.len() + 1,
{
    if f.len() > 0 {
        assert forall|k: int| 0 <= k < f.drop_last().len() implies #[trigger] height_within(
            ls,
            f.drop_last()[k],
            h,
        ) by {
            assert(f.drop_last()[k] == f[k]);
        }
        lemma_frontier_mono(ls, f.drop_last(), h);
        assert(height_within(ls, f[f.len() - 1], h));
        lemma_tree_mono(ls, f.last(), h);
    }
}

proof fn lemma_frontier_concat(
    ls: spec_fn(Seq<char>) -> Seq<RemoteEntry>,
    a: Seq<PendingView>,
    b: Seq<PendingView>,
    h: nat,
)
    ensures
        frontier_files(ls, a + b, h) == frontier_files(ls, a, h) + frontier_files(ls, b, h),
    decreases b.len(),
{
    if b.len() == 0 {
        assert(a + b =~= a);
        assert(frontier_files(ls, a, h) + frontier_files(ls, b, h) =~= frontier_files(ls, a, h));
    } else {
        assert((a + b).drop_last() =~= a + b.drop_last());
        assert((a + b).last() == b.last());
        lemma_frontier_concat(ls, a, b.drop_last(), h);
        assert(frontier_files(ls, a, h) + frontier_files(ls, b, h) =~= frontier_files(ls, a, h)
            + frontier_files(ls, b.drop_last(), h) + tree_files(ls, b.last(), h));
    }
}

proof fn lemma_walk_keeps_files(
    ls: spec_fn(Seq<char>) -> Seq<RemoteEntry>,
    f: Seq<PendingView>,
    files: Seq<WalkedView>,
    n: nat,
    h: nat,
)
    requires
        forall|k: int| 0 <= k < f.len() ==> #[trigger] height_within(ls, f[k], h),
    ensures
        walk_steps(ls, f, files, n).0.len() == 0 ==> walk_steps(ls, f, files, n).1.to_multiset()
            == (files + frontier_files(ls, f, h)).to_multiset(),
    decreases n,
{
    broadcast use vstd::seq_lib::lemma_multiset_commutative;

    if n == 0 || f.len() == 0 {
        if f.len() == 0 {
            assert(files + frontier_files(ls, f, h) =~= files);
        }
    } else {
        let d = f.last();
        let g = f.drop_last();
        let ds = dirs_of(ls, d);
        let f2 = g + ds;
        let files2 = files + files_of(ls, d);
        assert(height_within(ls, f[f.len() - 1], h));
        lemma_height_unfold(ls, d, h);
        assert forall|k: int| 0 <= k < ds.len() implies #[trigger] height_within(ls, ds[k], h) by {
            lemma_height_mono(ls, ds[k], (h - 1) as nat);
        }
        assert forall|k: int| 0 <= k < f2.len() implies #[trigger] height_within(ls, f2[k], h) by {
            if k < g.len() {
                assert(f2[k] == f[k]);
            } else {
                assert(f2[k] == ds[k - g.len()]);
            }
        }
        lemma_walk_keeps_files(ls, f2, files2, (n - 1) as nat, h);
        lemma_frontier_concat(ls, g, ds, h);
        lemma_frontier_mono(ls, ds, (h - 1) as nat);
        let a = files;
        let b = files_of(ls, d);
        let c = frontier_files(ls, g, h);
        let e = frontier_files(ls, ds, h);
        assert(f.last() == d);
        assert(frontier_files(ls, f, h) == c + tree_files(ls, d, h));
        assert(tree_files(ls, d, h) == b + frontier_files(ls, ds, (h - 1) as nat));
        assert(e == frontier_files(ls, ds, (h - 1) as nat));
        assert(frontier_files(ls, f, h) == c + (b + e));
        assert(files2 + frontier_files(ls, f2, h) == (a + b) + (c + e));
        assert(((a + b) + (c + e)).to_multiset() =~= (a + (c + (b + e))).to_multiset());
    }
}

/// A walk from `root` that runs until its frontier is empty finds every
/// regular file below the root, at any depth, exactly once: its files are
/// those of the tree, counted with multiplicity, in some order. `ls` models
/// what listing each remote directory gives; the tree is at most `h`
/// levels deep.
pub proof fn law_walk_finds_every_file_once(
    ls: spec_fn(Seq<char>) -> Seq<RemoteEntry>,
    root: Seq<char>,
    h: nat,
    n: nat,
)
    requires
        height_within(ls, PendingView { remote: trim_trailing_slashes(root), rel: Seq::empty() }, h),
        walk_steps(
            ls,
            seq![PendingView { remote: trim_trailing_slashes(root), rel: Seq::empty() }],
            Seq::empty(),
            n,
        ).0.len() == 0,
    ensures
        walk_steps(
            ls,
            seq![PendingView { remote: trim_trailing_slashes(root), rel: Seq::empty() }],
            Seq::empty(),
            n,
        ).1.to_multiset() == tree_files(
            ls,
            PendingView { remote: trim_trailing_slashes(root), rel: Seq::empty() },
            h,
        ).to_multiset(),
{
    let r = PendingView { remote: trim_trailing_slashes(root), rel: Seq::empty() };
    let f = seq![r];
    assert(f[0] == r);
    lemma_walk_keeps_files(ls, f, Seq::empty(), n, h);
    assert(f.drop_last() =~= Seq::<PendingView>::empty());
    assert(frontier_files(ls, f.drop_last(), h) == Seq::<WalkedView>::empty());
    assert(f.last() == r);
    assert(frontier_files(ls, f, h) == Seq::<WalkedView>::empty() + tree_files(ls, r, h));
    assert(frontier_files(ls, f, h) =~= tree_files(ls, r, h));
    assert(Seq::<WalkedView>::empty() + frontier_files(ls, f, h) =~= tree_files(ls, r, h));
}

} // verus!
