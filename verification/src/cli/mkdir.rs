//! Planning of `mkdir <path> [--parents]`: which folders to create, with
//! which parents and paths.
//!
//! With `--parents`, missing intermediate folders are planned too and an
//! existing path is a no-op; without it, intermediates must exist and the
//! leaf must not.

use vstd::prelude::*;

use crate::cli::error::{CliError, CliErrorView};
use crate::cli::labels::{spec_type_label, type_label};
use crate::metadata::path_resolver::{
    ambiguous_error, ambiguous_message, path_segments, quote_into, quoted, split_segments,
};
use crate::metadata::suggest::views;
use crate::metadata::tree::{
    spec_is_folder, spec_lookup_child, ChildLookup, DocumentTree, EntryView, LookupView, Parent,
};
use crate::text::{append_char, chars_of, str_eq};

verus! {

/// One folder queued for creation. Its UUID is chosen up front so folders
/// below it in the same path can name it as their parent.
#[derive(Debug, Clone)]
pub struct PendingFolder {
    pub uuid: u128,
    pub name: String,
    pub parent: Parent,
    pub path: String,
}

pub struct PendingView {
    pub uuid: u128,
    pub name: Seq<char>,
    pub parent: Parent,
    pub path: Seq<char>,
}

impl View for PendingFolder {
    type V = PendingView;

    open spec fn view(&self) -> PendingView {
        PendingView { uuid: self.uuid, name: self.name@, parent: self.parent, path: self.path@ }
    }
}

/// A folder that was written, as reported to the user.
#[derive(Debug, Clone)]
pub struct CreatedFolder {
    pub uuid: u128,
    pub name: String,
    pub path: String,
    pub parent_uuid: Option<u128>,
}

impl CreatedFolder {
    /// The report for a planned folder once it is written.
    pub fn from_pending(p: &PendingFolder) -> (c: CreatedFolder)
        ensures
            c.uuid == p.uuid,
            c.name@ == p.name@,
            c.path@ == p.path@,
            c.parent_uuid == (match p.parent {
                Parent::Folder(u) => Some(u),
                _ => None,
            }),
    {
        CreatedFolder {
            uuid: p.uuid,
            name: p.name.clone(),
            path: p.path.clone(),
            parent_uuid: match p.parent {
                Parent::Folder(u) => Some(u),
                _ => None,
            },
        }
    }
}

/// Outcome of `mkdir`: the requested path and the folders created (none
/// when `--parents` found the whole path in place).
#[derive(Debug, Clone)]
pub struct MkdirOutput {
    pub path: String,
    pub created: Vec<CreatedFolder>,
}

pub open spec fn is_a_message(seg: Seq<char>, label: Seq<char>) -> Seq<char> {
    quoted(seg) + " is a "@ + label + ", not a folder"@
}

pub open spec fn exists_message(path: Seq<char>) -> Seq<char> {
    "folder already exists: "@ + path
}

pub open spec fn intermediate_message(seg: Seq<char>, path: Seq<char>) -> Seq<char> {
    "intermediate folder "@ + quoted(seg) + " missing in "@ + path + "; pass --parents"@
}

/// Plan the segments from `i` on below `cur`, whose path is `cur_path`;
/// `ids[used..]` are the UUIDs still free for new folders.
pub open spec fn plan_walk(
    es: Seq<EntryView>,
    segs: Seq<Seq<char>>,
    parents: bool,
    ids: Seq<u128>,
    i: nat,
    cur: Parent,
    cur_path: Seq<char>,
    used: nat,
    acc: Seq<PendingView>,
) -> Result<Seq<PendingView>, CliErrorView>
    decreases segs.len() - i,
{
    if i >= segs.len() {
        Ok(acc)
    } else {
        let seg = segs[i as int];
        let path = cur_path + seq!['/'] + seg;
        let last = i + 1 == segs.len();
        match spec_lookup_child(es, cur, seg) {
            LookupView::Entry(e) => if !spec_is_folder(e) {
                Err(CliErrorView::InvalidPath(is_a_message(seg, spec_type_label(e.kind))))
            } else if last && !parents {
                Err(CliErrorView::AlreadyExists(exists_message(path)))
            } else {
                plan_walk(es, segs, parents, ids, i + 1, Parent::Folder(e.uuid), path, used, acc)
            },
            LookupView::Ambiguous => Err(CliErrorView::InvalidPath(ambiguous_message(seg))),
            LookupView::Missing => if !last && !parents {
                Err(CliErrorView::NotFound(intermediate_message(seg, path)))
            } else {
                let id = ids[used as int];
                plan_walk(
                    es,
                    segs,
                    parents,
                    ids,
                    i + 1,
                    Parent::Folder(id),
                    path,
                    used + 1,
                    acc.push(PendingView { uuid: id, name: seg, parent: cur, path }),
                )
            },
        }
    }
}

/// The folders `mkdir` creates for `path`, new folders taking their UUIDs
/// from `ids` in order.
pub open spec fn spec_plan_creations(es: Seq<EntryView>, path: Seq<char>, parents: bool, ids: Seq<u128>) -> Result<
    Seq<PendingView>,
    CliErrorView,
> {
    if path.len() == 0 || path[0] != '/' {
        Err(CliErrorView::InvalidPath("path must start with '/': "@ + path))
    } else {
        let segs = path_segments(path);
        if segs.len() == 0 {
            Err(CliErrorView::InvalidPath("cannot mkdir root"@))
        } else if segs[0] == "trash"@ {
            Err(
                CliErrorView::InvalidPath(
                    "cannot mkdir under /trash; trash is a virtual container"@,
                ),
            )
        } else {
            plan_walk(es, segs, parents, ids, 0, Parent::Root, Seq::empty(), 0, Seq::empty())
        }
    }
}

pub open spec fn pending_views(v: Seq<PendingFolder>) -> Seq<PendingView> {
    v.map_values(|p: PendingFolder| p@)
}

pub open spec fn plan_agrees(r: Result<Vec<PendingFolder>, CliError>, s: Result<Seq<PendingView>, CliErrorView>) -> bool {
    match (r, s) {
        (Ok(v), Ok(w)) => pending_views(v@) == w,
        (Err(e), Err(f)) => e@ == f,
        _ => false,
    }
}

fn is_a_error(seg: &str, label: &str) -> (m: String)
    ensures
        m@ == is_a_message(seg@, label@),
{
    let mut m = String::new();
    quote_into(&mut m, seg);
    m.append(" is a ");
    m.append(label);
    m.append(", not a folder");
    proof {
        assert(m@ =~= is_a_message(seg@, label@));
    }
    m
}

/// Plan the folders to create for `path`, taking the UUIDs of new folders
/// from `ids` in order.
pub fn plan_creations_from(tree: &DocumentTree, path: &str, parents: bool, ids: &Vec<u128>) -> (r: Result<Vec<PendingFolder>, CliError>)
    requires
        ids@.len() >= path_segments(path@).len(),
    ensures
        plan_agrees(r, spec_plan_creations(tree@, path@, parents, ids@)),
{
    let chars = chars_of(path);
    if chars.len() == 0 || chars[0] != '/' {
        let mut m = String::new();
        m.append("path must start with '/': ");
        m.append(path);
        return Err(CliError::InvalidPath(m));
    }
    let segs = split_segments(&chars);
    let ghost sv = views(segs@);
    if segs.len() == 0 {
        let mut m = String::new();
        m.append("cannot mkdir root");
        return Err(CliError::InvalidPath(m));
    }
    proof {
        assert(sv[0] == segs@[0]@);
    }
    if str_eq(segs[0].as_str(), "trash") {
        let mut m = String::new();
        m.append("cannot mkdir under /trash; trash is a virtual container");
        return Err(CliError::InvalidPath(m));
    }
    let mut current = Parent::Root;
    let mut current_path = String::new();
    let mut pending: Vec<PendingFolder> = Vec::new();
    let mut used: usize = 0;
    let mut i: usize = 0;
    proof {
        assert(pending_views(pending@) =~= Seq::<PendingView>::empty());
        assert(current_path@ =~= Seq::<char>::empty());
    }
    while i < segs.len()
        invariant
            sv == views(segs@),
            sv == path_segments(path@),
            ids@.len() >= sv.len(),
            i <= sv.len(),
            used <= i,
            spec_plan_creations(tree@, path@, parents, ids@) == plan_walk(
                tree@,
                sv,
                parents,
                ids@,
                i as nat,
                current,
                current_path@,
                used as nat,
                pending_views(pending@),
            ),
        decreases sv.len() - i,
    {
        let seg = segs[i].as_str();
        proof {
            assert(seg@ == sv[i as int]);
        }
        let ghost prev_path = current_path@;
        append_char(&mut current_path, '/');
        current_path.append(seg);
        proof {
            assert(current_path@ =~= prev_path + seq!['/'] + seg@);
        }
        let is_last = i + 1 == segs.len();
        match tree.lookup_child(&current, seg) {
            ChildLookup::Entry(e) => {
                if !e.is_folder() {
                    let label = type_label(&e.kind);
                    return Err(CliError::InvalidPath(is_a_error(seg, label)));
                }
                if is_last && !parents {
                    let mut m = String::new();
                    m.append("folder already exists: ");
                    m.append(current_path.as_str());
                    return Err(CliError::AlreadyExists(m));
                }
                current = Parent::Folder(e.uuid);
            },
            ChildLookup::Ambiguous => {
                return Err(CliError::InvalidPath(ambiguous_error(seg)));
            },
            ChildLookup::Missing => {
                if !is_last && !parents {
                    let mut m = String::new();
                    m.append("intermediate folder ");
                    quote_into(&mut m, seg);
                    m.append(" missing in ");
                    m.append(current_path.as_str());
                    m.append("; pass --parents");
                    proof {
                        assert(m@ =~= intermediate_message(seg@, current_path@));
                    }
                    return Err(CliError::NotFound(m));
                }
                let uuid = ids[used];
                let ghost before = pending@;
                let p = PendingFolder {
                    uuid,
                    name: segs[i].clone(),
                    parent: current,
                    path: current_path.clone(),
                };
                pending.push(p);
                proof {
                    assert(pending_views(pending@) =~= pending_views(before).push(p@));
                }
                current = Parent::Folder(uuid);
                used = used + 1;
            },
        }
        i = i + 1;
    }
    Ok(pending)
}

/// A random (version 4, RFC 4122 variant) UUID: the version nibble is 4
/// and the two top bits of the variant are `10`; the other bits are free.
pub open spec fn is_random_uuid(u: u128) -> bool {
    u & 0x0000_0000_0000_F000_C000_0000_0000_0000u128 == 0x0000_0000_0000_4000_8000_0000_0000_0000u128
}

/// Every planned folder from `i` on takes a random UUID.
pub open spec fn all_random(v: Seq<PendingView>) -> bool {
    forall|k: int| 0 <= k < v.len() ==> is_random_uuid(#[trigger] v[k].uuid)
}

/// Planning from any point keeps every UUID random when the folders already
/// planned and the UUIDs still to hand out are random.
proof fn lemma_plan_walk_random(
    es: Seq<EntryView>,
    segs: Seq<Seq<char>>,
    parents: bool,
    ids: Seq<u128>,
    i: nat,
    cur: Parent,
    cur_path: Seq<char>,
    used: nat,
    acc: Seq<PendingView>,
)
    requires
        all_random(acc),
        used <= i,
        ids.len() >= segs.len(),
        forall|k: int| 0 <= k < ids.len() ==> is_random_uuid(#[trigger] ids[k]),
    ensures
        plan_walk(es, segs, parents, ids, i, cur, cur_path, used, acc) matches Ok(w) ==> all_random(
            w,
        ),
    decreases segs.len() - i,
{
    if i < segs.len() {
        let seg = segs[i as int];
        let path = cur_path + seq!['/'] + seg;
        match spec_lookup_child(es, cur, seg) {
            LookupView::Entry(e) => {
                lemma_plan_walk_random(
                    es,
                    segs,
                    parents,
                    ids,
                    i + 1,
                    Parent::Folder(e.uuid),
                    path,
                    used,
                    acc,
                );
            },
            LookupView::Missing => {
                let id = ids[used as int];
                let next = acc.push(PendingView { uuid: id, name: seg, parent: cur, path });
                assert(all_random(next)) by {
                    assert forall|k: int| 0 <= k < next.len() implies is_random_uuid(
                        #[trigger] next[k].uuid,
                    ) by {
                        if k < acc.len() {
                            assert(next[k] == acc[k]);
                        }
                    }
                }
                lemma_plan_walk_random(
                    es,
                    segs,
                    parents,
                    ids,
                    i + 1,
                    Parent::Folder(id),
                    path,
                    used + 1,
                    next,
                );
            },
            LookupView::Ambiguous => {},
        }
    }
}

/// Calls `uuid::Uuid::new_v4` and gives the UUID as its 128-bit value.
/// Claimed: the version and variant bits that `new_v4` always sets (it masks
/// a random value with `0xFFFFFFFFFFFF4FFFBFFFFFFFFFFFFFFF` and sets
/// `0x40008000000000000000`); the other bits are random and nothing is
/// claimed of them.
#[verifier::external_body]
fn new_folder_uuid() -> (u: u128)
    ensures
        is_random_uuid(u),
{
    uuid::Uuid::new_v4().as_u128()
}

/// Plan the folders to create for `path`. New folders get fresh random
/// UUIDs; whatever they are, the plan is the one `spec_plan_creations`
/// gives for them.
pub fn plan_creations(tree: &DocumentTree, path: &str, parents: bool) -> (r: Result<Vec<PendingFolder>, CliError>)
    ensures
        exists|ids: Seq<u128>|
            ids.len() == path_segments(path@).len() && (forall|k: int|
                0 <= k < ids.len() ==> is_random_uuid(#[trigger] ids[k])) && #[trigger] plan_agrees(
                r,
                spec_plan_creations(tree@, path@, parents, ids),
            ),
        r matches Ok(v) ==> all_random(pending_views(v@)),
{
    let chars = chars_of(path);
    let segs = split_segments(&chars);
    let mut ids: Vec<u128> = Vec::new();
    let mut k: usize = 0;
    while k < segs.len()
        invariant
            k <= segs@.len(),
            ids@.len() == k,
            forall|j: int| 0 <= j < ids@.len() ==> is_random_uuid(#[trigger] ids@[j]),
        decreases segs@.len() - k,
    {
        ids.push(new_folder_uuid());
        k = k + 1;
    }
    proof {
        assert(views(segs@).len() == segs@.len());
    }
    let r = plan_creations_from(tree, path, parents, &ids);
    proof {
        assert(plan_agrees(r, spec_plan_creations(tree@, path@, parents, ids@)));
        lemma_plan_walk_random(
            tree@,
            path_segments(path@),
            parents,
            ids@,
            0,
            Parent::Root,
            Seq::empty(),
            0,
            Seq::empty(),
        );
    }
    r
}

} // verus!
