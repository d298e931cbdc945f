//! Planning of `rm <paths>... [--permanent] [--recursive]`.
//!
//! A soft delete moves each target to the trash; a permanent delete wipes
//! every file of the targets (and, with `--recursive`, of everything below
//! them). A non-empty folder needs `--recursive` in both modes.

use vstd::prelude::*;

use crate::cli::error::{spec_from_metadata, CliError, CliErrorView};
use crate::cli::mv::{display_path_or_name, path_or_name};
use crate::metadata::path_resolver::{quote_into, quoted, resolve, spec_resolve, Resolved};
use crate::metadata::suggest::views;
use crate::metadata::tree::{
    children_of, entries_below, spec_is_folder, DocumentEntry, DocumentTree, EntryView,
    ItemKind, Parent,
};
use crate::metadata::uuid_text::{spec_uuid_text, uuid_text};
use crate::tablet::remote::{RemoteEntry, RemoteFileKind};
use crate::text::{append_char, chars_of, chars_eq};

verus! {

/// One deleted item, as reported to the user.
#[derive(Debug, Clone)]
pub struct DeletedItem {
    pub uuid: u128,
    pub name: String,
    pub path: String,
    pub kind: ItemKind,
}

pub struct DeletedView {
    pub uuid: u128,
    pub name: Seq<char>,
    pub path: Seq<char>,
    pub kind: ItemKind,
}

impl View for DeletedItem {
    type V = DeletedView;

    open spec fn view(&self) -> DeletedView {
        DeletedView { uuid: self.uuid, name: self.name@, path: self.path@, kind: self.kind }
    }
}

pub open spec fn spec_deleted_item(es: Seq<EntryView>, e: EntryView) -> DeletedView {
    DeletedView { uuid: e.uuid, name: e.name, path: path_or_name(es, e), kind: e.kind }
}

impl DeletedItem {
    pub fn from_entry(tree: &DocumentTree, entry: &DocumentEntry) -> (d: DeletedItem)
        ensures
            d@ == spec_deleted_item(tree@, entry@),
    {
        DeletedItem {
            uuid: entry.uuid,
            name: entry.visible_name.clone(),
            path: display_path_or_name(tree, entry),
            kind: entry.kind,
        }
    }
}

/// Outcome of `rm`. `descendant_uuids_removed` counts the extra UUIDs a
/// recursive permanent delete wiped beyond the targets themselves.
#[derive(Debug, Clone)]
pub struct RmOutput {
    pub permanent: bool,
    pub deleted: Vec<DeletedItem>,
    pub descendant_uuids_removed: Option<usize>,
    pub no_op: bool,
}

/// A checked `rm`: the report, the UUIDs whose files to wipe (permanent
/// delete) and those to move to the trash (soft delete).
#[derive(Debug, Clone)]
pub struct RmPlan {
    pub output: RmOutput,
    pub wipe: Vec<u128>,
    pub trash: Vec<u128>,
}

pub struct RmView {
    pub permanent: bool,
    pub deleted: Seq<DeletedView>,
    pub descendant_uuids_removed: Option<usize>,
    pub no_op: bool,
    pub wipe: Seq<u128>,
    pub trash: Seq<u128>,
}

pub open spec fn deleted_views(v: Seq<DeletedItem>) -> Seq<DeletedView> {
    v.map_values(|d: DeletedItem| d@)
}

impl View for RmPlan {
    type V = RmView;

    open spec fn view(&self) -> RmView {
        RmView {
            permanent: self.output.permanent,
            deleted: deleted_views(self.output.deleted@),
            descendant_uuids_removed: self.output.descendant_uuids_removed,
            no_op: self.output.no_op,
            wipe: self.wipe@,
            trash: self.trash@,
        }
    }
}

pub open spec fn entry_views(v: Seq<&DocumentEntry>) -> Seq<EntryView> {
    v.map_values(|e: &DocumentEntry| e@)
}

pub open spec fn has_uuid(es: Seq<EntryView>, u: u128) -> bool {
    exists|k: int| 0 <= k < es.len() && es[k].uuid == u
}

/// Resolve `paths[i..]`, keeping the first of several inputs that name the
/// same entry.
pub open spec fn targets_from(es: Seq<EntryView>, paths: Seq<Seq<char>>, i: nat, acc: Seq<EntryView>) -> Result<
    Seq<EntryView>,
    CliErrorView,
>
    decreases paths.len() - i,
{
    if i >= paths.len() {
        Ok(acc)
    } else {
        match spec_resolve(es, paths[i as int]) {
            Err(e) => Err(spec_from_metadata(e)),
            Ok(None) => Err(CliErrorView::InvalidPath("cannot rm root"@)),
            Ok(Some(e)) => targets_from(
                es,
                paths,
                i + 1,
                if has_uuid(acc, e.uuid) {
                    acc
                } else {
                    acc.push(e)
                },
            ),
        }
    }
}

pub open spec fn spec_resolve_targets(es: Seq<EntryView>, paths: Seq<Seq<char>>) -> Result<Seq<EntryView>, CliErrorView> {
    targets_from(es, paths, 0, Seq::empty())
}

fn holds_uuid(v: &Vec<&DocumentEntry>, u: u128) -> (b: bool)
    ensures
        b == has_uuid(entry_views(v@), u),
{
    let mut k: usize = 0;
    while k < v.len()
        invariant
            k <= v@.len(),
            forall|j: int| 0 <= j < k ==> v@[j].uuid != u,
        decreases v@.len() - k,
    {
        if v[k].uuid == u {
            assert(entry_views(v@)[k as int].uuid == u);
            return true;
        }
        k = k + 1;
    }
    assert forall|j: int| 0 <= j < entry_views(v@).len() implies entry_views(v@)[j].uuid != u by {
        assert(entry_views(v@)[j] == v@[j]@);
    }
    false
}

/// Resolve every input to an entry, once per entry.
pub fn resolve_targets<'a>(tree: &'a DocumentTree, paths: &Vec<String>) -> (r: Result<Vec<&'a DocumentEntry>, CliError>)
    ensures
        match (r, spec_resolve_targets(tree@, views(paths@))) {
            (Ok(v), Ok(w)) => entry_views(v@) == w,
            (Err(e), Err(f)) => e@ == f,
            _ => false,
        },
{
    let ghost pv = views(paths@);
    let mut out: Vec<&DocumentEntry> = Vec::new();
    let mut i: usize = 0;
    proof {
        assert(entry_views(out@) =~= Seq::<EntryView>::empty());
    }
    while i < paths.len()
        invariant
            pv == views(paths@),
            i <= pv.len(),
            spec_resolve_targets(tree@, pv) == targets_from(tree@, pv, i as nat, entry_views(out@)),
        decreases pv.len() - i,
    {
        proof {
            assert(paths@[i as int]@ == pv[i as int]);
        }
        match resolve(tree, paths[i].as_str()) {
            Err(e) => {
                return Err(CliError::from_metadata(e));
            },
            Ok(Resolved::Root) => {
                let mut m = String::new();
                m.append("cannot rm root");
                return Err(CliError::InvalidPath(m));
            },
            Ok(Resolved::Entry(e)) => {
                if !holds_uuid(&out, e.uuid) {
                    let ghost before = out@;
                    out.push(e);
                    proof {
                        assert(entry_views(out@) =~= entry_views(before).push(e@));
                    }
                }
            },
        }
        i = i + 1;
    }
    Ok(out)
}

pub open spec fn not_empty_message(name: Seq<char>) -> Seq<char> {
    "folder "@ + quoted(name) + " is not empty; pass --recursive to delete it"@
}

/// The first of `ts[i..]` that is a non-empty folder, as an error.
pub open spec fn gate_from(es: Seq<EntryView>, ts: Seq<EntryView>, i: nat) -> Option<CliErrorView>
    decreases ts.len() - i,
{
    if i >= ts.len() {
        None
    } else {
        let t = ts[i as int];
        if spec_is_folder(t) && children_of(es, Parent::Folder(t.uuid)).len() > 0 {
            Some(CliErrorView::InvalidPath(not_empty_message(t.name)))
        } else {
            gate_from(es, ts, i + 1)
        }
    }
}

/// Without `--recursive`, refuse a non-empty folder among the targets.
pub open spec fn spec_recursive_gate(es: Seq<EntryView>, ts: Seq<EntryView>, recursive: bool) -> Option<CliErrorView> {
    if recursive {
        None
    } else {
        gate_from(es, ts, 0)
    }
}

pub fn enforce_recursive_gate(tree: &DocumentTree, targets: &Vec<&DocumentEntry>, recursive: bool) -> (r: Result<(), CliError>)
    ensures
        match (r, spec_recursive_gate(tree@, entry_views(targets@), recursive)) {
            (Ok(()), None) => true,
            (Err(e), Some(f)) => e@ == f,
            _ => false,
        },
{
    if recursive {
        return Ok(());
    }
    let ghost ts = entry_views(targets@);
    let mut i: usize = 0;
    while i < targets.len()
        invariant
            !recursive,
            ts == entry_views(targets@),
            i <= ts.len(),
            gate_from(tree@, ts, 0) == gate_from(tree@, ts, i as nat),
        decreases ts.len() - i,
    {
        let t = targets[i];
        proof {
            assert(ts[i as int] == t@);
        }
        if t.is_folder() && tree.children_count(&Parent::Folder(t.uuid)) > 0 {
            let mut m = String::new();
            m.append("folder ");
            quote_into(&mut m, t.visible_name.as_str());
            m.append(" is not empty; pass --recursive to delete it");
            proof {
                assert(m@ =~= not_empty_message(t@.name));
                assert(gate_from(tree@, ts, i as nat) == Some(
                    CliErrorView::InvalidPath(not_empty_message(t@.name)),
                ));
            }
            return Err(CliError::InvalidPath(m));
        }
        i = i + 1;
    }
    Ok(())
}

pub open spec fn add_new(acc: Seq<u128>, u: u128) -> Seq<u128> {
    if acc.contains(u) {
        acc
    } else {
        acc.push(u)
    }
}

/// `acc` extended by the UUIDs of `ds` not yet in it, in order.
pub open spec fn add_all(acc: Seq<u128>, ds: Seq<EntryView>) -> Seq<u128>
    decreases ds.len(),
{
    if ds.len() == 0 {
        acc
    } else {
        add_new(add_all(acc, ds.drop_last()), ds.last().uuid)
    }
}

/// The UUIDs a permanent delete wipes: each target, then (with
/// `--recursive`) everything below a folder target; each UUID once.
pub open spec fn spec_expand_for_permanent(es: Seq<EntryView>, ts: Seq<EntryView>, recursive: bool) -> Seq<u128>
    decreases ts.len(),
{
    if ts.len() == 0 {
        Seq::empty()
    } else {
        let t = ts.last();
        let with_t = add_new(spec_expand_for_permanent(es, ts.drop_last(), recursive), t.uuid);
        if recursive && spec_is_folder(t) {
            add_all(with_t, entries_below(es, t.uuid))
        } else {
            with_t
        }
    }
}

fn push_new(out: &mut Vec<u128>, u: u128)
    ensures
        final(out)@ == add_new(old(out)@, u),
{
    let mut k: usize = 0;
    while k < out.len()
        invariant
            k <= out@.len(),
            out@ == old(out)@,
            forall|j: int| 0 <= j < k ==> out@[j] != u,
        decreases out@.len() - k,
    {
        if out[k] == u {
            assert(out@.contains(u)) by {
                assert(out@[k as int] == u);
            }
            return;
        }
        k = k + 1;
    }
    out.push(u);
}

pub fn expand_for_permanent(tree: &DocumentTree, targets: &Vec<&DocumentEntry>, recursive: bool) -> (r: Vec<u128>)
    ensures
        r@ == spec_expand_for_permanent(tree@, entry_views(targets@), recursive),
{
    let ghost ts = entry_views(targets@);
    let mut out: Vec<u128> = Vec::new();
    let mut i: usize = 0;
    while i < targets.len()
        invariant
            ts == entry_views(targets@),
            i <= ts.len(),
            out@ == spec_expand_for_permanent(tree@, ts.take(i as int), recursive),
        decreases ts.len() - i,
    {
        let t = targets[i];
        proof {
            assert(ts.take(i + 1).drop_last() =~= ts.take(i as int));
            assert(ts.take(i + 1).last() == t@);
        }
        push_new(&mut out, t.uuid);
        if recursive && t.is_folder() {
            let below = tree.descendants(t.uuid);
            let ghost ds = entry_views(below@);
            let ghost base = out@;
            let mut j: usize = 0;
            while j < below.len()
                invariant
                    ds == entry_views(below@),
                    j <= ds.len(),
                    out@ == add_all(base, ds.take(j as int)),
                decreases ds.len() - j,
            {
                proof {
                    assert(ds.take(j + 1).drop_last() =~= ds.take(j as int));
                    assert(ds.take(j + 1).last() == below@[j as int]@);
                }
                push_new(&mut out, below[j].uuid);
                j = j + 1;
            }
            proof {
                assert(ds.take(ds.len() as int) =~= ds);
            }
        }
        i = i + 1;
    }
    proof {
        assert(ts.take(ts.len() as int) =~= ts);
    }
    out
}

/// Already soft-deleted: in the trash and flagged deleted.
pub open spec fn spec_already_trashed(e: EntryView) -> bool {
    e.parent == Parent::Trash && e.deleted
}

pub fn is_already_trashed(e: &DocumentEntry) -> (b: bool)
    ensures
        b == spec_already_trashed(e@),
{
    e.parent == Parent::Trash && e.deleted
}

/// The UUIDs of the targets a soft delete still has to move, in order.
pub open spec fn to_trash(ts: Seq<EntryView>) -> Seq<u128>
    decreases ts.len(),
{
    if ts.len() == 0 {
        Seq::empty()
    } else if spec_already_trashed(ts.last()) {
        to_trash(ts.drop_last())
    } else {
        to_trash(ts.drop_last()).push(ts.last().uuid)
    }
}

/// What `rm` does with `paths`, or the error it stops at.
pub open spec fn spec_plan_rm(es: Seq<EntryView>, paths: Seq<Seq<char>>, permanent: bool, recursive: bool) -> Result<
    RmView,
    CliErrorView,
> {
    if paths.len() == 0 {
        Err(CliErrorView::InvalidPath("no paths given"@))
    } else {
        match spec_resolve_targets(es, paths) {
            Err(e) => Err(e),
            Ok(ts) => match spec_recursive_gate(es, ts, recursive) {
                Some(e) => Err(e),
                None => {
                    let deleted = ts.map_values(|t: EntryView| spec_deleted_item(es, t));
                    if permanent {
                        let uuids = spec_expand_for_permanent(es, ts, recursive);
                        Ok(
                            RmView {
                                permanent: true,
                                deleted,
                                descendant_uuids_removed: if uuids.len() > ts.len() {
                                    Some((uuids.len() - ts.len()) as usize)
                                } else {
                                    None
                                },
                                no_op: false,
                                wipe: uuids,
                                trash: Seq::empty(),
                            },
                        )
                    } else {
                        let pending = to_trash(ts);
                        Ok(
                            RmView {
                                permanent: false,
                                deleted,
                                descendant_uuids_removed: None,
                                no_op: pending.len() == 0,
                                wipe: Seq::empty(),
                                trash: pending,
                            },
                        )
                    }
                },
            },
        }
    }
}

/// Check an `rm` request and work out what it deletes.
pub fn plan_rm(tree: &DocumentTree, paths: &Vec<String>, permanent: bool, recursive: bool) -> (r: Result<RmPlan, CliError>)
    ensures
        match (r, spec_plan_rm(tree@, views(paths@), permanent, recursive)) {
            (Ok(p), Ok(v)) => p@ == v,
            (Err(e), Err(f)) => e@ == f,
            _ => false,
        },
{
    if paths.len() == 0 {
        let mut m = String::new();
        m.append("no paths given");
        return Err(CliError::InvalidPath(m));
    }
    let targets = match resolve_targets(tree, paths) {
        Err(e) => {
            return Err(e);
        },
        Ok(t) => t,
    };
    match enforce_recursive_gate(tree, &targets, recursive) {
        Err(e) => {
            return Err(e);
        },
        Ok(()) => {},
    }
    let ghost ts = entry_views(targets@);
    let mut deleted: Vec<DeletedItem> = Vec::new();
    let mut trash: Vec<u128> = Vec::new();
    let mut i: usize = 0;
    while i < targets.len()
        invariant
            ts == entry_views(targets@),
            i <= ts.len(),
            deleted_views(deleted@) == ts.take(i as int).map_values(
                |t: EntryView| spec_deleted_item(tree@, t),
            ),
            trash@ == to_trash(ts.take(i as int)),
        decreases ts.len() - i,
    {
        let t = targets[i];
        proof {
            assert(ts[i as int] == t@);
            assert(ts.take(i + 1).drop_last() =~= ts.take(i as int));
        }
        let ghost before = deleted@;
        let d = DeletedItem::from_entry(tree, t);
        deleted.push(d);
        if !is_already_trashed(t) {
            trash.push(t.uuid);
        }
        proof {
            assert(deleted_views(deleted@) =~= deleted_views(before).push(d@));
            assert(ts.take(i + 1) =~= ts.take(i as int).push(t@));
            assert(ts.take(i + 1).map_values(|t: EntryView| spec_deleted_item(tree@, t))
                =~= ts.take(i as int).map_values(|t: EntryView| spec_deleted_item(tree@, t)).push(
                spec_deleted_item(tree@, t@),
            ));
        }
        i = i + 1;
    }
    proof {
        assert(ts.take(ts.len() as int) =~= ts);
    }
    if permanent {
        let uuids = expand_for_permanent(tree, &targets, recursive);
        let extra = if uuids.len() > targets.len() {
            Some(uuids.len() - targets.len())
        } else {
            None
        };
        let out = RmOutput { permanent: true, deleted, descendant_uuids_removed: extra, no_op: false };
        Ok(RmPlan { output: out, wipe: uuids, trash: Vec::new() })
    } else {
        let no_op = trash.len() == 0;
        let out = RmOutput { permanent: false, deleted, descendant_uuids_removed: None, no_op };
        Ok(RmPlan { output: out, wipe: Vec::new(), trash })
    }
}

/// One removal of a permanent delete: a directory tree or a single file.
#[derive(Debug, Clone)]
pub struct Removal {
    pub name: String,
    pub dir: bool,
}

pub struct RemovalView {
    pub name: Seq<char>,
    pub dir: bool,
}

pub open spec fn removal_views(v: Seq<Removal>) -> Seq<RemovalView> {
    v.map_values(|r: Removal| RemovalView { name: r.name@, dir: r.dir })
}

pub open spec fn starts_with(s: Seq<char>, prefix: Seq<char>) -> bool {
    prefix.len() <= s.len() && s.take(prefix.len() as int) == prefix
}

/// A directory entry belongs to the UUID: it is named `<uuid>` or starts
/// with `<uuid>.`.
pub open spec fn belongs_to(name: Seq<char>, u: Seq<char>) -> bool {
    name == u || starts_with(name, u + seq!['.'])
}

pub open spec fn metadata_name(u: Seq<char>) -> Seq<char> {
    u + ".metadata"@
}

/// The removals for the entries of `es` belonging to `u`, except its
/// `.metadata` file, in listing order.
pub open spec fn aux_removals(es: Seq<RemoteEntry>, u: Seq<char>) -> Seq<RemovalView>
    decreases es.len(),
{
    if es.len() == 0 {
        Seq::empty()
    } else {
        let prev = aux_removals(es.drop_last(), u);
        let e = es.last();
        if belongs_to(e.name@, u) && e.name@ != metadata_name(u) {
            prev.push(RemovalView { name: e.name@, dir: e.metadata.kind == RemoteFileKind::Dir })
        } else {
            prev
        }
    }
}

/// Everything a permanent delete removes for one UUID: its other files and
/// directories first, its `.metadata` file last (when listed), so that an
/// interrupted wipe leaves the item visible.
pub open spec fn spec_wipe_steps(es: Seq<RemoteEntry>, uuid: u128) -> Seq<RemovalView> {
    let u = spec_uuid_text(uuid);
    aux_removals(es, u) + if exists|k: int| 0 <= k < es.len() && es[k].name@ == metadata_name(u) {
        seq![RemovalView { name: metadata_name(u), dir: false }]
    } else {
        Seq::empty()
    }
}

fn starts_with_chars(s: &Vec<char>, prefix: &Vec<char>) -> (b: bool)
    ensures
        b == starts_with(s@, prefix@),
{
    if prefix.len() > s.len() {
        return false;
    }
    let mut j: usize = 0;
    while j < prefix.len()
        invariant
            prefix@.len() <= s@.len(),
            j <= prefix@.len(),
            forall|k: int| 0 <= k < j ==> s@[k] == prefix@[k],
        decreases prefix@.len() - j,
    {
        if s[j] != prefix[j] {
            assert(s@.take(prefix@.len() as int)[j as int] != prefix@[j as int]);
            return false;
        }
        j = j + 1;
    }
    assert(s@.take(prefix@.len() as int) =~= prefix@);
    true
}

/// Plan the removals that wipe one UUID out of a directory listing.
pub fn wipe_steps(entries: &Vec<RemoteEntry>, uuid: u128) -> (r: Vec<Removal>)
    ensures
        removal_views(r@) == spec_wipe_steps(entries@, uuid),
{
    let u = uuid_text(uuid);
    let uc = chars_of(u.as_str());
    let mut dotted = uc.clone();
    dotted.push('.');
    let mut meta = u.clone();
    meta.append(".metadata");
    let mc = chars_of(meta.as_str());
    proof {
        assert(dotted@ =~= uc@ + seq!['.']);
    }
    let ghost us = u@;
    let mut out: Vec<Removal> = Vec::new();
    let mut has_meta = false;
    let mut i: usize = 0;
    proof {
        assert(removal_views(out@) =~= Seq::<RemovalView>::empty());
    }
    while i < entries.len()
        invariant
            us == spec_uuid_text(uuid),
            uc@ == us,
            dotted@ == us + seq!['.'],
            mc@ == metadata_name(us),
            i <= entries@.len(),
            removal_views(out@) == aux_removals(entries@.take(i as int), us),
            has_meta == exists|k: int| 0 <= k < i && entries@[k].name@ == metadata_name(us),
        decreases entries@.len() - i,
    {
        proof {
            assert(entries@.take(i + 1).drop_last() =~= entries@.take(i as int));
        }
        let e = &entries[i];
        let n = chars_of(e.name.as_str());
        let is_meta = chars_eq(&n, &mc);
        if is_meta {
            has_meta = true;
        }
        if (chars_eq(&n, &uc) || starts_with_chars(&n, &dotted)) && !is_meta {
            let ghost before = out@;
            let r = Removal { name: e.name.clone(), dir: e.metadata.kind == RemoteFileKind::Dir };
            out.push(r);
            proof {
                assert(removal_views(out@) =~= removal_views(before).push(
                    RemovalView { name: r.name@, dir: r.dir },
                ));
            }
        }
        i = i + 1;
    }
    proof {
        assert(entries@.take(entries@.len() as int) =~= entries@);
    }
    if has_meta {
        let ghost before = out@;
        let r = Removal { name: meta, dir: false };
        out.push(r);
        proof {
            assert(removal_views(out@) =~= removal_views(before).push(
                RemovalView { name: r.name@, dir: false },
            ));
        }
    } else {
        proof {
            assert(removal_views(out@) =~= removal_views(out@) + Seq::<RemovalView>::empty());
        }
    }
    out
}

} // verus!
