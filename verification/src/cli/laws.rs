//! Properties of the planned mutations.

use vstd::prelude::*;

use crate::cli::error::CliErrorView;
use crate::metadata::error::MetadataErrorView;
use crate::cli::mkdir::{exists_message, plan_walk, spec_plan_creations, PendingView};
use crate::cli::mv::{spec_cycle_error, spec_plan_move, spec_resolve_destination};
use crate::cli::rm::{
    gate_from, add_all, add_new, aux_removals, belongs_to, has_uuid, metadata_name, spec_already_trashed,
    spec_deleted_item, spec_expand_for_permanent, spec_plan_rm, spec_recursive_gate,
    spec_resolve_targets, spec_wipe_steps, targets_from, to_trash, RemovalView,
};
use crate::metadata::uuid_text::spec_uuid_text;
use crate::tablet::remote::{RemoteEntry, RemoteFileKind};
use crate::cli::notebook_pages::{
    dedup, number_from, page_file, page_views, recorded_order, spec_order_pages, spec_page_id,
    spec_page_number, spec_select_listed, unrecorded, ContentState, PageValueView,
};
use crate::order::{lemma_lex_total, lex_order};
use crate::metadata::path_resolver::{path_segments, spec_resolve};
use crate::metadata::tree::{
    below_in, entries_below, has_ancestor, spec_entry_below, spec_get, spec_is_descendant,
    spec_is_folder, spec_lookup_child, EntryView, LookupView, Parent,
};

verus! {

/// A planned move never puts an item into itself, nor a folder below
/// itself.
pub proof fn law_move_forms_no_cycle(es: Seq<EntryView>, source: Seq<char>, dest: Seq<char>, src: EntryView)
    requires
        spec_resolve(es, source) == Ok::<Option<EntryView>, MetadataErrorView>(Some(src)),
        spec_plan_move(es, source, dest) is Ok,
    ensures
        ({
            let v = spec_plan_move(es, source, dest)->Ok_0;
            &&& v.uuid == src.uuid
            &&& v.new_parent != Parent::Folder(src.uuid)
            &&& spec_is_folder(src) ==> match v.new_parent {
                Parent::Folder(d) => !spec_is_descendant(es, d, src.uuid),
                _ => true,
            }
        }),
{
}

pub open spec fn distinct(s: Seq<u128>) -> bool {
    forall|a: int, b: int| 0 <= a < b < s.len() ==> s[a] != s[b]
}

proof fn lemma_add_new(acc: Seq<u128>, u: u128)
    requires
        distinct(acc),
    ensures
        distinct(add_new(acc, u)),
        add_new(acc, u).contains(u),
        forall|x: u128| acc.contains(x) ==> add_new(acc, u).contains(x),
{
    if acc.contains(u) {
    } else {
        let r = acc.push(u);
        assert(r[r.len() - 1] == u);
        assert forall|x: u128| acc.contains(x) implies r.contains(x) by {
            let k = choose|k: int| 0 <= k < acc.len() && acc[k] == x;
            assert(r[k] == x);
        }
    }
}

proof fn lemma_add_all(acc: Seq<u128>, ds: Seq<EntryView>)
    requires
        distinct(acc),
    ensures
        distinct(add_all(acc, ds)),
        forall|x: u128| acc.contains(x) ==> add_all(acc, ds).contains(x),
    decreases ds.len(),
{
    if ds.len() > 0 {
        lemma_add_all(acc, ds.drop_last());
        lemma_add_new(add_all(acc, ds.drop_last()), ds.last().uuid);
    }
}

/// A permanent delete wipes each UUID at most once, and wipes every
/// target.
pub proof fn law_wipe_list_distinct(es: Seq<EntryView>, ts: Seq<EntryView>, recursive: bool)
    ensures
        distinct(spec_expand_for_permanent(es, ts, recursive)),
        forall|i: int|
            0 <= i < ts.len() ==> spec_expand_for_permanent(es, ts, recursive).contains(
                #[trigger] ts[i].uuid,
            ),
    decreases ts.len(),
{
    if ts.len() > 0 {
        let t = ts.last();
        let prev = spec_expand_for_permanent(es, ts.drop_last(), recursive);
        law_wipe_list_distinct(es, ts.drop_last(), recursive);
        lemma_add_new(prev, t.uuid);
        let with_t = add_new(prev, t.uuid);
        if recursive && spec_is_folder(t) {
            lemma_add_all(with_t, crate::metadata::tree::entries_below(es, t.uuid));
        }
        let r = spec_expand_for_permanent(es, ts, recursive);
        assert forall|i: int| 0 <= i < ts.len() implies r.contains(#[trigger] ts[i].uuid) by {
            if i < ts.len() - 1 {
                assert(ts[i] == ts.drop_last()[i]);
                assert(prev.contains(ts.drop_last()[i].uuid));
            }
        }
    }
}

/// Every segment from `i` on names, below the one before it, exactly one
/// child, which is a folder.
pub open spec fn all_folders(es: Seq<EntryView>, segs: Seq<Seq<char>>, i: nat, parent: Parent) -> bool
    decreases segs.len() - i,
{
    if i >= segs.len() {
        true
    } else {
        match spec_lookup_child(es, parent, segs[i as int]) {
            LookupView::Entry(e) => spec_is_folder(e) && all_folders(
                es,
                segs,
                i + 1,
                Parent::Folder(e.uuid),
            ),
            _ => false,
        }
    }
}

proof fn lemma_walk_existing(
    es: Seq<EntryView>,
    segs: Seq<Seq<char>>,
    ids: Seq<u128>,
    i: nat,
    cur: Parent,
    cur_path: Seq<char>,
)
    requires
        all_folders(es, segs, i, cur),
    ensures
        plan_walk(es, segs, true, ids, i, cur, cur_path, 0, Seq::empty()) == Ok::<
            Seq<PendingView>,
            CliErrorView,
        >(Seq::empty()),
    decreases segs.len() - i,
{
    if i < segs.len() {
        let seg = segs[i as int];
        match spec_lookup_child(es, cur, seg) {
            LookupView::Entry(e) => {
                lemma_walk_existing(
                    es,
                    segs,
                    ids,
                    i + 1,
                    Parent::Folder(e.uuid),
                    cur_path + seq!['/'] + seg,
                );
            },
            _ => {},
        }
    }
}

/// `mkdir --parents` on a path whose folders all exist creates nothing.
pub proof fn law_mkdir_parents_is_idempotent(es: Seq<EntryView>, path: Seq<char>, ids: Seq<u128>)
    requires
        path.len() > 0 && path[0] == '/',
        path_segments(path).len() > 0,
        path_segments(path)[0] != "trash"@,
        all_folders(es, path_segments(path), 0, Parent::Root),
    ensures
        spec_plan_creations(es, path, true, ids) == Ok::<Seq<PendingView>, CliErrorView>(
            Seq::empty(),
        ),
{
    lemma_walk_existing(es, path_segments(path), ids, 0, Parent::Root, Seq::empty());
}

proof fn lemma_push_distinct(s: Seq<Seq<char>>, x: Seq<char>)
    requires
        s.no_duplicates(),
        !s.contains(x),
    ensures
        s.push(x).no_duplicates(),
        forall|y: Seq<char>| s.push(x).contains(y) <==> (s.contains(y) || y == x),
{
    let t = s.push(x);
    assert forall|i: int, j: int| 0 <= i < t.len() && 0 <= j < t.len() && i != j implies t[i]
        != t[j] by {
        if i < s.len() && j < s.len() {
            assert(t[i] == s[i] && t[j] == s[j]);
        } else if i < s.len() {
            assert(t[i] == s[i]);
        } else {
            assert(t[j] == s[j]);
        }
    }
    assert forall|y: Seq<char>| t.contains(y) <==> (s.contains(y) || y == x) by {
        if t.contains(y) {
            let k = choose|k: int| 0 <= k < t.len() && t[k] == y;
            if k < s.len() {
                assert(s[k] == y);
            }
        }
        if s.contains(y) {
            let k = choose|k: int| 0 <= k < s.len() && s[k] == y;
            assert(t[k] == y);
        }
        if y == x {
            assert(t[t.len() - 1] == y);
        }
    }
}

proof fn lemma_recorded_props(items: Seq<PageValueView>, names: Seq<Seq<char>>)
    ensures
        recorded_order(items, names).no_duplicates(),
        forall|x: Seq<char>| recorded_order(items, names).contains(x) ==> names.contains(x),
    decreases items.len(),
{
    if items.len() > 0 {
        lemma_recorded_props(items.drop_last(), names);
        let prev = recorded_order(items.drop_last(), names);
        match spec_page_id(items.last()) {
            Some(id) => {
                let f = page_file(id);
                if names.contains(f) && !prev.contains(f) {
                    lemma_push_distinct(prev, f);
                }
            },
            None => {},
        }
    }
}

proof fn lemma_dedup_props(s: Seq<Seq<char>>)
    ensures
        dedup(s).no_duplicates(),
        forall|x: Seq<char>| dedup(s).contains(x) <==> s.contains(x),
    decreases s.len(),
{
    if s.len() > 0 {
        lemma_dedup_props(s.drop_last());
        let p = dedup(s.drop_last());
        if !p.contains(s.last()) {
            lemma_push_distinct(p, s.last());
        }
        assert forall|x: Seq<char>| dedup(s).contains(x) <==> s.contains(x) by {
            if s.drop_last().contains(x) {
                let k = choose|k: int| 0 <= k < s.drop_last().len() && s.drop_last()[k] == x;
                assert(s[k] == x);
            }
            if s.contains(x) && x != s.last() {
                let k = choose|k: int| 0 <= k < s.len() && s[k] == x;
                assert(k != s.len() - 1);
                assert(s.drop_last()[k] == x);
            }
            if x == s.last() {
                assert(s[s.len() - 1] == x);
            }
        }
    }
}

proof fn lemma_filter_props(s: Seq<Seq<char>>, pred: spec_fn(Seq<char>) -> bool)
    requires
        s.no_duplicates(),
    ensures
        s.filter(pred).no_duplicates(),
        forall|x: Seq<char>| s.filter(pred).contains(x) <==> (s.contains(x) && pred(x)),
    decreases s.len(),
{
    reveal(Seq::filter);
    if s.len() > 0 {
        let d = s.drop_last();
        assert(d.no_duplicates()) by {
            assert forall|i: int, j: int| 0 <= i < d.len() && 0 <= j < d.len() && i != j implies d[i]
                != d[j] by {
                assert(d[i] == s[i] && d[j] == s[j]);
            }
        }
        lemma_filter_props(d, pred);
        let p = d.filter(pred);
        assert(!d.contains(s.last())) by {
            if d.contains(s.last()) {
                let k = choose|k: int| 0 <= k < d.len() && d[k] == s.last();
                assert(s[k] == s[s.len() - 1]);
            }
        }
        if pred(s.last()) {
            lemma_push_distinct(p, s.last());
        }
        assert forall|x: Seq<char>| s.filter(pred).contains(x) <==> (s.contains(x) && pred(x)) by {
            if d.contains(x) {
                let k = choose|k: int| 0 <= k < d.len() && d[k] == x;
                assert(s[k] == x);
            }
            if s.contains(x) && x != s.last() {
                let k = choose|k: int| 0 <= k < s.len() && s[k] == x;
                assert(d[k] == x);
            }
            if x == s.last() {
                assert(s[s.len() - 1] == x);
            }
        }
    }
}

proof fn lemma_sort_props(s: Seq<Seq<char>>)
    requires
        s.no_duplicates(),
    ensures
        s.sort_by(lex_order()).no_duplicates(),
        forall|x: Seq<char>| s.sort_by(lex_order()).contains(x) <==> s.contains(x),
{
    broadcast use vstd::seq_lib::group_to_multiset_ensures;

    lemma_lex_total();
    let t = s.sort_by(lex_order());
    s.lemma_sort_by_ensures(lex_order());
    s.lemma_multiset_has_no_duplicates();
    assert forall|x: Seq<char>| t.to_multiset().contains(x) implies t.to_multiset().count(x)
        == 1 by {
        assert(s.to_multiset().contains(x));
    }
    t.lemma_multiset_has_no_duplicates_conv();
    assert forall|x: Seq<char>| t.contains(x) <==> s.contains(x) by {
        assert(t.to_multiset().count(x) == s.to_multiset().count(x));
    }
}

/// Ordering a notebook's page files loses none and repeats none: with a
/// recorded order, every discovered file appears exactly once; without
/// one, the result is the discovered files rearranged.
pub proof fn law_page_order_keeps_every_file(pages: Seq<PageValueView>, discovered: Seq<Seq<char>>)
    ensures
        spec_order_pages(Some(pages), discovered).no_duplicates(),
        forall|x: Seq<char>|
            spec_order_pages(Some(pages), discovered).contains(x) <==> discovered.contains(x),
        spec_order_pages(None, discovered).to_multiset() == discovered.to_multiset(),
{
    lemma_lex_total();
    discovered.lemma_sort_by_ensures(lex_order());
    let o = recorded_order(pages, discovered);
    lemma_recorded_props(pages, discovered);
    lemma_dedup_props(discovered);
    let pred = |x: Seq<char>| !o.contains(x);
    lemma_filter_props(dedup(discovered), pred);
    let u = unrecorded(discovered, o);
    assert(u == dedup(discovered).filter(pred));
    lemma_sort_props(u);
    let t = u.sort_by(lex_order());
    let r = o + t;
    assert(r == spec_order_pages(Some(pages), discovered));
    assert forall|i: int, j: int| 0 <= i < r.len() && 0 <= j < r.len() && i != j implies r[i]
        != r[j] by {
        if i < o.len() && j < o.len() {
            assert(r[i] == o[i] && r[j] == o[j]);
        } else if i >= o.len() && j >= o.len() {
            assert(r[i] == t[i - o.len()] && r[j] == t[j - o.len()]);
        } else if i < o.len() {
            let y = t[j - o.len()];
            assert(r[i] == o[i] && r[j] == y);
            assert(0 <= j - o.len() < t.len());
            assert(t.contains(y));
            assert(u.contains(y));
            assert(pred(y));
            assert(o.contains(o[i]));
        } else {
            let y = t[i - o.len()];
            assert(r[j] == o[j] && r[i] == y);
            assert(0 <= i - o.len() < t.len());
            assert(t.contains(y));
            assert(u.contains(y));
            assert(pred(y));
            assert(o.contains(o[j]));
        }
    }
    assert forall|x: Seq<char>| r.contains(x) <==> discovered.contains(x) by {
        if r.contains(x) {
            let k = choose|k: int| 0 <= k < r.len() && r[k] == x;
            if k < o.len() {
                assert(o[k] == x);
                assert(o.contains(x));
            } else {
                assert(t[k - o.len()] == x);
                assert(t.contains(x));
            }
        }
        if discovered.contains(x) {
            if o.contains(x) {
                let k = choose|k: int| 0 <= k < o.len() && o[k] == x;
                assert(r[k] == x);
            } else {
                assert(t.contains(x));
                let k = choose|k: int| 0 <= k < t.len() && t[k] == x;
                assert(r[k + o.len()] == x);
            }
        }
    }
}


/// Moving an item into the folder it already sits in (and not out of the
/// trash) changes nothing: the plan is a no-op, names the item and the
/// destination, and warns of nothing.
pub proof fn law_mv_same_parent_is_no_op(
    es: Seq<EntryView>,
    source: Seq<char>,
    dest: Seq<char>,
    src: EntryView,
    new_parent: Parent,
    to: Seq<char>,
)
    requires
        spec_resolve(es, source) == Ok::<Option<EntryView>, MetadataErrorView>(Some(src)),
        spec_resolve_destination(es, dest) == Ok::<(Parent, Seq<char>), CliErrorView>(
            (new_parent, to),
        ),
        spec_cycle_error(es, src, new_parent) is None,
        src.parent == new_parent,
        !src.deleted,
    ensures
        spec_plan_move(es, source, dest) matches Ok(m) && m.no_op && m.uuid == src.uuid && m.to
            == to && m.warnings.len() == 0,
{
}

proof fn lemma_to_trash_empty(ts: Seq<EntryView>)
    requires
        forall|k: int| 0 <= k < ts.len() ==> spec_already_trashed(#[trigger] ts[k]),
    ensures
        to_trash(ts).len() == 0,
    decreases ts.len(),
{
    if ts.len() > 0 {
        assert forall|k: int| 0 <= k < ts.drop_last().len() implies spec_already_trashed(
            #[trigger] ts.drop_last()[k],
        ) by {
            assert(ts.drop_last()[k] == ts[k]);
        }
        lemma_to_trash_empty(ts.drop_last());
        assert(spec_already_trashed(ts[ts.len() - 1]));
    }
}

pub open spec fn distinct_uuids(ts: Seq<EntryView>) -> bool {
    forall|i: int, j: int| 0 <= i < j < ts.len() ==> ts[i].uuid != ts[j].uuid
}

proof fn lemma_targets_distinct(es: Seq<EntryView>, paths: Seq<Seq<char>>, i: nat, acc: Seq<EntryView>)
    requires
        distinct_uuids(acc),
    ensures
        targets_from(es, paths, i, acc) matches Ok(ts) ==> distinct_uuids(ts),
    decreases paths.len() - i,
{
    if i < paths.len() {
        match spec_resolve(es, paths[i as int]) {
            Ok(Some(e)) => {
                if !has_uuid(acc, e.uuid) {
                    let next = acc.push(e);
                    assert forall|a: int, b: int| 0 <= a < b < next.len() implies next[a].uuid
                        != next[b].uuid by {
                        if b == acc.len() {
                            assert(next[a] == acc[a]);
                        } else {
                            assert(next[a] == acc[a] && next[b] == acc[b]);
                        }
                    }
                    lemma_targets_distinct(es, paths, i + 1, next);
                } else {
                    lemma_targets_distinct(es, paths, i + 1, acc);
                }
            },
            _ => {},
        }
    }
}

/// Soft-deleting items that are all already in the trash changes nothing:
/// the plan is a no-op that moves nothing, and reports each distinct target
/// once, in the order the paths named them.
pub proof fn law_rm_of_trashed_is_no_op(es: Seq<EntryView>, paths: Seq<Seq<char>>, recursive: bool, ts: Seq<EntryView>)
    requires
        paths.len() > 0,
        spec_resolve_targets(es, paths) == Ok::<Seq<EntryView>, CliErrorView>(ts),
        spec_recursive_gate(es, ts, recursive) is None,
        forall|k: int| 0 <= k < ts.len() ==> spec_already_trashed(#[trigger] ts[k]),
    ensures
        spec_plan_rm(es, paths, false, recursive) matches Ok(v) && v.no_op && !v.permanent
            && v.descendant_uuids_removed is None && v.trash.len() == 0 && v.wipe.len() == 0
            && v.deleted == ts.map_values(|t: EntryView| spec_deleted_item(es, t)),
        distinct_uuids(ts),
{
    lemma_to_trash_empty(ts);
    lemma_targets_distinct(es, paths, 0, Seq::empty());
}

pub open spec fn removal_names(v: Seq<RemovalView>) -> Seq<Seq<char>> {
    v.map_values(|r: RemovalView| r.name)
}

pub open spec fn listed_names(es: Seq<RemoteEntry>) -> Seq<Seq<char>> {
    es.map_values(|e: RemoteEntry| e.name@)
}

proof fn lemma_aux_removals(es: Seq<RemoteEntry>, u: Seq<char>)
    requires
        listed_names(es).no_duplicates(),
    ensures
        removal_names(aux_removals(es, u)).no_duplicates(),
        forall|x: Seq<char>|
            #[trigger] removal_names(aux_removals(es, u)).contains(x) <==> (listed_names(
                es,
            ).contains(x) && belongs_to(x, u) && x != metadata_name(u)),
        forall|r: RemovalView|
            #[trigger] aux_removals(es, u).contains(r) ==> exists|k: int|
                0 <= k < es.len() && es[k].name@ == r.name && r.dir == (es[k].metadata.kind
                    == RemoteFileKind::Dir),
    decreases es.len(),
{
    if es.len() > 0 {
        let d = es.drop_last();
        assert(listed_names(d) =~= listed_names(es).drop_last());
        assert(listed_names(d).no_duplicates()) by {
            assert forall|a: int, b: int| 0 <= a < b < listed_names(d).len() implies listed_names(
                d,
            )[a] != listed_names(d)[b] by {
                assert(listed_names(d)[a] == listed_names(es)[a]);
                assert(listed_names(d)[b] == listed_names(es)[b]);
            }
        }
        lemma_aux_removals(d, u);
        let prev = aux_removals(d, u);
        let e = es.last();
        let last = es.len() - 1;
        assert(listed_names(es)[last] == e.name@);
        assert(!listed_names(d).contains(e.name@)) by {
            if listed_names(d).contains(e.name@) {
                let k = choose|k: int| 0 <= k < listed_names(d).len() && listed_names(d)[k] == e.name@;
                assert(listed_names(es)[k] == listed_names(es)[last]);
            }
        }
        let cur = aux_removals(es, u);
        if belongs_to(e.name@, u) && e.name@ != metadata_name(u) {
            let r = RemovalView { name: e.name@, dir: e.metadata.kind == RemoteFileKind::Dir };
            assert(cur == prev.push(r));
            assert(removal_names(cur) =~= removal_names(prev).push(e.name@));
            assert(removal_names(cur).no_duplicates()) by {
                assert forall|a: int, b: int| 0 <= a < b < removal_names(cur).len() implies removal_names(
                    cur,
                )[a] != removal_names(cur)[b] by {
                    if b == removal_names(prev).len() {
                        assert(removal_names(prev).contains(removal_names(cur)[a]));
                    } else {
                        assert(removal_names(cur)[a] == removal_names(prev)[a]);
                        assert(removal_names(cur)[b] == removal_names(prev)[b]);
                    }
                }
            }
            assert forall|rr: RemovalView| #[trigger] cur.contains(rr) implies exists|k: int|
                0 <= k < es.len() && es[k].name@ == rr.name && rr.dir == (es[k].metadata.kind
                    == RemoteFileKind::Dir) by {
                let j = choose|j: int| 0 <= j < cur.len() && cur[j] == rr;
                if j == prev.len() {
                    assert(es[last].name@ == rr.name);
                } else {
                    assert(prev[j] == rr);
                    assert(prev.contains(rr));
                    let k = choose|k: int|
                        0 <= k < d.len() && d[k].name@ == rr.name && rr.dir == (d[k].metadata.kind
                            == RemoteFileKind::Dir);
                    assert(es[k] == d[k]);
                }
            }
        } else {
            assert(cur == prev);
            assert forall|rr: RemovalView| #[trigger] cur.contains(rr) implies exists|k: int|
                0 <= k < es.len() && es[k].name@ == rr.name && rr.dir == (es[k].metadata.kind
                    == RemoteFileKind::Dir) by {
                let k = choose|k: int|
                    0 <= k < d.len() && d[k].name@ == rr.name && rr.dir == (d[k].metadata.kind
                        == RemoteFileKind::Dir);
                assert(es[k] == d[k]);
            }
        }
        assert forall|x: Seq<char>|
            listed_names(es).contains(x) <==> (listed_names(d).contains(x) || x == e.name@) by {
            if listed_names(d).contains(x) {
                let k = choose|k: int| 0 <= k < listed_names(d).len() && listed_names(d)[k] == x;
                assert(listed_names(es)[k] == x);
            }
            if listed_names(es).contains(x) && x != e.name@ {
                let k = choose|k: int| 0 <= k < listed_names(es).len() && listed_names(es)[k] == x;
                assert(k != last);
                assert(listed_names(d)[k] == x);
            }
        }
        if belongs_to(e.name@, u) && e.name@ != metadata_name(u) {
            assert forall|x: Seq<char>|
                removal_names(cur).contains(x) <==> (removal_names(prev).contains(x) || x
                    == e.name@) by {
                if removal_names(cur).contains(x) {
                    let k = choose|k: int|
                        0 <= k < removal_names(cur).len() && removal_names(cur)[k] == x;
                    if k < removal_names(prev).len() {
                        assert(removal_names(prev)[k] == x);
                    }
                }
                if x == e.name@ {
                    assert(removal_names(cur)[removal_names(prev).len() as int] == x);
                }
                if removal_names(prev).contains(x) {
                    let k = choose|k: int|
                        0 <= k < removal_names(prev).len() && removal_names(prev)[k] == x;
                    assert(removal_names(cur)[k] == x);
                }
            }
        } else {
            assert(removal_names(cur) == removal_names(prev));
        }
        assert forall|x: Seq<char>|
            removal_names(cur).contains(x) <==> (listed_names(es).contains(x) && belongs_to(x, u)
                && x != metadata_name(u)) by {
            assert(removal_names(prev).contains(x) <==> (listed_names(d).contains(x) && belongs_to(
                x,
                u,
            ) && x != metadata_name(u)));
            assert(listed_names(es).contains(x) <==> (listed_names(d).contains(x) || x == e.name@));
        }
    }
}

/// A permanent delete of a UUID removes each listed entry belonging to it
/// exactly once (when the listing's names are distinct, as a directory's
/// are), as a directory tree when the entry is a directory, and touches no
/// other entry; its `.metadata` file, when listed, is removed last.
pub proof fn law_wipe_removes_each_entry_once(es: Seq<RemoteEntry>, uuid: u128)
    requires
        listed_names(es).no_duplicates(),
    ensures
        removal_names(spec_wipe_steps(es, uuid)).no_duplicates(),
        forall|x: Seq<char>|
            #[trigger] removal_names(spec_wipe_steps(es, uuid)).contains(x) <==> (listed_names(
                es,
            ).contains(x) && belongs_to(x, spec_uuid_text(uuid))),
        forall|k: int|
            0 <= k < es.len() && belongs_to(es[k].name@, spec_uuid_text(uuid)) && es[k].name@
                != metadata_name(spec_uuid_text(uuid)) ==> spec_wipe_steps(es, uuid).contains(
                RemovalView {
                    name: #[trigger] es[k].name@,
                    dir: es[k].metadata.kind == RemoteFileKind::Dir,
                },
            ),
        listed_names(es).contains(metadata_name(spec_uuid_text(uuid))) ==> spec_wipe_steps(
            es,
            uuid,
        ).last() == (RemovalView { name: metadata_name(spec_uuid_text(uuid)), dir: false }),
{
    let u = spec_uuid_text(uuid);
    lemma_aux_removals(es, u);
    let aux = aux_removals(es, u);
    let steps = spec_wipe_steps(es, uuid);
    let m = metadata_name(u);
    let has_meta = exists|k: int| 0 <= k < es.len() && es[k].name@ == m;
    assert(has_meta <==> listed_names(es).contains(m)) by {
        if has_meta {
            let k = choose|k: int| 0 <= k < es.len() && es[k].name@ == m;
            assert(listed_names(es)[k] == m);
        }
        if listed_names(es).contains(m) {
            let k = choose|k: int| 0 <= k < listed_names(es).len() && listed_names(es)[k] == m;
            assert(es[k].name@ == m);
        }
    }
    assert(belongs_to(m, u)) by {
        assert((u + ".metadata"@).take((u + seq!['.']).len() as int) =~= u + seq!['.']) by {
            reveal_strlit(".metadata");
        }
    }
    if has_meta {
        let mr = RemovalView { name: m, dir: false };
        assert(steps == aux.push(mr));
        assert(removal_names(steps) =~= removal_names(aux).push(m));
        assert(removal_names(steps).no_duplicates()) by {
            assert forall|a: int, b: int| 0 <= a < b < removal_names(steps).len() implies removal_names(
                steps,
            )[a] != removal_names(steps)[b] by {
                if b == removal_names(aux).len() {
                    assert(removal_names(aux).contains(removal_names(steps)[a]));
                } else {
                    assert(removal_names(steps)[a] == removal_names(aux)[a]);
                    assert(removal_names(steps)[b] == removal_names(aux)[b]);
                }
            }
        }
        assert forall|x: Seq<char>| #[trigger] removal_names(steps).contains(x) <==> (listed_names(
            es,
        ).contains(x) && belongs_to(x, u)) by {
            assert(removal_names(steps).contains(x) <==> (removal_names(aux).contains(x) || x
                == m)) by {
                if removal_names(steps).contains(x) {
                    let k = choose|k: int|
                        0 <= k < removal_names(steps).len() && removal_names(steps)[k] == x;
                    if k < removal_names(aux).len() {
                        assert(removal_names(aux)[k] == x);
                    }
                }
                if x == m {
                    assert(removal_names(steps)[removal_names(aux).len() as int] == x);
                }
                if removal_names(aux).contains(x) {
                    let k = choose|k: int|
                        0 <= k < removal_names(aux).len() && removal_names(aux)[k] == x;
                    assert(removal_names(steps)[k] == x);
                }
            }
            assert(removal_names(aux).contains(x) <==> (listed_names(es).contains(x) && belongs_to(
                x,
                u,
            ) && x != m));
            if removal_names(steps).contains(x) {
                let k = choose|k: int| 0 <= k < removal_names(steps).len() && removal_names(steps)[k] == x;
                if k < removal_names(aux).len() {
                    assert(removal_names(aux)[k] == x);
                }
            }
            if x == m {
                assert(removal_names(steps)[removal_names(aux).len() as int] == x);
            } else if removal_names(aux).contains(x) {
                let k = choose|k: int| 0 <= k < removal_names(aux).len() && removal_names(aux)[k] == x;
                assert(removal_names(steps)[k] == x);
            }
        }
    } else {
        assert(steps =~= aux);
        assert(!listed_names(es).contains(m));
        assert forall|x: Seq<char>| #[trigger] removal_names(steps).contains(x) <==> (listed_names(
            es,
        ).contains(x) && belongs_to(x, u)) by {
            assert(removal_names(aux).contains(x) <==> (listed_names(es).contains(x) && belongs_to(
                x,
                u,
            ) && x != m));
        }
    }
    assert forall|k: int|
        0 <= k < es.len() && belongs_to(es[k].name@, u) && es[k].name@ != m implies steps.contains(
        RemovalView { name: #[trigger] es[k].name@, dir: es[k].metadata.kind == RemoteFileKind::Dir },
    ) by {
        assert(listed_names(es)[k] == es[k].name@);
        assert(removal_names(aux).contains(es[k].name@));
        let j = choose|j: int| 0 <= j < removal_names(aux).len() && removal_names(aux)[j] == es[k].name@;
        let r = aux[j];
        assert(aux.contains(r));
        let k2 = choose|k2: int|
            0 <= k2 < es.len() && es[k2].name@ == r.name && r.dir == (es[k2].metadata.kind
                == RemoteFileKind::Dir);
        assert(listed_names(es)[k2] == listed_names(es)[k]);
        assert(k2 == k);
        if has_meta {
            assert(steps[j] == r);
        } else {
            assert(steps[j] == r);
        }
    }
}


proof fn lemma_has_ancestor_mono(es: Seq<EntryView>, u: u128, a: u128, f: nat)
    requires
        has_ancestor(es, u, a, f),
    ensures
        has_ancestor(es, u, a, f + 1),
    decreases f,
{
    match spec_get(es, u) {
        Some(e) => match e.parent {
            Parent::Folder(p) => if p != a {
                lemma_has_ancestor_mono(es, p, a, (f - 1) as nat);
            },
            _ => {},
        },
        None => {},
    }
}

proof fn lemma_below_in_keeps(es: Seq<EntryView>, part: Seq<EntryView>, folder: u128, k: int)
    requires
        0 <= k < part.len(),
        spec_entry_below(es, part[k], folder),
    ensures
        below_in(es, part, folder).contains(part[k]),
    decreases part.len(),
{
    let prev = below_in(es, part.drop_last(), folder);
    if k == part.len() - 1 {
        assert(below_in(es, part, folder) == prev.push(part.last()));
        assert(below_in(es, part, folder)[prev.len() as int] == part[k]);
    } else {
        assert(part.drop_last()[k] == part[k]);
        lemma_below_in_keeps(es, part.drop_last(), folder, k);
        let j = choose|j: int| 0 <= j < prev.len() && prev[j] == part[k];
        if spec_entry_below(es, part.last(), folder) {
            assert(below_in(es, part, folder)[j] == part[k]);
        } else {
            assert(below_in(es, part, folder)[j] == part[k]);
        }
    }
}

/// When a move is refused as a cycle, the destination folder is the item
/// itself, or the item is a folder and the destination is one of the
/// entries listed below it (`DocumentTree::descendants`).
pub proof fn law_cycle_refusal_names_a_descendant(es: Seq<EntryView>, src: EntryView, d: u128)
    requires
        spec_cycle_error(es, src, Parent::Folder(d)) is Some,
    ensures
        d == src.uuid || (spec_is_folder(src) && exists|k: int|
            0 <= k < entries_below(es, src.uuid).len() && (#[trigger] entries_below(
                es,
                src.uuid,
            )[k]).uuid == d),
{
    if d != src.uuid {
        let n = es.len();
        assert(spec_is_descendant(es, d, src.uuid));
        let e = spec_get(es, d)->Some_0;
        crate::metadata::laws::lemma_get_found(es, d);
        let k = choose|k: int| 0 <= k < es.len() && es[k] == e;
        match e.parent {
            Parent::Folder(p) => {
                if p != src.uuid {
                    lemma_has_ancestor_mono(es, p, src.uuid, (n - 1) as nat);
                }
                assert(spec_entry_below(es, es[k], src.uuid));
                lemma_below_in_keeps(es, es, src.uuid, k);
                let b = entries_below(es, src.uuid);
                let j = choose|j: int| 0 <= j < b.len() && b[j] == es[k];
                assert(b[j].uuid == d);
            },
            _ => {},
        }
    }
}

/// A folder cannot be moved into any folder at any depth below it: when
/// the destination is the last of a chain of entries hanging below the
/// source folder, the move is refused.
pub proof fn law_mv_into_deep_descendant_is_refused(
    es: Seq<EntryView>,
    source: Seq<char>,
    dest: Seq<char>,
    src: EntryView,
    c: Seq<EntryView>,
    to: Seq<char>,
)
    requires
        spec_resolve(es, source) == Ok::<Option<EntryView>, MetadataErrorView>(Some(src)),
        spec_is_folder(src),
        crate::metadata::laws::folder_chain(es, src.uuid, c),
        crate::metadata::laws::chain_uuids(c).no_duplicates(),
        spec_resolve_destination(es, dest) == Ok::<(Parent, Seq<char>), CliErrorView>(
            (Parent::Folder(c.last().uuid), to),
        ),
    ensures
        spec_plan_move(es, source, dest) matches Err(CliErrorView::InvalidPath(_)),
{
    crate::metadata::laws::law_descendant_through_chain(es, src.uuid, c);
    assert(spec_is_descendant(es, c[c.len() - 1].uuid, src.uuid));
}

proof fn lemma_add_all_keeps(acc: Seq<u128>, ds: Seq<EntryView>, x: u128)
    ensures
        (acc.contains(x) || exists|j: int| 0 <= j < ds.len() && ds[j].uuid == x) ==> add_all(
            acc,
            ds,
        ).contains(x),
    decreases ds.len(),
{
    if ds.len() > 0 {
        lemma_add_all_keeps(acc, ds.drop_last(), x);
        let prev = add_all(acc, ds.drop_last());
        if exists|j: int| 0 <= j < ds.len() && ds[j].uuid == x {
            let j = choose|j: int| 0 <= j < ds.len() && ds[j].uuid == x;
            if j < ds.len() - 1 {
                assert(ds.drop_last()[j] == ds[j]);
            }
        }
        if prev.contains(x) && !prev.contains(ds.last().uuid) {
            let k = choose|k: int| 0 <= k < prev.len() && prev[k] == x;
            assert(prev.push(ds.last().uuid)[k] == x);
        }
        if x == ds.last().uuid && !prev.contains(x) {
            assert(prev.push(x)[prev.len() as int] == x);
        }
    }
}

proof fn lemma_expand_keeps(es: Seq<EntryView>, ts: Seq<EntryView>, n: int, x: u128)
    requires
        0 <= n <= ts.len(),
        spec_expand_for_permanent(es, ts.take(n), true).contains(x),
    ensures
        spec_expand_for_permanent(es, ts, true).contains(x),
    decreases ts.len() - n,
{
    if n < ts.len() {
        let t2 = ts.take(n + 1);
        assert(t2.drop_last() =~= ts.take(n));
        let prev = spec_expand_for_permanent(es, ts.take(n), true);
        let t = t2.last();
        let with_t = add_new(prev, t.uuid);
        if !prev.contains(t.uuid) {
            let k = choose|k: int| 0 <= k < prev.len() && prev[k] == x;
            assert(prev.push(t.uuid)[k] == x);
        }
        lemma_add_all_keeps(with_t, entries_below(es, t.uuid), x);
        lemma_expand_keeps(es, ts, n + 1, x);
    } else {
        assert(ts.take(n) =~= ts);
    }
}

/// A recursive permanent delete of a folder wipes everything below it at
/// every depth: each entry of a chain hanging below a folder target is
/// among the UUIDs wiped.
pub proof fn law_rm_recursive_wipes_every_depth(es: Seq<EntryView>, ts: Seq<EntryView>, k: int, c: Seq<EntryView>)
    requires
        0 <= k < ts.len(),
        spec_is_folder(ts[k]),
        crate::metadata::laws::folder_chain(es, ts[k].uuid, c),
        crate::metadata::laws::chain_uuids(c).no_duplicates(),
    ensures
        forall|i: int|
            0 <= i < c.len() ==> spec_expand_for_permanent(es, ts, true).contains(
                #[trigger] c[i].uuid,
            ),
{
    let a = ts[k].uuid;
    crate::metadata::laws::law_descendant_through_chain(es, a, c);
    assert forall|i: int| 0 <= i < c.len() implies spec_expand_for_permanent(es, ts, true).contains(
        #[trigger] c[i].uuid,
    ) by {
        assert(spec_get(es, c[i].uuid) == Some(c[i]));
        crate::metadata::laws::lemma_get_found(es, c[i].uuid);
        let m = choose|m: int| 0 <= m < es.len() && es[m] == c[i];
        if i > 0 {
            assert(c[i].parent == Parent::Folder(c[i - 1].uuid));
            assert(spec_is_descendant(es, c[i - 1].uuid, a));
        }
        assert(spec_entry_below(es, es[m], a));
        lemma_below_in_keeps(es, es, a, m);
        let below = entries_below(es, a);
        let j = choose|j: int| 0 <= j < below.len() && below[j] == es[m];
        let pre = ts.take(k + 1);
        assert(pre.drop_last() =~= ts.take(k));
        assert(pre.last() == ts[k]);
        let with_t = add_new(spec_expand_for_permanent(es, ts.take(k), true), a);
        lemma_add_all_keeps(with_t, below, c[i].uuid);
        assert(spec_expand_for_permanent(es, pre, true) == add_all(with_t, below));
        lemma_expand_keeps(es, ts, k + 1, c[i].uuid);
    }
}

proof fn lemma_child_listed(es: Seq<EntryView>, parent: Parent, j: int)
    requires
        0 <= j < es.len(),
        es[j].parent == parent,
    ensures
        crate::metadata::tree::children_of(es, parent).len() > 0,
    decreases es.len(),
{
    if j < es.len() - 1 {
        assert(es.drop_last()[j] == es[j]);
        lemma_child_listed(es.drop_last(), parent, j);
    }
}

proof fn lemma_gate_finds(es: Seq<EntryView>, ts: Seq<EntryView>, i: nat, k: int)
    requires
        i <= k < ts.len(),
        spec_is_folder(ts[k]),
        crate::metadata::tree::children_of(es, Parent::Folder(ts[k].uuid)).len() > 0,
    ensures
        gate_from(es, ts, i) matches Some(CliErrorView::InvalidPath(_)),
    decreases ts.len() - i,
{
    if i < k {
        lemma_gate_finds(es, ts, i + 1, k);
    }
}

/// Without `--recursive`, `rm` refuses a folder target that holds anything,
/// whether or not `--permanent` is given: the plan is an invalid-path error
/// and nothing is trashed or wiped.
pub proof fn law_rm_needs_recursive_for_non_empty_folder(
    es: Seq<EntryView>,
    paths: Seq<Seq<char>>,
    permanent: bool,
    ts: Seq<EntryView>,
    k: int,
    j: int,
)
    requires
        paths.len() > 0,
        spec_resolve_targets(es, paths) == Ok::<Seq<EntryView>, CliErrorView>(ts),
        0 <= k < ts.len(),
        spec_is_folder(ts[k]),
        0 <= j < es.len(),
        es[j].parent == Parent::Folder(ts[k].uuid),
    ensures
        spec_plan_rm(es, paths, permanent, false) matches Err(CliErrorView::InvalidPath(_)),
{
    lemma_child_listed(es, Parent::Folder(ts[k].uuid), j);
    lemma_gate_finds(es, ts, 0, k);
}

#[verifier::spinoff_prover]
proof fn lemma_number_from(names: Seq<Seq<char>>)
    ensures
        number_from(names, 0).len() <= names.len(),
        names.len() <= u32::MAX ==> number_from(names, 0).len() == names.len(),
        forall|a: int|
            0 <= a < names.len() && a + 1 <= u32::MAX ==> a < number_from(names, 0).len() && (
            #[trigger] number_from(names, 0)[a]).0 == (a + 1) as u32 && number_from(names, 0)[a].1
                == names[a],
    decreases names.len(),
{
    if names.len() > 0 {
        let d = names.drop_last();
        lemma_number_from(d);
        let prev = number_from(d, 0);
        if names.len() <= u32::MAX {
            assert(spec_page_number(0 + names.len() - 1) == Some((names.len() - 1 + 1) as u32));
            assert(number_from(names, 0) == prev.push(
                ((names.len() - 1 + 1) as u32, names.last()),
            ));
        }
        assert(number_from(names, 0).len() >= prev.len());
        assert forall|a: int|
            0 <= a < names.len() && a + 1 <= u32::MAX implies a < number_from(names, 0).len() && (
            #[trigger] number_from(names, 0)[a]).0 == (a + 1) as u32 && number_from(names, 0)[a].1
                == names[a] by {
            if a < names.len() - 1 {
                assert(d[a] == names[a]);
                assert(prev[a] == ((a + 1) as u32, d[a]));
                assert(a < prev.len());
                assert(number_from(names, 0)[a] == prev[a]);
            } else {
                assert(names.len() <= u32::MAX);
                assert(number_from(names, 0)[a] == ((a + 1) as u32, names.last()));
            }
        }
    }
}

/// Every file in the recorded order was named by an item before `n`.
proof fn lemma_recorded_named(items: Seq<PageValueView>, names: Seq<Seq<char>>, x: Seq<char>)
    requires
        recorded_order(items, names).contains(x),
    ensures
        exists|k: int|
            0 <= k < items.len() && (#[trigger] spec_page_id(items[k]) matches Some(d) && page_file(
                d,
            ) == x),
    decreases items.len(),
{
    let prev = recorded_order(items.drop_last(), names);
    if prev.contains(x) {
        lemma_recorded_named(items.drop_last(), names, x);
        let k = choose|k: int|
            0 <= k < items.drop_last().len() && (#[trigger] spec_page_id(items.drop_last()[k]) matches Some(
                d,
            ) && page_file(d) == x);
        assert(items.drop_last()[k] == items[k]);
    } else {
        let k = choose|k: int| 0 <= k < recorded_order(items, names).len() && recorded_order(items, names)[k] == x;
        assert(spec_page_id(items[items.len() - 1]) matches Some(d) && page_file(d) == x);
    }
}

/// The recorded order of a prefix of the items is a prefix of the whole
/// recorded order.
proof fn lemma_recorded_prefix(items: Seq<PageValueView>, names: Seq<Seq<char>>, m: int)
    requires
        0 <= m <= items.len(),
    ensures
        recorded_order(items.take(m), names).len() <= recorded_order(items, names).len(),
        recorded_order(items, names).take(recorded_order(items.take(m), names).len() as int)
            == recorded_order(items.take(m), names),
    decreases items.len() - m,
{
    if m < items.len() {
        lemma_recorded_prefix(items, names, m + 1);
        let t = items.take(m + 1);
        assert(t.drop_last() =~= items.take(m));
        let small = recorded_order(items.take(m), names);
        let mid = recorded_order(t, names);
        let full = recorded_order(items, names);
        assert(mid.take(small.len() as int) =~= small);
        assert(full.take(small.len() as int) =~= mid.take(small.len() as int));
    } else {
        assert(items.take(m) =~= items);
        assert(recorded_order(items, names).take(recorded_order(items, names).len() as int)
            =~= recorded_order(items, names));
    }
}

/// A listed file named by item `i` is in the recorded order of the items
/// up to and including `i`.
proof fn lemma_recorded_has(items: Seq<PageValueView>, names: Seq<Seq<char>>, i: int, d: Seq<char>)
    requires
        0 <= i < items.len(),
        spec_page_id(items[i]) == Some(d),
        names.contains(page_file(d)),
    ensures
        recorded_order(items.take(i + 1), names).contains(page_file(d)),
{
    let t = items.take(i + 1);
    assert(t.drop_last() =~= items.take(i));
    assert(t.last() == items[i]);
    let prev = recorded_order(items.take(i), names);
    if !prev.contains(page_file(d)) {
        assert(recorded_order(t, names) == prev.push(page_file(d)));
        assert(recorded_order(t, names)[prev.len() as int] == page_file(d));
    } else {
        let k = choose|k: int| 0 <= k < prev.len() && prev[k] == page_file(d);
        assert(recorded_order(t, names)[k] == page_file(d));
    }
}

proof fn lemma_recorded_len(items: Seq<PageValueView>, names: Seq<Seq<char>>)
    ensures
        recorded_order(items, names).len() <= items.len(),
    decreases items.len(),
{
    if items.len() > 0 {
        lemma_recorded_len(items.drop_last(), names);
    }
}

/// Rendering or downloading a whole notebook (no `--pages`) follows the
/// page order its `.content` records: of two listed page files named by the
/// record, the one named first comes first in the result, and the file the
/// record names first (when listed) is page 1.
pub proof fn law_whole_notebook_follows_recorded_order(
    content: ContentState,
    files: Seq<Seq<char>>,
    i: int,
    j: int,
    di: Seq<char>,
    dj: Seq<char>,
)
    requires
        content matches ContentState::Parsed(c) && c.pages is Some,
        page_views(content->Parsed_0.pages->Some_0@).len() < u32::MAX,
        0 <= i < j < page_views(content->Parsed_0.pages->Some_0@).len(),
        spec_page_id(page_views(content->Parsed_0.pages->Some_0@)[i]) == Some(di),
        spec_page_id(page_views(content->Parsed_0.pages->Some_0@)[j]) == Some(dj),
        files.contains(page_file(di)),
        files.contains(page_file(dj)),
        forall|k: int|
            0 <= k <= i ==> !(#[trigger] spec_page_id(
                page_views(content->Parsed_0.pages->Some_0@)[k],
            ) matches Some(d) && page_file(d) == page_file(dj)),
    ensures
        spec_select_listed(content, files, None) matches Ok(v) && exists|a: int, b: int|
            0 <= a < b < v.len() && (#[trigger] v[a]).0 == (a + 1) as u32 && v[a].1 == page_file(di)
                && (#[trigger] v[b]).0 == (b + 1) as u32 && v[b].1 == page_file(dj),
        i == 0 ==> (spec_select_listed(content, files, None) matches Ok(v) && v.len() > 0 && v[0].0
            == 1 && v[0].1 == page_file(di)),
{
    let items = page_views(content->Parsed_0.pages->Some_0@);
    let o = recorded_order(items, files);
    let order = spec_order_pages(Some(items), files);
    lemma_recorded_len(items, files);
    lemma_recorded_has(items, files, i, di);
    lemma_recorded_has(items, files, j, dj);
    lemma_recorded_prefix(items, files, i + 1);
    lemma_recorded_prefix(items, files, j + 1);
    let pre_i = recorded_order(items.take(i + 1), files);
    let pre_j = recorded_order(items.take(j + 1), files);
    let a = choose|a: int| 0 <= a < pre_i.len() && pre_i[a] == page_file(di);
    let b = choose|b: int| 0 <= b < pre_j.len() && pre_j[b] == page_file(dj);
    assert(o[a] == page_file(di)) by {
        assert(o.take(pre_i.len() as int)[a] == pre_i[a]);
    }
    assert(o[b] == page_file(dj)) by {
        assert(o.take(pre_j.len() as int)[b] == pre_j[b]);
    }
    assert(b >= pre_i.len()) by {
        if b < pre_i.len() {
            assert(o.take(pre_i.len() as int)[b] == pre_i[b]);
            assert(pre_i.contains(page_file(dj)));
            lemma_recorded_named(items.take(i + 1), files, page_file(dj));
            let k = choose|k: int|
                0 <= k < items.take(i + 1).len() && (#[trigger] spec_page_id(items.take(i + 1)[k]) matches Some(
                    d,
                ) && page_file(d) == page_file(dj));
            assert(items.take(i + 1)[k] == items[k]);
        }
    }
    assert(order[a] == o[a] && order[b] == o[b]);
    lemma_number_from(order);
    let v = number_from(order, 0);
    assert(order.len() >= o.len());
    assert(v[a].0 == (a + 1) as u32 && v[a].1 == order[a]);
    assert(v[b].0 == (b + 1) as u32 && v[b].1 == order[b]);
    let got = spec_select_listed(content, files, None);
    assert(got is Ok);
    assert(got->Ok_0 == v);
    assert(a < b);
    assert(b < v.len());
    assert(exists|x: int, y: int|
        0 <= x < y < v.len() && (#[trigger] v[x]).0 == (x + 1) as u32 && v[x].1 == page_file(di)
            && (#[trigger] v[y]).0 == (y + 1) as u32 && v[y].1 == page_file(dj)) by {
        assert(0 <= a < b < v.len() && v[a].0 == (a + 1) as u32 && v[a].1 == page_file(di)
            && v[b].0 == (b + 1) as u32 && v[b].1 == page_file(dj));
    }
    if i == 0 {
        assert(a == 0) by {
            if a > 0 {
                assert(items.take(1).drop_last() =~= items.take(0));
                assert(recorded_order(items.take(0), files) =~= Seq::<Seq<char>>::empty());
            }
        }
    }
}

} // verus!
