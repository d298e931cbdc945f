//! Properties that tie path display and path resolution together.

use vstd::prelude::*;

use crate::metadata::error::MetadataErrorView;
use crate::metadata::path_resolver::{
    path_segments, spec_lookup_leaf, spec_resolve_path, spec_resolve_uuid_to_path, split_state,
    walk,
};
use crate::metadata::tree::{
    chain_path, has_ancestor, lookup_of, named_children, spec_display_path, spec_get,
    spec_is_descendant, spec_is_folder, spec_lookup_child, trash_prefix, EntryView, LookupView,
    Parent,
};

verus! {

/// The entries from the top of `uuid`'s folder chain down to its own entry;
/// empty when the chain breaks or is longer than `fuel` folder steps.
pub open spec fn chain(es: Seq<EntryView>, uuid: u128, fuel: nat) -> Seq<EntryView>
    decreases fuel,
{
    match spec_get(es, uuid) {
        None => Seq::empty(),
        Some(e) => match e.parent {
            Parent::Folder(p) => if fuel == 0 {
                Seq::empty()
            } else {
                let c = chain(es, p, (fuel - 1) as nat);
                if c.len() == 0 {
                    Seq::empty()
                } else {
                    c.push(e)
                }
            },
            _ => seq![e],
        },
    }
}

pub open spec fn no_slash(s: Seq<char>) -> bool {
    forall|i: int| 0 <= i < s.len() ==> s[i] != '/'
}

/// Every name on the chain can be typed as a path segment and picks out
/// its entry alone among its siblings; all but the last are folders; and a
/// top-level entry at the root is not named `trash`.
pub open spec fn unambiguous(es: Seq<EntryView>, c: Seq<EntryView>) -> bool {
    &&& forall|j: int|
        0 <= j < c.len() ==> {
            &&& (#[trigger] c[j]).name.len() > 0
            &&& no_slash(c[j].name)
            &&& named_children(es, c[j].parent, c[j].name).len() == 1
            &&& j + 1 < c.len() ==> spec_is_folder(c[j])
        }
    &&& c.len() > 0 && c[0].parent == Parent::Root ==> c[0].name != seq!['t', 'r', 'a', 's', 'h']
}

pub open spec fn names_path(c: Seq<EntryView>) -> Seq<char>
    decreases c.len(),
{
    if c.len() == 0 {
        Seq::empty()
    } else {
        names_path(c.drop_last()) + seq!['/'] + c.last().name
    }
}

pub open spec fn top_prefix(p: Parent) -> Seq<char> {
    if p == Parent::Trash {
        trash_prefix()
    } else {
        Seq::empty()
    }
}

pub open spec fn names_of(c: Seq<EntryView>) -> Seq<Seq<char>> {
    c.map_values(|e: EntryView| e.name)
}

/// The entry found for a UUID is one of the entries and carries that UUID.
pub proof fn lemma_get_found(es: Seq<EntryView>, u: u128)
    requires
        spec_get(es, u) is Some,
    ensures
        es.contains(spec_get(es, u)->Some_0),
        (spec_get(es, u)->Some_0).uuid == u,
    decreases es.len(),
{
    if spec_get(es.drop_last(), u) is Some {
        lemma_get_found(es.drop_last(), u);
        let e = spec_get(es, u)->Some_0;
        let k = choose|k: int| 0 <= k < es.drop_last().len() && es.drop_last()[k] == e;
        assert(es[k] == e);
    } else {
        assert(es[es.len() - 1] == es.last());
    }
}

proof fn lemma_chain_shape(es: Seq<EntryView>, uuid: u128, fuel: nat)
    requires
        chain_path(es, uuid, fuel) is Some,
    ensures
        chain(es, uuid, fuel).len() > 0,
        chain(es, uuid, fuel).last() == spec_get(es, uuid)->Some_0,
        chain(es, uuid, fuel).last().uuid == uuid,
        chain(es, uuid, fuel)[0].parent == Parent::Root || chain(es, uuid, fuel)[0].parent
            == Parent::Trash,
        chain_path(es, uuid, fuel)->Some_0 == top_prefix(chain(es, uuid, fuel)[0].parent)
            + names_path(chain(es, uuid, fuel)),
        forall|j: int|
            0 <= j < chain(es, uuid, fuel).len() ==> es.contains(
                #[trigger] chain(es, uuid, fuel)[j],
            ),
        forall|j: int|
            0 < j < chain(es, uuid, fuel).len() ==> (#[trigger] chain(es, uuid, fuel)[j]).parent
                == Parent::Folder(chain(es, uuid, fuel)[j - 1].uuid),
    decreases fuel,
{
    lemma_get_found(es, uuid);
    let e = spec_get(es, uuid)->Some_0;
    let c = chain(es, uuid, fuel);
    match e.parent {
        Parent::Folder(p) => {
            lemma_chain_shape(es, p, (fuel - 1) as nat);
            let c0 = chain(es, p, (fuel - 1) as nat);
            assert(c == c0.push(e));
            assert(c.drop_last() =~= c0);
            assert(c[0] == c0[0]);
            assert(names_path(c) == names_path(c0) + seq!['/'] + e.name);
            let pp = chain_path(es, p, (fuel - 1) as nat)->Some_0;
            assert(chain_path(es, uuid, fuel)->Some_0 == pp + seq!['/'] + e.name);
            assert(pp + seq!['/'] + e.name =~= top_prefix(c[0].parent) + names_path(c));
            assert(chain_path(es, uuid, fuel)->Some_0 == top_prefix(c[0].parent) + names_path(c));
            assert(chain_path(es, uuid, fuel)->Some_0 =~= top_prefix(
                chain(es, uuid, fuel)[0].parent,
            ) + names_path(chain(es, uuid, fuel)));
            assert forall|j: int| 0 <= j < c.len() implies es.contains(#[trigger] c[j]) by {
                if j < c0.len() {
                    assert(c[j] == c0[j]);
                }
            }
            assert forall|j: int| 0 < j < c.len() implies (#[trigger] c[j]).parent
                == Parent::Folder(c[j - 1].uuid) by {
                if j < c0.len() {
                    assert(c[j] == c0[j]);
                    assert(c[j - 1] == c0[j - 1]);
                } else {
                    assert(c[j - 1] == c0.last());
                }
            }
        },
        _ => {
            assert(c == seq![e]);
            assert(c.drop_last() =~= Seq::<EntryView>::empty());
            assert(c[0] == e);
            assert(names_path(c) == names_path(c.drop_last()) + seq!['/'] + e.name);
            assert(names_path(c) =~= seq!['/'] + e.name);
            if e.parent == Parent::Root {
                assert(chain_path(es, uuid, fuel)->Some_0 =~= top_prefix(c[0].parent) + names_path(c));
            } else {
                assert(chain_path(es, uuid, fuel)->Some_0 =~= top_prefix(c[0].parent) + names_path(c));
            }
        },
    }
}

proof fn lemma_split_no_slash(s: Seq<char>, t: Seq<char>)
    requires
        no_slash(t),
    ensures
        split_state(s + t) == (split_state(s).0, split_state(s).1 + t),
    decreases t.len(),
{
    if t.len() == 0 {
        assert(s + t =~= s);
        assert(split_state(s).1 + t =~= split_state(s).1);
    } else {
        lemma_split_no_slash(s, t.drop_last());
        assert((s + t).drop_last() =~= s + t.drop_last());
        assert((s + t).last() == t.last());
        assert(t[t.len() - 1] != '/');
        assert(split_state(s).1 + t.drop_last() + seq![t.last()] =~= split_state(s).1 + t);
    }
}

proof fn lemma_segments_step(s: Seq<char>, name: Seq<char>)
    requires
        name.len() > 0,
        no_slash(name),
    ensures
        path_segments(s + seq!['/'] + name) == path_segments(s).push(name),
{
    let sl = s + seq!['/'];
    assert(sl.drop_last() =~= s);
    assert(split_state(sl) == (path_segments(s), Seq::<char>::empty()));
    lemma_split_no_slash(sl, name);
    assert(Seq::<char>::empty() + name =~= name);
}

proof fn lemma_segments_of_chain(c: Seq<EntryView>, top: Parent)
    requires
        forall|j: int| 0 <= j < c.len() ==> (#[trigger] c[j]).name.len() > 0 && no_slash(c[j].name),
    ensures
        path_segments(top_prefix(top) + names_path(c)) == (if top == Parent::Trash {
            seq![seq!['t', 'r', 'a', 's', 'h']]
        } else {
            Seq::empty()
        }) + names_of(c),
    decreases c.len(),
{
    if c.len() == 0 {
        assert(top_prefix(top) + names_path(c) =~= top_prefix(top));
        if top == Parent::Trash {
            let slash = seq!['/'];
            let word = seq!['t', 'r', 'a', 's', 'h'];
            assert(slash.drop_last() =~= Seq::<char>::empty());
            assert(slash.last() == '/');
            assert(split_state(Seq::<char>::empty()) == (Seq::<Seq<char>>::empty(), Seq::<char>::empty()));
            assert(split_state(slash) == (Seq::<Seq<char>>::empty(), Seq::<char>::empty()));
            lemma_split_no_slash(slash, word);
            assert(slash + word =~= trash_prefix());
            assert(Seq::<char>::empty() + word =~= word);
        } else {
            assert(path_segments(Seq::<char>::empty()) =~= Seq::<Seq<char>>::empty());
        }
        assert(names_of(c) =~= Seq::<Seq<char>>::empty());
    } else {
        let c0 = c.drop_last();
        assert forall|j: int| 0 <= j < c0.len() implies (#[trigger] c0[j]).name.len() > 0
            && no_slash(c0[j].name) by {
            assert(c0[j] == c[j]);
        }
        lemma_segments_of_chain(c0, top);
        assert(c[c.len() - 1] == c.last());
        lemma_segments_step(top_prefix(top) + names_path(c0), c.last().name);
        assert(top_prefix(top) + names_path(c) =~= top_prefix(top) + names_path(c0) + seq!['/']
            + c.last().name);
        assert(names_of(c) =~= names_of(c0).push(c.last().name));
    }
}

proof fn lemma_named_member(es: Seq<EntryView>, e: EntryView)
    requires
        es.contains(e),
    ensures
        named_children(es, e.parent, e.name).contains(e),
    decreases es.len(),
{
    if es.last() == e {
        let n = named_children(es, e.parent, e.name);
        assert(n[n.len() - 1] == e);
    } else {
        let k = choose|k: int| 0 <= k < es.len() && es[k] == e;
        assert(k < es.len() - 1);
        assert(es.drop_last()[k] == e);
        lemma_named_member(es.drop_last(), e);
        let p = named_children(es.drop_last(), e.parent, e.name);
        let j = choose|j: int| 0 <= j < p.len() && p[j] == e;
        let n = named_children(es, e.parent, e.name);
        assert(n[j] == e);
    }
}

proof fn lemma_walk_chain(es: Seq<EntryView>, segs: Seq<Seq<char>>, off: nat, c: Seq<EntryView>, j: nat)
    requires
        c.len() > 0,
        j < c.len(),
        off <= segs.len(),
        segs == segs.take(off as int) + names_of(c),
        unambiguous(es, c),
        forall|i: int| 0 <= i < c.len() ==> es.contains(#[trigger] c[i]),
        forall|i: int| 0 < i < c.len() ==> (#[trigger] c[i]).parent == Parent::Folder(
            c[i - 1].uuid,
        ),
    ensures
        walk(es, segs, off + j, c[j as int].parent) == Ok::<
            Option<EntryView>,
            MetadataErrorView,
        >(Some(c.last())),
    decreases c.len() - j,
{
    let e = c[j as int];
    assert(segs[(off + j) as int] == names_of(c)[j as int]);
    assert(segs.len() == off + c.len());
    lemma_named_member(es, e);
    let n = named_children(es, e.parent, e.name);
    let k = choose|k: int| 0 <= k < n.len() && n[k] == e;
    assert(n[0] == e);
    assert(spec_lookup_child(es, e.parent, e.name) == LookupView::Entry(e));
    if j + 1 == c.len() {
        assert(spec_lookup_leaf(es, e.parent, e.name) == LookupView::Entry(e));
        assert(c.last() == e);
    } else {
        assert(spec_is_folder(e));
        lemma_walk_chain(es, segs, off, c, j + 1);
        assert(c[(j + 1) as int].parent == Parent::Folder(e.uuid));
    }
}

proof fn lemma_path_starts_with_slash(c: Seq<EntryView>, top: Parent)
    requires
        c.len() > 0,
    ensures
        (top_prefix(top) + names_path(c)).len() > 0,
        (top_prefix(top) + names_path(c))[0] == '/',
{
    lemma_names_path_start(c);
    if top == Parent::Trash {
        assert((top_prefix(top) + names_path(c))[0] == trash_prefix()[0]);
    } else {
        assert(top_prefix(top) + names_path(c) =~= names_path(c));
    }
}

/// The path shown for an entry leads back to it: resolving the display
/// path of `uuid` gives its entry, whenever every name on the way is a
/// plain segment unique among its siblings, every step up is a folder, and
/// no top-level folder at the root is named `trash`.
pub proof fn law_display_path_resolves(es: Seq<EntryView>, uuid: u128)
    requires
        spec_display_path(es, uuid) is Some,
        unambiguous(es, chain(es, uuid, es.len())),
    ensures
        spec_resolve_path(es, spec_display_path(es, uuid)->Some_0) == Ok::<
            Option<EntryView>,
            MetadataErrorView,
        >(spec_get(es, uuid)),
{
    let c = chain(es, uuid, es.len());
    lemma_chain_shape(es, uuid, es.len());
    let top = c[0].parent;
    let path = spec_display_path(es, uuid)->Some_0;
    assert(path == top_prefix(top) + names_path(c));
    assert forall|j: int| 0 <= j < c.len() implies (#[trigger] c[j]).name.len() > 0 && no_slash(
        c[j].name,
    ) by {}
    lemma_segments_of_chain(c, top);
    lemma_path_starts_with_slash(c, top);
    let segs = path_segments(path);
    reveal_strlit("trash");
    assert("trash"@ =~= seq!['t', 'r', 'a', 's', 'h']);
    if top == Parent::Trash {
        assert(segs == seq![seq!['t', 'r', 'a', 's', 'h']] + names_of(c));
        assert(segs[0] == "trash"@);
        assert(segs.take(1) =~= seq![seq!['t', 'r', 'a', 's', 'h']]);
        lemma_walk_chain(es, segs, 1, c, 0);
    } else {
        assert(segs =~= names_of(c));
        assert(segs[0] == c[0].name);
        assert(segs.take(0) + names_of(c) =~= segs);
        lemma_walk_chain(es, segs, 0, c, 0);
    }
}

proof fn lemma_names_path_start(c: Seq<EntryView>)
    requires
        c.len() > 0,
    ensures
        names_path(c).len() > 0,
        names_path(c)[0] == '/',
    decreases c.len(),
{
    let c0 = c.drop_last();
    let np0 = names_path(c0);
    assert(names_path(c) == np0 + seq!['/'] + c.last().name);
    if c.len() > 1 {
        lemma_names_path_start(c0);
        assert(names_path(c)[0] == np0[0]);
    } else {
        assert(np0 =~= Seq::<char>::empty());
        assert(names_path(c)[0] == '/');
    }
}


/// The path that `resolve_uuid_to_path` gives for a UUID resolves back to
/// that UUID's entry, trashed entries included, when every name on its
/// folder chain is non-empty, free of `/`, unique among its siblings, and a
/// top-level entry at the root is not named `trash`.
pub proof fn law_uuid_path_round_trip(es: Seq<EntryView>, uuid: u128, path: Seq<char>)
    requires
        spec_resolve_uuid_to_path(es, uuid) == Ok::<Seq<char>, MetadataErrorView>(path),
        unambiguous(es, chain(es, uuid, es.len())),
    ensures
        spec_resolve_path(es, path) matches Ok(Some(e)) && e.uuid == uuid,
{
    law_display_path_resolves(es, uuid);
    lemma_get_found(es, uuid);
}


/// `c` is a chain of entries hanging below folder `a`, each one level
/// deeper: `c[0]` sits in `a`, each later entry sits in the one before it,
/// and each is the tree's entry for its UUID.
pub open spec fn folder_chain(es: Seq<EntryView>, a: u128, c: Seq<EntryView>) -> bool {
    &&& c.len() > 0
    &&& c[0].parent == Parent::Folder(a)
    &&& forall|i: int| 0 < i < c.len() ==> (#[trigger] c[i]).parent == Parent::Folder(c[i - 1].uuid)
    &&& forall|i: int| 0 <= i < c.len() ==> spec_get(es, (#[trigger] c[i]).uuid) == Some(c[i])
}

pub open spec fn chain_uuids(c: Seq<EntryView>) -> Seq<u128> {
    c.map_values(|e: EntryView| e.uuid)
}

proof fn lemma_ancestor_fuel_mono(es: Seq<EntryView>, u: u128, a: u128, f: nat, g: nat)
    requires
        has_ancestor(es, u, a, f),
        f <= g,
    ensures
        has_ancestor(es, u, a, g),
    decreases f,
{
    match spec_get(es, u) {
        Some(e) => match e.parent {
            Parent::Folder(p) => if p != a {
                lemma_ancestor_fuel_mono(es, p, a, (f - 1) as nat, (g - 1) as nat);
            },
            _ => {},
        },
        None => {},
    }
}

proof fn lemma_chain_ancestor(es: Seq<EntryView>, a: u128, c: Seq<EntryView>, i: int)
    requires
        folder_chain(es, a, c),
        0 <= i < c.len(),
    ensures
        has_ancestor(es, c[i].uuid, a, i as nat),
    decreases i,
{
    assert(spec_get(es, c[i].uuid) == Some(c[i]));
    if i > 0 {
        lemma_chain_ancestor(es, a, c, i - 1);
        assert(c[i].parent == Parent::Folder(c[i - 1].uuid));
    }
}

proof fn lemma_chain_fits(es: Seq<EntryView>, a: u128, c: Seq<EntryView>)
    requires
        folder_chain(es, a, c),
        chain_uuids(c).no_duplicates(),
    ensures
        c.len() <= es.len(),
{
    let u = chain_uuids(c);
    let w = es.map_values(|e: EntryView| e.uuid);
    assert forall|x: u128| u.to_set().contains(x) implies w.to_set().contains(x) by {
        let i = choose|i: int| 0 <= i < u.len() && u[i] == x;
        assert(u[i] == c[i].uuid);
        assert(spec_get(es, c[i].uuid) == Some(c[i]));
        lemma_get_found(es, c[i].uuid);
        let k = choose|k: int| 0 <= k < es.len() && es[k] == c[i];
        assert(w[k] == x);
    }
    u.unique_seq_to_set();
    w.lemma_cardinality_of_set();
    vstd::set_lib::lemma_len_subset(u.to_set(), w.to_set());
}

/// Being below a folder reaches every depth: each entry of a chain hanging
/// below folder `a` (each sitting in the one before it, with distinct
/// UUIDs) lies below `a`, however deep it is.
pub proof fn law_descendant_through_chain(es: Seq<EntryView>, a: u128, c: Seq<EntryView>)
    requires
        folder_chain(es, a, c),
        chain_uuids(c).no_duplicates(),
    ensures
        forall|i: int| 0 <= i < c.len() ==> spec_is_descendant(es, #[trigger] c[i].uuid, a),
{
    lemma_chain_fits(es, a, c);
    assert forall|i: int| 0 <= i < c.len() implies spec_is_descendant(es, #[trigger] c[i].uuid, a) by {
        lemma_chain_ancestor(es, a, c, i);
        lemma_ancestor_fuel_mono(es, c[i].uuid, a, i as nat, es.len());
    }
}

} // verus!
