//! Resolution of human-readable paths and UUIDs to entries of the tree.

use vstd::prelude::*;

use crate::metadata::error::{MetadataError, MetadataErrorView};
use crate::metadata::suggest::{
    spec_strip_extension, spec_suggestions, strip_known_extension, suggest_siblings, views,
};
use crate::metadata::tree::{
    children_of, lookup_agrees, lookup_of, spec_display_path, spec_get, spec_is_folder,
    spec_lookup_child, ChildLookup, DocumentEntry, DocumentTree, EntryView, ItemKind, LookupView,
    Parent,
};
use crate::metadata::uuid_text::{
    lemma_uuid_text_len, parse_uuid, spec_parse_uuid, spec_uuid_text, uuid_text,
};
use crate::text::{append_char, chars_of, join, join_strings, str_eq, string_from_chars};

verus! {

/// Result of resolving a path-or-UUID argument.
#[derive(Debug)]
pub enum Resolved<'a> {
    Root,
    Entry(&'a DocumentEntry),
}

/// A resolution result against its specification: `Ok(None)` is the root.
pub open spec fn resolved_agrees(
    r: Result<Resolved<'_>, MetadataError>,
    s: Result<Option<EntryView>, MetadataErrorView>,
) -> bool {
    match (r, s) {
        (Ok(Resolved::Root), Ok(None)) => true,
        (Ok(Resolved::Entry(e)), Ok(Some(v))) => e@ == v,
        (Err(e), Err(v)) => e@ == v,
        _ => false,
    }
}

/// One character of a left-to-right split: finished parts and the part
/// being read.
pub open spec fn split_step(st: (Seq<Seq<char>>, Seq<char>), c: char) -> (
    Seq<Seq<char>>,
    Seq<char>,
) {
    if c == '/' {
        if st.1.len() == 0 {
            (st.0, Seq::empty())
        } else {
            (st.0.push(st.1), Seq::empty())
        }
    } else {
        (st.0, st.1.push(c))
    }
}

pub open spec fn split_state(s: Seq<char>) -> (Seq<Seq<char>>, Seq<char>)
    decreases s.len(),
{
    if s.len() == 0 {
        (Seq::empty(), Seq::empty())
    } else {
        split_step(split_state(s.drop_last()), s.last())
    }
}

/// The non-empty `/`-separated parts of a path, in order.
pub open spec fn path_segments(s: Seq<char>) -> Seq<Seq<char>> {
    let st = split_state(s);
    if st.1.len() == 0 {
        st.0
    } else {
        st.0.push(st.1)
    }
}

/// Documents of type `ft` named `stem` among `cs`, in order.
pub open spec fn typed_named(cs: Seq<EntryView>, stem: Seq<char>, ft: crate::metadata::tree::FileType) -> Seq<EntryView>
    decreases cs.len(),
{
    if cs.len() == 0 {
        Seq::empty()
    } else {
        let prev = typed_named(cs.drop_last(), stem, ft);
        let e = cs.last();
        if e.name == stem && (match e.kind {
            ItemKind::Document { file_type, .. } => file_type == ft,
            _ => false,
        }) {
            prev.push(e)
        } else {
            prev
        }
    }
}

/// Lookup of the last path segment: a literal name match wins; only when
/// there is none, `Name.<ext>` matches documents named `Name` of that type.
pub open spec fn spec_lookup_leaf(es: Seq<EntryView>, parent: Parent, seg: Seq<char>) -> LookupView {
    let first = spec_lookup_child(es, parent, seg);
    if !(first is Missing) {
        first
    } else {
        match spec_strip_extension(seg) {
            None => LookupView::Missing,
            Some((stem, ft)) => lookup_of(typed_named(children_of(es, parent), stem, ft)),
        }
    }
}

pub open spec fn quoted(s: Seq<char>) -> Seq<char> {
    seq!['\''] + s + seq!['\'']
}

/// "'seg' not found in /a/b", with up to three suggestions.
pub open spec fn missing_message(es: Seq<EntryView>, segs: Seq<Seq<char>>, i: int, parent: Parent) -> Seq<char> {
    let base = quoted(segs[i]) + " not found in /"@ + join(segs.take(i), "/"@);
    let sugg = spec_suggestions(es, parent, segs[i], 3);
    if sugg.len() == 0 {
        base
    } else {
        base + "\n  did you mean: "@ + join(sugg, ", "@)
    }
}

pub open spec fn not_folder_message(seg: Seq<char>) -> Seq<char> {
    quoted(seg) + " is not a folder"@
}

pub open spec fn ambiguous_message(seg: Seq<char>) -> Seq<char> {
    "ambiguous: multiple items named "@ + quoted(seg) + " in the same folder — use a UUID instead"@
}

/// Walk the segments from position `i` below `parent`.
pub open spec fn walk(es: Seq<EntryView>, segs: Seq<Seq<char>>, i: nat, parent: Parent) -> Result<
    Option<EntryView>,
    MetadataErrorView,
>
    decreases segs.len() - i,
{
    if i >= segs.len() {
        Ok(None)
    } else {
        let leaf = i + 1 == segs.len();
        let seg = segs[i as int];
        let found = if leaf {
            spec_lookup_leaf(es, parent, seg)
        } else {
            spec_lookup_child(es, parent, seg)
        };
        match found {
            LookupView::Missing => Err(
                MetadataErrorView::NotFound(missing_message(es, segs, i as int, parent)),
            ),
            LookupView::Entry(e) => if leaf {
                Ok(Some(e))
            } else if !spec_is_folder(e) {
                Err(MetadataErrorView::InvalidPath(not_folder_message(seg)))
            } else {
                walk(es, segs, i + 1, Parent::Folder(e.uuid))
            },
            LookupView::Ambiguous => Err(MetadataErrorView::InvalidPath(ambiguous_message(seg))),
        }
    }
}

/// What `resolve_path` gives for `path`: the root for `/`, the entry the
/// segments lead to, or the error at the first segment that fails.
pub open spec fn spec_resolve_path(es: Seq<EntryView>, path: Seq<char>) -> Result<
    Option<EntryView>,
    MetadataErrorView,
> {
    if path.len() == 0 || path[0] != '/' {
        Err(MetadataErrorView::InvalidPath("path must start with '/': "@ + path))
    } else {
        let segs = path_segments(path);
        if segs.len() == 0 {
            Ok(None)
        } else if segs[0] == "trash"@ {
            if segs.len() == 1 {
                Err(
                    MetadataErrorView::InvalidPath(
                        "'/trash' is a virtual container; specify an item path under it"@,
                    ),
                )
            } else {
                walk(es, segs, 1, Parent::Trash)
            }
        } else {
            walk(es, segs, 0, Parent::Root)
        }
    }
}

/// The non-empty `/`-separated parts of a path.
pub fn split_segments(path: &Vec<char>) -> (r: Vec<String>)
    ensures
        views(r@) == path_segments(path@),
{
    let mut done: Vec<String> = Vec::new();
    let mut cur = String::new();
    let mut i: usize = 0;
    while i < path.len()
        invariant
            i <= path@.len(),
            (views(done@), cur@) == split_state(path@.take(i as int)),
        decreases path@.len() - i,
    {
        proof {
            assert(path@.take(i + 1).drop_last() =~= path@.take(i as int));
        }
        let c = path[i];
        if c == '/' {
            if cur.unicode_len() > 0 {
                let ghost before = done@;
                done.push(cur);
                assert(views(done@) =~= views(before).push(cur@));
            }
            cur = String::new();
        } else {
            append_char(&mut cur, c);
        }
        i = i + 1;
    }
    proof {
        assert(path@.take(path@.len() as int) =~= path@);
    }
    if cur.unicode_len() > 0 {
        let ghost before = done@;
        done.push(cur);
        assert(views(done@) =~= views(before).push(cur@));
    }
    done
}

proof fn lemma_typed_step(cs: Seq<EntryView>, stem: Seq<char>, ft: crate::metadata::tree::FileType, i: int)
    requires
        0 <= i < cs.len(),
    ensures
        typed_named(cs.take(i + 1), stem, ft) == (if cs[i].name == stem && (match cs[i].kind {
            ItemKind::Document { file_type, .. } => file_type == ft,
            _ => false,
        }) {
            typed_named(cs.take(i), stem, ft).push(cs[i])
        } else {
            typed_named(cs.take(i), stem, ft)
        }),
{
    assert(cs.take(i + 1).drop_last() =~= cs.take(i));
}

/// Look up the leaf segment, accepting `Name.<ext>` for a document `Name`
/// of that type when no child is literally named `Name.<ext>`.
fn lookup_leaf<'a>(tree: &'a DocumentTree, parent: &Parent, segment: &str) -> (r: ChildLookup<'a>)
    ensures
        lookup_agrees(r, spec_lookup_leaf(tree@, *parent, segment@)),
{
    let initial = tree.lookup_child(parent, segment);
    match initial {
        ChildLookup::Missing => {},
        _ => {
            return initial;
        },
    }
    let seg = chars_of(segment);
    let (k, ft) = match strip_known_extension(&seg) {
        None => {
            return ChildLookup::Missing;
        },
        Some(p) => p,
    };
    let stem = string_from_chars(&seg, 0, k);
    let kids = tree.child_entries(parent);
    let ghost cs = children_of(tree@, *parent);
    let mut first: Option<&DocumentEntry> = None;
    let mut count: usize = 0;
    let mut i: usize = 0;
    while i < kids.len()
        invariant
            kids@.map_values(|e: &DocumentEntry| e@) == cs,
            i <= cs.len(),
            count == typed_named(cs.take(i as int), stem@, ft).len(),
            count <= i,
            count > 0 ==> first is Some && first->Some_0@ == typed_named(
                cs.take(i as int),
                stem@,
                ft,
            )[0],
        decreases cs.len() - i,
    {
        let e = kids[i];
        proof {
            assert(cs[i as int] == e@);
            lemma_typed_step(cs, stem@, ft, i as int);
        }
        let same_type = match e.kind {
            ItemKind::Document { file_type, .. } => file_type == ft,
            _ => false,
        };
        if same_type && str_eq(e.visible_name.as_str(), stem.as_str()) {
            if count == 0 {
                first = Some(e);
            }
            count = count + 1;
        }
        i = i + 1;
    }
    proof {
        assert(cs.take(cs.len() as int) =~= cs);
    }
    if count == 0 {
        ChildLookup::Missing
    } else if count == 1 {
        ChildLookup::Entry(first.unwrap())
    } else {
        ChildLookup::Ambiguous
    }
}

/// Append `'s'`.
pub fn quote_into(m: &mut String, s: &str)
    ensures
        final(m)@ == old(m)@ + quoted(s@),
{
    append_char(m, '\'');
    m.append(s);
    append_char(m, '\'');
    proof {
        assert(final(m)@ =~= old(m)@ + quoted(s@));
    }
}

fn missing_error(tree: &DocumentTree, segs: &Vec<String>, i: usize, parent: &Parent) -> (m: String)
    requires
        i < segs@.len(),
    ensures
        m@ == missing_message(tree@, views(segs@), i as int, *parent),
{
    let ghost sv = views(segs@);
    let mut m = String::new();
    quote_into(&mut m, segs[i].as_str());
    m.append(" not found in /");
    let mut head: Vec<String> = Vec::new();
    let mut k: usize = 0;
    while k < i
        invariant
            sv == views(segs@),
            k <= i < segs@.len(),
            views(head@) == sv.take(k as int),
        decreases i - k,
    {
        let ghost before = head@;
        let piece = segs[k].clone();
        head.push(piece);
        proof {
            assert(piece@ == sv[k as int]);
            assert(views(head@) =~= views(before).push(piece@));
            assert(sv.take(k + 1) =~= sv.take(k as int).push(sv[k as int]));
        }
        k = k + 1;
    }
    let joined = join_strings(&head, "/");
    m.append(joined.as_str());
    let sugg = suggest_siblings(tree, parent, segs[i].as_str(), 3);
    if sugg.len() > 0 {
        m.append("\n  did you mean: ");
        let listed = join_strings(&sugg, ", ");
        m.append(listed.as_str());
    }
    proof {
        let base = quoted(sv[i as int]) + " not found in /"@ + join(sv.take(i as int), "/"@);
        if sugg@.len() == 0 {
            assert(m@ =~= base);
        } else {
            assert(m@ =~= base + "\n  did you mean: "@ + join(views(sugg@), ", "@));
        }
    }
    m
}

fn not_folder_error(seg: &str) -> (m: String)
    ensures
        m@ == not_folder_message(seg@),
{
    let mut m = String::new();
    quote_into(&mut m, seg);
    m.append(" is not a folder");
    proof {
        assert(m@ =~= not_folder_message(seg@));
    }
    m
}

/// The message for several siblings sharing a name.
pub fn ambiguous_error(seg: &str) -> (m: String)
    ensures
        m@ == ambiguous_message(seg@),
{
    let mut m = String::new();
    m.append("ambiguous: multiple items named ");
    quote_into(&mut m, seg);
    m.append(" in the same folder — use a UUID instead");
    proof {
        assert(m@ =~= ambiguous_message(seg@));
    }
    m
}

/// Resolve a human-readable path like `/Work/Meeting Notes` to an entry.
///
/// `/` is the root; `/trash/<name>` is looked up in the virtual trash; each
/// segment is matched against the visible names at its level, and the last
/// one may carry its document's extension.
pub fn resolve_path<'a>(tree: &'a DocumentTree, path: &str) -> (r: Result<Resolved<'a>, MetadataError>)
    ensures
        resolved_agrees(r, spec_resolve_path(tree@, path@)),
{
    let chars = chars_of(path);
    if chars.len() == 0 || chars[0] != '/' {
        let mut m = String::new();
        m.append("path must start with '/': ");
        m.append(path);
        return Err(MetadataError::InvalidPath(m));
    }
    let segs = split_segments(&chars);
    let ghost sv = views(segs@);
    if segs.len() == 0 {
        return Ok(Resolved::Root);
    }
    proof {
        assert(sv[0] == segs@[0]@);
    }
    let mut parent = Parent::Root;
    let mut i: usize = 0;
    if str_eq(segs[0].as_str(), "trash") {
        if segs.len() == 1 {
            let mut m = String::new();
            m.append("'/trash' is a virtual container; specify an item path under it");
            return Err(MetadataError::InvalidPath(m));
        }
        parent = Parent::Trash;
        i = 1;
    }
    while i < segs.len()
        invariant
            sv == views(segs@),
            sv == path_segments(path@),
            i <= sv.len(),
            spec_resolve_path(tree@, path@) == walk(tree@, sv, i as nat, parent),
        decreases sv.len() - i,
    {
        let seg = segs[i].as_str();
        proof {
            assert(seg@ == sv[i as int]);
        }
        let leaf = i + 1 == segs.len();
        let found = if leaf {
            lookup_leaf(tree, &parent, seg)
        } else {
            tree.lookup_child(&parent, seg)
        };
        match found {
            ChildLookup::Missing => {
                let m = missing_error(tree, &segs, i, &parent);
                return Err(MetadataError::NotFound(m));
            },
            ChildLookup::Entry(e) => {
                if leaf {
                    return Ok(Resolved::Entry(e));
                }
                if !e.is_folder() {
                    return Err(MetadataError::InvalidPath(not_folder_error(seg)));
                }
                parent = Parent::Folder(e.uuid);
            },
            ChildLookup::Ambiguous => {
                return Err(MetadataError::InvalidPath(ambiguous_error(seg)));
            },
        }
        i = i + 1;
    }
    Ok(Resolved::Root)
}

/// Above `uuid`, within `fuel` folder steps, the chain reaches an entry
/// sitting at the root whose name is `trash`.
pub open spec fn under_root_trash(es: Seq<EntryView>, uuid: u128, fuel: nat) -> bool
    decreases fuel,
{
    match spec_get(es, uuid) {
        None => false,
        Some(e) => match e.parent {
            Parent::Root => e.name == "trash"@,
            Parent::Trash => false,
            Parent::Folder(p) => fuel > 0 && under_root_trash(es, p, (fuel - 1) as nat),
        },
    }
}

/// Creating `name` under `parent` would give it a real path at or under
/// `/trash`, which names the virtual trash container. A folder chain is
/// followed for at most as many steps as there are entries: a longer chain
/// repeats a folder, and a repeating chain never reaches the root.
pub open spec fn spec_would_create_reserved_trash_path(es: Seq<EntryView>, parent: Parent, name: Seq<char>) -> bool {
    match parent {
        Parent::Root => name == "trash"@,
        Parent::Trash => false,
        Parent::Folder(u) => under_root_trash(es, u, es.len()),
    }
}

pub open spec fn reserved_trash_message() -> Seq<char> {
    "cannot create a real path at or under /trash; trash is a virtual container"@
}

fn would_create_reserved_trash_path(tree: &DocumentTree, parent: &Parent, name: &str) -> (b: bool)
    ensures
        b == spec_would_create_reserved_trash_path(tree@, *parent, name@),
{
    let mut cur = match parent {
        Parent::Root => {
            return str_eq(name, "trash");
        },
        Parent::Trash => {
            return false;
        },
        Parent::Folder(u) => *u,
    };
    let n = tree.len();
    let mut fuel: usize = n;
    loop
        invariant
            fuel <= n,
            n == tree@.len(),
            spec_would_create_reserved_trash_path(tree@, *parent, name@) == under_root_trash(
                tree@,
                cur,
                fuel as nat,
            ),
        decreases fuel,
    {
        match tree.get(cur) {
            None => {
                return false;
            },
            Some(e) => match e.parent {
                Parent::Root => {
                    return str_eq(e.visible_name.as_str(), "trash");
                },
                Parent::Trash => {
                    return false;
                },
                Parent::Folder(p) => {
                    if fuel == 0 {
                        return false;
                    }
                    fuel = fuel - 1;
                    cur = p;
                },
            },
        }
    }
}

/// Reject writes that would make a real path at or under `/trash`; that
/// namespace belongs to the virtual trash container.
pub fn ensure_not_reserved_trash_path(tree: &DocumentTree, parent: &Parent, name: &str) -> (r: Result<(), MetadataError>)
    ensures
        match r {
            Ok(()) => !spec_would_create_reserved_trash_path(tree@, *parent, name@),
            Err(e) => spec_would_create_reserved_trash_path(tree@, *parent, name@) && e@
                == MetadataErrorView::InvalidPath(reserved_trash_message()),
        },
{
    if would_create_reserved_trash_path(tree, parent, name) {
        let mut m = String::new();
        m.append("cannot create a real path at or under /trash; trash is a virtual container");
        return Err(MetadataError::InvalidPath(m));
    }
    Ok(())
}

pub open spec fn uuid_not_found_message(uuid: u128) -> Seq<char> {
    "UUID "@ + spec_uuid_text(uuid) + " not found"@
}

fn uuid_not_found(uuid: u128) -> (e: MetadataError)
    ensures
        e@ == MetadataErrorView::NotFound(uuid_not_found_message(uuid)),
{
    let mut m = String::new();
    m.append("UUID ");
    let t = uuid_text(uuid);
    m.append(t.as_str());
    m.append(" not found");
    proof {
        assert(m@ =~= uuid_not_found_message(uuid));
    }
    MetadataError::NotFound(m)
}

/// What `resolve_uuid_to_path` gives: the entry's display path, `NotFound`
/// for an unknown UUID, `Cycle` when its folder chain does not end.
pub open spec fn spec_resolve_uuid_to_path(es: Seq<EntryView>, uuid: u128) -> Result<Seq<char>, MetadataErrorView> {
    match spec_get(es, uuid) {
        None => Err(MetadataErrorView::NotFound(uuid_not_found_message(uuid))),
        Some(_) => match spec_display_path(es, uuid) {
            Some(p) => Ok(p),
            None => Err(MetadataErrorView::Cycle { uuid }),
        },
    }
}

/// The full human-readable path of the entry with this UUID.
pub fn resolve_uuid_to_path(tree: &DocumentTree, uuid: u128) -> (r: Result<String, MetadataError>)
    ensures
        match (r, spec_resolve_uuid_to_path(tree@, uuid)) {
            (Ok(p), Ok(q)) => p@ == q,
            (Err(e), Err(v)) => e@ == v,
            _ => false,
        },
{
    if tree.get(uuid).is_none() {
        return Err(uuid_not_found(uuid));
    }
    match tree.display_path(uuid) {
        Some(p) => Ok(p),
        None => Err(MetadataError::Cycle { uuid }),
    }
}

/// What `resolve` gives once the input's UUID reading is known: an entry by
/// UUID when the input parses as one, else path resolution.
pub open spec fn spec_resolve_parsed(es: Seq<EntryView>, input: Seq<char>, parsed: Option<u128>) -> Result<
    Option<EntryView>,
    MetadataErrorView,
> {
    match parsed {
        Some(u) => match spec_get(es, u) {
            Some(e) => Ok(Some(e)),
            None => Err(MetadataErrorView::NotFound(uuid_not_found_message(u))),
        },
        None => spec_resolve_path(es, input),
    }
}

/// What `resolve` gives for a path-or-UUID argument.
pub open spec fn spec_resolve(es: Seq<EntryView>, input: Seq<char>) -> Result<
    Option<EntryView>,
    MetadataErrorView,
> {
    if input == "/"@ {
        Ok(None)
    } else {
        spec_resolve_parsed(es, input, spec_parse_uuid(input))
    }
}

/// Resolution of `input` given what it reads as a UUID (`parsed`).
pub fn resolve_parsed<'a>(tree: &'a DocumentTree, input: &str, parsed: Option<u128>) -> (r: Result<Resolved<'a>, MetadataError>)
    ensures
        resolved_agrees(r, spec_resolve_parsed(tree@, input@, parsed)),
{
    match parsed {
        Some(u) => match tree.get(u) {
            Some(e) => Ok(Resolved::Entry(e)),
            None => Err(uuid_not_found(u)),
        },
        None => resolve_path(tree, input),
    }
}

/// Accept either a UUID or a human path and resolve it; `/` is the root.
pub fn resolve<'a>(tree: &'a DocumentTree, input: &str) -> (r: Result<Resolved<'a>, MetadataError>)
    ensures
        resolved_agrees(r, spec_resolve(tree@, input@)),
        forall|u: u128|
            input@ == #[trigger] spec_uuid_text(u) ==> resolved_agrees(
                r,
                spec_resolve_parsed(tree@, input@, Some(u)),
            ),
{
    if str_eq(input, "/") {
        proof {
            reveal_strlit("/");
            assert forall|u: u128| input@ != #[trigger] spec_uuid_text(u) by {
                lemma_uuid_text_len(u);
            }
        }
        return Ok(Resolved::Root);
    }
    let parsed = parse_uuid(input);
    resolve_parsed(tree, input, parsed)
}

} // verus!
