//! Entries of the tablet's document store and the tree they form.
//!
//! UUIDs are held as their 128-bit value. An entry's parent is the root,
//! the virtual trash, or a folder. The tree keeps entries in load order;
//! the children of a parent are the entries naming it, in that order.

use vstd::prelude::*;

use crate::text::str_eq;

verus! {

#[derive(Debug, Clone, Copy, PartialEq, Eq, Structural)]
pub enum Parent {
    Root,
    Trash,
    Folder(u128),
}

#[derive(Debug, Clone, Copy, PartialEq, Eq, Structural)]
pub enum FileType {
    Pdf,
    Epub,
    Notebook,
}

pub open spec fn spec_extension(ft: FileType) -> Seq<char> {
    match ft {
        FileType::Pdf => seq!['p', 'd', 'f'],
        FileType::Epub => seq!['e', 'p', 'u', 'b'],
        FileType::Notebook => seq!['r', 'm'],
    }
}

impl FileType {
    /// File extension of the document's source (`rm` for notebooks).
    pub fn extension(self) -> (s: &'static str)
        ensures
            s@ == spec_extension(self),
    {
        match self {
            FileType::Pdf => {
                proof {
                    reveal_strlit("pdf");
                }
                "pdf"
            },
            FileType::Epub => {
                proof {
                    reveal_strlit("epub");
                }
                "epub"
            },
            FileType::Notebook => {
                proof {
                    reveal_strlit("rm");
                }
                "rm"
            },
        }
    }
}

/// The `type` recorded in a `.metadata` file.
#[derive(Debug, Clone, Copy, PartialEq, Eq, Structural)]
pub enum ItemType {
    Collection,
    Document,
    Template,
}

#[derive(Debug, Clone, Copy, PartialEq, Eq, Structural)]
pub enum ItemKind {
    Document { file_type: FileType, page_count: Option<u32> },
    Folder,
    Template,
}

/// Filter on entry kind when listing.
#[derive(Debug, Clone, Copy, PartialEq, Eq, Structural)]
pub enum EntryKindFilter {
    All,
    Documents,
    Folders,
}

/// One item of the document store. Times are Unix milliseconds.
#[derive(Debug, Clone)]
pub struct DocumentEntry {
    pub uuid: u128,
    pub visible_name: String,
    pub kind: ItemKind,
    pub parent: Parent,
    pub deleted: bool,
    pub pinned: bool,
    pub last_modified_ms: i64,
    pub version: u64,
    pub tags: Vec<String>,
    pub last_opened_ms: Option<i64>,
}

/// What the tree logic reads of an entry.
pub struct EntryView {
    pub uuid: u128,
    pub name: Seq<char>,
    pub kind: ItemKind,
    pub parent: Parent,
    pub deleted: bool,
}

impl View for DocumentEntry {
    type V = EntryView;

    open spec fn view(&self) -> EntryView {
        EntryView {
            uuid: self.uuid,
            name: self.visible_name@,
            kind: self.kind,
            parent: self.parent,
            deleted: self.deleted,
        }
    }
}

pub open spec fn spec_is_folder(e: EntryView) -> bool {
    e.kind == ItemKind::Folder
}

/// An entry is trashed when it sits directly in the trash or is flagged
/// deleted.
pub open spec fn spec_is_trashed(e: EntryView) -> bool {
    e.parent == Parent::Trash || e.deleted
}

impl DocumentEntry {
    pub fn is_folder(&self) -> (b: bool)
        ensures
            b == spec_is_folder(self@),
    {
        match self.kind {
            ItemKind::Folder => true,
            _ => false,
        }
    }

    pub fn is_trashed(&self) -> (b: bool)
        ensures
            b == spec_is_trashed(self@),
    {
        self.parent == Parent::Trash || self.deleted
    }
}

/// The entries of `es` whose parent is `parent`, in order.
pub open spec fn children_of(es: Seq<EntryView>, parent: Parent) -> Seq<EntryView>
    decreases es.len(),
{
    if es.len() == 0 {
        Seq::empty()
    } else {
        let prev = children_of(es.drop_last(), parent);
        if es.last().parent == parent {
            prev.push(es.last())
        } else {
            prev
        }
    }
}

/// The children of `parent` named `name`, in order.
pub open spec fn named_children(es: Seq<EntryView>, parent: Parent, name: Seq<char>) -> Seq<
    EntryView,
>
    decreases es.len(),
{
    if es.len() == 0 {
        Seq::empty()
    } else {
        let prev = named_children(es.drop_last(), parent, name);
        if es.last().parent == parent && es.last().name == name {
            prev.push(es.last())
        } else {
            prev
        }
    }
}

/// The first entry with this UUID.
pub open spec fn spec_get(es: Seq<EntryView>, uuid: u128) -> Option<EntryView>
    decreases es.len(),
{
    if es.len() == 0 {
        None
    } else {
        match spec_get(es.drop_last(), uuid) {
            Some(e) => Some(e),
            None => if es.last().uuid == uuid {
                Some(es.last())
            } else {
                None
            },
        }
    }
}

/// Outcome of looking a name up among a parent's children.
pub enum LookupView {
    Missing,
    Entry(EntryView),
    Ambiguous,
}

/// No child with the name, exactly one, or several.
pub open spec fn lookup_of(matches: Seq<EntryView>) -> LookupView {
    if matches.len() == 0 {
        LookupView::Missing
    } else if matches.len() == 1 {
        LookupView::Entry(matches[0])
    } else {
        LookupView::Ambiguous
    }
}

pub open spec fn spec_lookup_child(es: Seq<EntryView>, parent: Parent, name: Seq<char>) -> LookupView {
    lookup_of(named_children(es, parent, name))
}

pub open spec fn trash_prefix() -> Seq<char> {
    seq!['/', 't', 'r', 'a', 's', 'h']
}

/// Human-readable path of an entry: `/a/b/name`, or `/trash/a/name` when
/// the chain ends in the trash. Absent when an ancestor is missing or the
/// chain is longer than `fuel` folder steps (which a cycle always is).
pub open spec fn chain_path(es: Seq<EntryView>, uuid: u128, fuel: nat) -> Option<Seq<char>>
    decreases fuel,
{
    match spec_get(es, uuid) {
        None => None,
        Some(e) => match e.parent {
            Parent::Root => Some(seq!['/'] + e.name),
            Parent::Trash => Some(trash_prefix() + seq!['/'] + e.name),
            Parent::Folder(p) => if fuel == 0 {
                None
            } else {
                match chain_path(es, p, (fuel - 1) as nat) {
                    Some(pp) => Some(pp + seq!['/'] + e.name),
                    None => None,
                }
            },
        },
    }
}

pub open spec fn spec_display_path(es: Seq<EntryView>, uuid: u128) -> Option<Seq<char>> {
    chain_path(es, uuid, es.len())
}

/// Some folder step up from `uuid`, within `fuel` steps, reaches `ancestor`.
pub open spec fn has_ancestor(es: Seq<EntryView>, uuid: u128, ancestor: u128, fuel: nat) -> bool
    decreases fuel,
{
    match spec_get(es, uuid) {
        None => false,
        Some(e) => match e.parent {
            Parent::Folder(p) => p == ancestor || (fuel > 0 && has_ancestor(
                es,
                p,
                ancestor,
                (fuel - 1) as nat,
            )),
            _ => false,
        },
    }
}

/// `uuid` lies somewhere below folder `ancestor`.
pub open spec fn spec_is_descendant(es: Seq<EntryView>, uuid: u128, ancestor: u128) -> bool {
    has_ancestor(es, uuid, ancestor, es.len())
}

/// A child lookup result.
pub enum ChildLookup<'a> {
    Missing,
    Entry(&'a DocumentEntry),
    Ambiguous,
}

pub open spec fn lookup_agrees(r: ChildLookup<'_>, v: LookupView) -> bool {
    match (r, v) {
        (ChildLookup::Missing, LookupView::Missing) => true,
        (ChildLookup::Entry(e), LookupView::Entry(ev)) => e@ == ev,
        (ChildLookup::Ambiguous, LookupView::Ambiguous) => true,
        _ => false,
    }
}

/// The document store as a list of entries.
#[derive(Debug)]
pub struct DocumentTree {
    entries: Vec<DocumentEntry>,
}

impl View for DocumentTree {
    type V = Seq<EntryView>;

    closed spec fn view(&self) -> Seq<EntryView> {
        self.entries@.map_values(|e: DocumentEntry| e@)
    }
}

proof fn lemma_get_prefix(es: Seq<EntryView>, k: int, uuid: u128)
    requires
        0 <= k <= es.len(),
        spec_get(es.take(k), uuid) is Some,
    ensures
        spec_get(es, uuid) == spec_get(es.take(k), uuid),
    decreases es.len() - k,
{
    if k < es.len() {
        assert(es.take(k + 1).drop_last() =~= es.take(k));
        lemma_get_prefix(es, k + 1, uuid);
    } else {
        assert(es.take(k) =~= es);
    }
}

impl DocumentTree {
    pub fn build(entries: Vec<DocumentEntry>) -> (t: DocumentTree)
        ensures
            t@ == entries@.map_values(|e: DocumentEntry| e@),
    {
        DocumentTree { entries }
    }

    pub fn len(&self) -> (n: usize)
        ensures
            n == self@.len(),
    {
        self.entries.len()
    }

    /// The entry at position `i` of load order.
    pub fn entry(&self, i: usize) -> (e: &DocumentEntry)
        requires
            i < self@.len(),
        ensures
            e@ == self@[i as int],
    {
        &self.entries[i]
    }

    pub fn get(&self, uuid: u128) -> (r: Option<&DocumentEntry>)
        ensures
            match spec_get(self@, uuid) {
                Some(e) => r is Some && r->Some_0@ == e,
                None => r is None,
            },
    {
        let ghost es = self@;
        let mut i: usize = 0;
        while i < self.entries.len()
            invariant
                es == self@,
                i <= es.len(),
                spec_get(es.take(i as int), uuid) is None,
            decreases es.len() - i,
        {
            proof {
                assert(es.take(i + 1).drop_last() =~= es.take(i as int));
            }
            if self.entries[i].uuid == uuid {
                proof {
                    lemma_get_prefix(es, i + 1, uuid);
                }
                return Some(&self.entries[i]);
            }
            i = i + 1;
        }
        proof {
            assert(es.take(es.len() as int) =~= es);
        }
        None
    }

    /// The children of `parent`, in load order.
    pub fn child_entries(&self, parent: &Parent) -> (r: Vec<&DocumentEntry>)
        ensures
            r@.map_values(|e: &DocumentEntry| e@) == children_of(self@, *parent),
    {
        let ghost es = self@;
        let mut out: Vec<&DocumentEntry> = Vec::new();
        let mut i: usize = 0;
        while i < self.entries.len()
            invariant
                es == self@,
                i <= es.len(),
                out@.map_values(|e: &DocumentEntry| e@) == children_of(es.take(i as int), *parent),
            decreases es.len() - i,
        {
            proof {
                assert(es.take(i + 1).drop_last() =~= es.take(i as int));
            }
            let e = &self.entries[i];
            if e.parent == *parent {
                let ghost prev = out@;
                out.push(e);
                proof {
                    assert(out@.map_values(|e: &DocumentEntry| e@) =~= prev.map_values(
                        |e: &DocumentEntry| e@,
                    ).push(e@));
                }
            }
            i = i + 1;
        }
        proof {
            assert(es.take(es.len() as int) =~= es);
        }
        out
    }

    pub fn children_count(&self, parent: &Parent) -> (n: usize)
        ensures
            n == children_of(self@, *parent).len(),
    {
        let ghost es = self@;
        let mut n: usize = 0;
        let mut i: usize = 0;
        while i < self.entries.len()
            invariant
                es == self@,
                i <= es.len(),
                n == children_of(es.take(i as int), *parent).len(),
                n <= i,
            decreases es.len() - i,
        {
            proof {
                assert(es.take(i + 1).drop_last() =~= es.take(i as int));
            }
            if self.entries[i].parent == *parent {
                n = n + 1;
            }
            i = i + 1;
        }
        proof {
            assert(es.take(es.len() as int) =~= es);
        }
        n
    }

    /// Look `name` up among the children of `parent`.
    pub fn lookup_child(&self, parent: &Parent, name: &str) -> (r: ChildLookup<'_>)
        ensures
            lookup_agrees(r, spec_lookup_child(self@, *parent, name@)),
    {
        let ghost es = self@;
        let mut first: Option<&DocumentEntry> = None;
        let mut count: usize = 0;
        let mut i: usize = 0;
        while i < self.entries.len()
            invariant
                es == self@,
                i <= es.len(),
                count == named_children(es.take(i as int), *parent, name@).len(),
                count <= i,
                count > 0 ==> first is Some && first->Some_0@ == named_children(
                    es.take(i as int),
                    *parent,
                    name@,
                )[0],
            decreases es.len() - i,
        {
            proof {
                assert(es.take(i + 1).drop_last() =~= es.take(i as int));
            }
            let e = &self.entries[i];
            if e.parent == *parent && str_eq(e.visible_name.as_str(), name) {
                if count == 0 {
                    first = Some(e);
                }
                count = count + 1;
            }
            i = i + 1;
        }
        proof {
            assert(es.take(es.len() as int) =~= es);
        }
        if count == 0 {
            ChildLookup::Missing
        } else if count == 1 {
            ChildLookup::Entry(first.unwrap())
        } else {
            ChildLookup::Ambiguous
        }
    }

    /// Whether `uuid` lies below folder `ancestor`.
    pub fn is_descendant(&self, uuid: u128, ancestor: u128) -> (b: bool)
        ensures
            b == spec_is_descendant(self@, uuid, ancestor),
    {
        let ghost es = self@;
        let n = self.entries.len();
        let mut cur = uuid;
        let mut fuel: usize = n;
        loop
            invariant
                es == self@,
                fuel <= n,
                n == es.len(),
                spec_is_descendant(es, uuid, ancestor) == has_ancestor(es, cur, ancestor, fuel as nat),
            decreases fuel,
        {
            match self.get(cur) {
                None => {
                    return false;
                },
                Some(e) => match e.parent {
                    Parent::Folder(p) => {
                        if p == ancestor {
                            return true;
                        }
                        if fuel == 0 {
                            return false;
                        }
                        fuel = fuel - 1;
                        cur = p;
                    },
                    _ => {
                        return false;
                    },
                },
            }
        }
    }

    /// Human-readable path of the entry with this UUID.
    pub fn display_path(&self, uuid: u128) -> (r: Option<String>)
        ensures
            match spec_display_path(self@, uuid) {
                Some(p) => r is Some && r->Some_0@ == p,
                None => r is None,
            },
    {
        let ghost es = self@;
        let n = self.entries.len();
        let mut cur = uuid;
        let mut fuel: usize = n;
        let mut tail = String::new();
        loop
            invariant
                es == self@,
                fuel <= n,
                n == es.len(),
                spec_display_path(es, uuid) == (match chain_path(es, cur, fuel as nat) {
                    Some(p) => Some(p + tail@),
                    None => None::<Seq<char>>,
                }),
            decreases fuel,
        {
            match self.get(cur) {
                None => {
                    return None;
                },
                Some(e) => {
                    let mut piece = String::new();
                    match e.parent {
                        Parent::Root => {
                            piece.append("/");
                            proof {
                                reveal_strlit("/");
                            }
                        },
                        Parent::Trash => {
                            piece.append("/trash/");
                            proof {
                                reveal_strlit("/trash/");
                            }
                        },
                        Parent::Folder(_) => {
                            piece.append("/");
                            proof {
                                reveal_strlit("/");
                            }
                        },
                    }
                    piece.append(e.visible_name.as_str());
                    piece.append(tail.as_str());
                    match e.parent {
                        Parent::Folder(p) => {
                            if fuel == 0 {
                                return None;
                            }
                            fuel = fuel - 1;
                            cur = p;
                            proof {
                                assert(piece@ =~= seq!['/'] + e.visible_name@ + tail@);
                                let old_tail = tail@;
                                match chain_path(es, p, fuel as nat) {
                                    Some(pp) => {
                                        assert(pp + seq!['/'] + e.visible_name@ + old_tail =~= pp
                                            + piece@);
                                    },
                                    None => {},
                                }
                            }
                            tail = piece;
                        },
                        _ => {
                            proof {
                                assert(piece@ =~= (match e.parent {
                                    Parent::Root => seq!['/'] + e.visible_name@,
                                    _ => trash_prefix() + seq!['/'] + e.visible_name@,
                                }) + tail@);
                            }
                            return Some(piece);
                        },
                    }
                },
            }
        }
    }

    /// The entries below folder `folder` at any depth, in load order.
    pub fn descendants(&self, folder: u128) -> (r: Vec<&DocumentEntry>)
        ensures
            r@.map_values(|e: &DocumentEntry| e@) == entries_below(self@, folder),
    {
        let ghost es = self@;
        let mut out: Vec<&DocumentEntry> = Vec::new();
        let mut i: usize = 0;
        while i < self.entries.len()
            invariant
                es == self@,
                i <= es.len(),
                out@.map_values(|e: &DocumentEntry| e@) == below_in(es, es.take(i as int), folder),
            decreases es.len() - i,
        {
            proof {
                assert(es.take(i + 1).drop_last() =~= es.take(i as int));
            }
            let e = &self.entries[i];
            let below = match e.parent {
                Parent::Folder(p) => p == folder || self.is_descendant(p, folder),
                _ => false,
            };
            if below {
                let ghost prev = out@;
                out.push(e);
                proof {
                    assert(out@.map_values(|e: &DocumentEntry| e@) =~= prev.map_values(
                        |e: &DocumentEntry| e@,
                    ).push(e@));
                }
            }
            i = i + 1;
        }
        proof {
            assert(es.take(es.len() as int) =~= es);
        }
        out
    }
}

/// Entry `e` sits below folder `folder`: its parent is that folder or a
/// folder below it.
pub open spec fn spec_entry_below(es: Seq<EntryView>, e: EntryView, folder: u128) -> bool {
    match e.parent {
        Parent::Folder(p) => p == folder || spec_is_descendant(es, p, folder),
        _ => false,
    }
}

/// The entries of `part` below `folder` in the tree `es`, in order.
pub open spec fn below_in(es: Seq<EntryView>, part: Seq<EntryView>, folder: u128) -> Seq<EntryView>
    decreases part.len(),
{
    if part.len() == 0 {
        Seq::empty()
    } else {
        let prev = below_in(es, part.drop_last(), folder);
        if spec_entry_below(es, part.last(), folder) {
            prev.push(part.last())
        } else {
            prev
        }
    }
}

pub open spec fn entries_below(es: Seq<EntryView>, folder: u128) -> Seq<EntryView> {
    below_in(es, es, folder)
}

} // verus!
