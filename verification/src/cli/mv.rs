//! Planning of `mv <source> <dest-folder>`: what moves where, or why not.
//!
//! A move never forms a cycle (a folder into itself or a descendant), never
//! targets a non-folder or a trashed folder, and never creates a real path
//! under `/trash`.

use vstd::prelude::*;

use crate::cli::error::{spec_from_metadata, CliError, CliErrorView};
use crate::cli::labels::{spec_type_label, type_label};
use crate::metadata::path_resolver::{
    quote_into, quoted, reserved_trash_message, resolve, spec_resolve,
    spec_would_create_reserved_trash_path, ensure_not_reserved_trash_path, Resolved,
};
use crate::metadata::suggest::views;
use crate::metadata::tree::{
    spec_display_path, spec_is_descendant, spec_is_folder, spec_is_trashed, spec_lookup_child,
    ChildLookup, DocumentEntry, DocumentTree, EntryView, LookupView, Parent,
};
use crate::metadata::uuid_text::{spec_uuid_text, uuid_text};
use crate::text::append_char;

verus! {

/// Outcome of `mv`, as reported to the user.
#[derive(Debug, Clone)]
pub struct MvOutput {
    pub uuid: u128,
    pub name: String,
    pub from: String,
    pub to: String,
    pub no_op: bool,
    pub warnings: Vec<String>,
}

/// A checked move: the report, and the parent to record for the source.
/// Nothing is written when `output.no_op` holds.
#[derive(Debug, Clone)]
pub struct MovePlan {
    pub output: MvOutput,
    pub new_parent: Parent,
}

pub struct MoveView {
    pub uuid: u128,
    pub name: Seq<char>,
    pub from: Seq<char>,
    pub to: Seq<char>,
    pub no_op: bool,
    pub warnings: Seq<Seq<char>>,
    pub new_parent: Parent,
}

impl View for MovePlan {
    type V = MoveView;

    open spec fn view(&self) -> MoveView {
        MoveView {
            uuid: self.output.uuid,
            name: self.output.name@,
            from: self.output.from@,
            to: self.output.to@,
            no_op: self.output.no_op,
            warnings: views(self.output.warnings@),
            new_parent: self.new_parent,
        }
    }
}

/// The `parent` field of a `.metadata` file for this parent.
pub open spec fn spec_parent_text(p: Parent) -> Seq<char> {
    match p {
        Parent::Root => Seq::empty(),
        Parent::Trash => "trash"@,
        Parent::Folder(u) => spec_uuid_text(u),
    }
}

/// Encode a parent as the `.metadata` file records it.
pub fn parent_to_metadata_str(parent: &Parent) -> (s: String)
    ensures
        s@ == spec_parent_text(*parent),
{
    match parent {
        Parent::Root => String::new(),
        Parent::Trash => {
            let mut s = String::new();
            s.append("trash");
            s
        },
        Parent::Folder(u) => uuid_text(*u),
    }
}

/// The display path of an entry, or `/name` when it has none.
pub open spec fn path_or_name(es: Seq<EntryView>, e: EntryView) -> Seq<char> {
    match spec_display_path(es, e.uuid) {
        Some(p) => p,
        None => seq!['/'] + e.name,
    }
}

pub fn display_path_or_name(tree: &DocumentTree, e: &DocumentEntry) -> (s: String)
    ensures
        s@ == path_or_name(tree@, e@),
{
    match tree.display_path(e.uuid) {
        Some(p) => p,
        None => {
            let mut s = String::new();
            append_char(&mut s, '/');
            s.append(e.visible_name.as_str());
            proof {
                assert(s@ =~= seq!['/'] + e@.name);
            }
            s
        },
    }
}

/// Where a move lands: the new parent and its path, or why it cannot.
pub open spec fn spec_resolve_destination(es: Seq<EntryView>, dest: Seq<char>) -> Result<(Parent, Seq<char>), CliErrorView> {
    match spec_resolve(es, dest) {
        Err(e) => Err(spec_from_metadata(e)),
        Ok(None) => Ok((Parent::Root, "/"@)),
        Ok(Some(e)) => if !spec_is_folder(e) {
            Err(
                CliErrorView::InvalidPath(
                    "destination must be a folder, not a "@ + spec_type_label(e.kind) + ": "@
                        + e.name,
                ),
            )
        } else if spec_is_trashed(e) {
            Err(
                CliErrorView::InvalidPath(
                    "cannot move into trashed folder: "@ + e.name + " (use rm to trash items)"@,
                ),
            )
        } else {
            Ok((Parent::Folder(e.uuid), path_or_name(es, e)))
        },
    }
}

pub fn resolve_destination(tree: &DocumentTree, dest: &str) -> (r: Result<(Parent, String), CliError>)
    ensures
        match (r, spec_resolve_destination(tree@, dest@)) {
            (Ok((p, s)), Ok((q, t))) => p == q && s@ == t,
            (Err(e), Err(f)) => e@ == f,
            _ => false,
        },
{
    match resolve(tree, dest) {
        Err(e) => Err(CliError::from_metadata(e)),
        Ok(Resolved::Root) => {
            let mut s = String::new();
            s.append("/");
            Ok((Parent::Root, s))
        },
        Ok(Resolved::Entry(e)) => {
            if !e.is_folder() {
                let mut m = String::new();
                m.append("destination must be a folder, not a ");
                m.append(type_label(&e.kind));
                m.append(": ");
                m.append(e.visible_name.as_str());
                return Err(CliError::InvalidPath(m));
            }
            if e.is_trashed() {
                let mut m = String::new();
                m.append("cannot move into trashed folder: ");
                m.append(e.visible_name.as_str());
                m.append(" (use rm to trash items)");
                return Err(CliError::InvalidPath(m));
            }
            Ok((Parent::Folder(e.uuid), display_path_or_name(tree, e)))
        },
    }
}

/// The reason a move of `source` under `new_parent` would form a cycle.
pub open spec fn spec_cycle_error(es: Seq<EntryView>, source: EntryView, new_parent: Parent) -> Option<CliErrorView> {
    match new_parent {
        Parent::Folder(d) => if d == source.uuid {
            Some(CliErrorView::InvalidPath("cannot move "@ + quoted(source.name) + " into itself"@))
        } else if spec_is_folder(source) && spec_is_descendant(es, d, source.uuid) {
            Some(
                CliErrorView::InvalidPath(
                    "cannot move folder "@ + quoted(source.name) + " into its own descendant"@,
                ),
            )
        } else {
            None
        },
        _ => None,
    }
}

/// Refuse to move a folder into itself or below itself.
pub fn reject_cycles(tree: &DocumentTree, source: &DocumentEntry, new_parent: &Parent) -> (r: Result<(), CliError>)
    ensures
        match (r, spec_cycle_error(tree@, source@, *new_parent)) {
            (Ok(()), None) => true,
            (Err(e), Some(f)) => e@ == f,
            _ => false,
        },
{
    let dest = match new_parent {
        Parent::Folder(u) => *u,
        _ => {
            return Ok(());
        },
    };
    if dest == source.uuid {
        let mut m = String::new();
        m.append("cannot move ");
        quote_into(&mut m, source.visible_name.as_str());
        m.append(" into itself");
        return Err(CliError::InvalidPath(m));
    }
    if source.is_folder() && tree.is_descendant(dest, source.uuid) {
        let mut m = String::new();
        m.append("cannot move folder ");
        quote_into(&mut m, source.visible_name.as_str());
        m.append(" into its own descendant");
        return Err(CliError::InvalidPath(m));
    }
    Ok(())
}

pub open spec fn name_clash_warning(name: Seq<char>) -> Seq<char> {
    "destination already contains an entry named "@ + quoted(name)
}

/// The move `mv source dest` makes, or the error it stops at.
pub open spec fn spec_plan_move(es: Seq<EntryView>, source: Seq<char>, dest: Seq<char>) -> Result<MoveView, CliErrorView> {
    match spec_resolve(es, source) {
        Err(e) => Err(spec_from_metadata(e)),
        Ok(None) => Err(CliErrorView::InvalidPath("cannot move root"@)),
        Ok(Some(src)) => match spec_resolve_destination(es, dest) {
            Err(e) => Err(e),
            Ok((np, to)) => match spec_cycle_error(es, src, np) {
                Some(e) => Err(e),
                None => {
                    let from = path_or_name(es, src);
                    if src.parent == np && !src.deleted {
                        Ok(
                            MoveView {
                                uuid: src.uuid,
                                name: src.name,
                                from,
                                to,
                                no_op: true,
                                warnings: Seq::empty(),
                                new_parent: np,
                            },
                        )
                    } else if spec_would_create_reserved_trash_path(es, np, src.name) {
                        Err(CliErrorView::InvalidPath(reserved_trash_message()))
                    } else {
                        Ok(
                            MoveView {
                                uuid: src.uuid,
                                name: src.name,
                                from,
                                to,
                                no_op: false,
                                warnings: if spec_lookup_child(es, np, src.name) is Missing {
                                    Seq::empty()
                                } else {
                                    seq![name_clash_warning(src.name)]
                                },
                                new_parent: np,
                            },
                        )
                    }
                },
            },
        },
    }
}

/// Check a move and work out its report.
pub fn plan_move(tree: &DocumentTree, source: &str, dest: &str) -> (r: Result<MovePlan, CliError>)
    ensures
        match (r, spec_plan_move(tree@, source@, dest@)) {
            (Ok(p), Ok(v)) => p@ == v,
            (Err(e), Err(f)) => e@ == f,
            _ => false,
        },
{
    let src = match resolve(tree, source) {
        Err(e) => {
            return Err(CliError::from_metadata(e));
        },
        Ok(Resolved::Root) => {
            let mut m = String::new();
            m.append("cannot move root");
            return Err(CliError::InvalidPath(m));
        },
        Ok(Resolved::Entry(e)) => e,
    };
    let (new_parent, to) = match resolve_destination(tree, dest) {
        Err(e) => {
            return Err(e);
        },
        Ok(d) => d,
    };
    match reject_cycles(tree, src, &new_parent) {
        Err(e) => {
            return Err(e);
        },
        Ok(()) => {},
    }
    let from = display_path_or_name(tree, src);
    if src.parent == new_parent && !src.deleted {
        let out = MvOutput {
            uuid: src.uuid,
            name: src.visible_name.clone(),
            from,
            to,
            no_op: true,
            warnings: Vec::new(),
        };
        proof {
            assert(views(out.warnings@) =~= Seq::<Seq<char>>::empty());
        }
        return Ok(MovePlan { output: out, new_parent });
    }
    match ensure_not_reserved_trash_path(tree, &new_parent, src.visible_name.as_str()) {
        Err(e) => {
            return Err(CliError::from_metadata(e));
        },
        Ok(()) => {},
    }
    let mut warnings: Vec<String> = Vec::new();
    match tree.lookup_child(&new_parent, src.visible_name.as_str()) {
        ChildLookup::Missing => {},
        _ => {
            let mut w = String::new();
            w.append("destination already contains an entry named ");
            quote_into(&mut w, src.visible_name.as_str());
            warnings.push(w);
        },
    }
    let out = MvOutput {
        uuid: src.uuid,
        name: src.visible_name.clone(),
        from,
        to,
        no_op: false,
        warnings,
    };
    proof {
        let expected = if spec_lookup_child(tree@, new_parent, src@.name) is Missing {
            Seq::<Seq<char>>::empty()
        } else {
            seq![name_clash_warning(src@.name)]
        };
        assert(views(out.warnings@) =~= expected);
    }
    Ok(MovePlan { output: out, new_parent })
}

} // verus!
