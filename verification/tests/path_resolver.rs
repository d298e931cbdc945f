use remarkable::metadata::error::MetadataError;
use remarkable::metadata::path_resolver::{
    ensure_not_reserved_trash_path, resolve, resolve_path, resolve_uuid_to_path, Resolved,
};
use remarkable::metadata::uuid_text::uuid_text;
use remarkable::metadata::tree::{DocumentEntry, DocumentTree, FileType, ItemKind, ItemType, Parent};

fn uuid_of(s: &str) -> u128 {
    uuid::Uuid::parse_str(s).unwrap().as_u128()
}

fn make_entry(
    uuid: &str,
    name: &str,
    item_type: ItemType,
    parent: Parent,
    file_type: Option<FileType>,
) -> DocumentEntry {
    let deleted = parent == Parent::Trash;
    let kind = match (item_type, file_type) {
        (ItemType::Collection, _) => ItemKind::Folder,
        (ItemType::Template, _) => ItemKind::Template,
        (ItemType::Document, Some(file_type)) => ItemKind::Document {
            file_type,
            page_count: None,
        },
        (ItemType::Document, None) => {
            unreachable!("test helper requires Some(file_type) for documents")
        }
    };
    DocumentEntry {
        uuid: uuid_of(uuid),
        visible_name: name.to_string(),
        kind,
        parent,
        deleted,
        pinned: false,
        last_modified_ms: 1_710_000_000_000,
        version: 1,
        tags: vec![],
        last_opened_ms: None,
    }
}

const FOLDER_A: &str = "aaaaaaaa-0000-0000-0000-000000000001";
const FOLDER_B: &str = "aaaaaaaa-0000-0000-0000-000000000002";
const DOC_1: &str = "bbbbbbbb-0000-0000-0000-000000000001";
const DOC_2: &str = "bbbbbbbb-0000-0000-0000-000000000002";
const DOC_3: &str = "bbbbbbbb-0000-0000-0000-000000000003";
const DOC_TRASH: &str = "cccccccc-0000-0000-0000-000000000001";

fn sample_tree() -> DocumentTree {
    let folder_a = uuid_of(FOLDER_A);
    let folder_b = uuid_of(FOLDER_B);
    DocumentTree::build(vec![
        make_entry(FOLDER_A, "Work", ItemType::Collection, Parent::Root, None),
        make_entry(FOLDER_B, "Projects", ItemType::Collection, Parent::Folder(folder_a), None),
        make_entry(
            DOC_1,
            "Meeting Notes",
            ItemType::Document,
            Parent::Folder(folder_a),
            Some(FileType::Notebook),
        ),
        make_entry(
            DOC_2,
            "Design Doc",
            ItemType::Document,
            Parent::Folder(folder_b),
            Some(FileType::Pdf),
        ),
        make_entry(DOC_3, "Quick Note", ItemType::Document, Parent::Root, Some(FileType::Notebook)),
        make_entry(DOC_TRASH, "Old Draft", ItemType::Document, Parent::Trash, Some(FileType::Pdf)),
    ])
}

fn would_create(tree: &DocumentTree, parent: &Parent, name: &str) -> bool {
    ensure_not_reserved_trash_path(tree, parent, name).is_err()
}

#[test]
fn resolve_root() {
    let tree = sample_tree();
    assert!(matches!(resolve_path(&tree, "/"), Ok(Resolved::Root)));
    assert!(matches!(resolve(&tree, "/"), Ok(Resolved::Root)));
}

#[test]
fn resolve_root_folder() {
    let tree = sample_tree();
    match resolve_path(&tree, "/Work") {
        Ok(Resolved::Entry(e)) => assert_eq!(e.visible_name, "Work"),
        other => panic!("expected Entry, got {other:?}"),
    }
}

#[test]
fn resolve_nested_doc() {
    let tree = sample_tree();
    match resolve_path(&tree, "/Work/Meeting Notes") {
        Ok(Resolved::Entry(e)) => {
            assert_eq!(e.visible_name, "Meeting Notes");
            assert_eq!(e.uuid, uuid_of(DOC_1));
        }
        other => panic!("expected Entry, got {other:?}"),
    }
}

#[test]
fn resolve_deeply_nested() {
    let tree = sample_tree();
    match resolve_path(&tree, "/Work/Projects/Design Doc") {
        Ok(Resolved::Entry(e)) => assert_eq!(e.visible_name, "Design Doc"),
        other => panic!("expected Entry, got {other:?}"),
    }
}

#[test]
fn resolve_not_found() {
    let tree = sample_tree();
    let err = resolve_path(&tree, "/Nonexistent").unwrap_err();
    assert!(matches!(err, MetadataError::NotFound(_)));
}

#[test]
fn resolve_nested_not_found() {
    let tree = sample_tree();
    let err = resolve_path(&tree, "/Work/Nonexistent").unwrap_err();
    match err {
        MetadataError::NotFound(msg) => assert!(msg.contains("Nonexistent")),
        other => panic!("expected NotFound, got {other:?}"),
    }
}

#[test]
fn resolve_path_through_document_fails() {
    let tree = sample_tree();
    let err = resolve_path(&tree, "/Quick Note/child").unwrap_err();
    assert!(matches!(err, MetadataError::InvalidPath(_)));
}

#[test]
fn resolve_no_leading_slash() {
    let tree = sample_tree();
    let err = resolve_path(&tree, "Work").unwrap_err();
    assert!(matches!(err, MetadataError::InvalidPath(_)));
}

#[test]
fn resolve_duplicate_names() {
    let entries = vec![
        make_entry(
            "aaaaaaaa-0000-0000-0000-000000000001",
            "Same Name",
            ItemType::Document,
            Parent::Root,
            Some(FileType::Pdf),
        ),
        make_entry(
            "aaaaaaaa-0000-0000-0000-000000000002",
            "Same Name",
            ItemType::Document,
            Parent::Root,
            Some(FileType::Pdf),
        ),
    ];
    let tree = DocumentTree::build(entries);
    let err = resolve_path(&tree, "/Same Name").unwrap_err();
    assert!(matches!(err, MetadataError::InvalidPath(_)));
}

#[test]
fn resolve_by_uuid() {
    let tree = sample_tree();
    match resolve(&tree, DOC_1) {
        Ok(Resolved::Entry(e)) => assert_eq!(e.visible_name, "Meeting Notes"),
        other => panic!("expected Entry, got {other:?}"),
    }
}

#[test]
fn every_entry_resolves_by_its_uuid_text() {
    let tree = sample_tree();
    for id in [FOLDER_A, FOLDER_B, DOC_1, DOC_2, DOC_3, DOC_TRASH] {
        let u = uuid_of(id);
        let text = uuid_text(u);
        assert_eq!(text, id);
        match resolve(&tree, &text) {
            Ok(Resolved::Entry(e)) => assert_eq!(e.uuid, u),
            other => panic!("expected Entry, got {other:?}"),
        }
    }
}

#[test]
fn resolve_by_uuid_not_found() {
    let tree = sample_tree();
    let err = resolve(&tree, "99999999-9999-9999-9999-999999999999").unwrap_err();
    assert!(matches!(err, MetadataError::NotFound(_)));
}

#[test]
fn resolve_by_path_fallback() {
    let tree = sample_tree();
    match resolve(&tree, "/Work") {
        Ok(Resolved::Entry(e)) => assert_eq!(e.visible_name, "Work"),
        other => panic!("expected Entry, got {other:?}"),
    }
}

#[test]
fn uuid_to_path_root_child() {
    let tree = sample_tree();
    assert_eq!(resolve_uuid_to_path(&tree, uuid_of(FOLDER_A)).unwrap(), "/Work");
}

#[test]
fn uuid_to_path_nested() {
    let tree = sample_tree();
    assert_eq!(
        resolve_uuid_to_path(&tree, uuid_of(DOC_1)).unwrap(),
        "/Work/Meeting Notes"
    );
}

#[test]
fn uuid_to_path_deeply_nested() {
    let tree = sample_tree();
    assert_eq!(
        resolve_uuid_to_path(&tree, uuid_of(DOC_2)).unwrap(),
        "/Work/Projects/Design Doc"
    );
}

#[test]
fn uuid_to_path_trashed() {
    let tree = sample_tree();
    assert_eq!(
        resolve_uuid_to_path(&tree, uuid_of(DOC_TRASH)).unwrap(),
        "/trash/Old Draft"
    );
}

#[test]
fn trashed_uuid_to_path_round_trips_through_path_resolver() {
    let tree = sample_tree();
    let uuid = uuid_of(DOC_TRASH);
    let path = resolve_uuid_to_path(&tree, uuid).unwrap();
    match resolve_path(&tree, &path) {
        Ok(Resolved::Entry(entry)) => assert_eq!(entry.uuid, uuid),
        other => panic!("expected Entry, got {other:?}"),
    }
}

#[test]
fn resolve_trash_container_path_is_invalid() {
    let tree = sample_tree();
    let err = resolve_path(&tree, "/trash").unwrap_err();
    assert!(matches!(err, MetadataError::InvalidPath(_)));
}

#[test]
fn reserved_trash_path_rejects_root_name_trash() {
    let tree = sample_tree();
    assert!(would_create(&tree, &Parent::Root, "trash"));
    assert!(ensure_not_reserved_trash_path(&tree, &Parent::Root, "trash").is_err());
}

#[test]
fn reserved_trash_path_rejects_real_root_trash_subtree() {
    let trash_root = uuid_of(FOLDER_A);
    let nested = uuid_of(FOLDER_B);
    let tree = DocumentTree::build(vec![
        make_entry(FOLDER_A, "trash", ItemType::Collection, Parent::Root, None),
        make_entry(FOLDER_B, "Nested", ItemType::Collection, Parent::Folder(trash_root), None),
    ]);
    assert!(would_create(&tree, &Parent::Folder(trash_root), "Doc"));
    assert!(would_create(&tree, &Parent::Folder(nested), "Doc"));
}

#[test]
fn reserved_trash_path_allows_virtual_trash_parent() {
    let tree = sample_tree();
    assert!(!would_create(&tree, &Parent::Trash, "Recovered"));
    assert!(ensure_not_reserved_trash_path(&tree, &Parent::Trash, "Recovered").is_ok());
}

#[test]
fn reserved_trash_path_allows_descendants_of_trashed_folder() {
    let trashed_folder = uuid_of(FOLDER_A);
    let tree = DocumentTree::build(vec![
        make_entry(FOLDER_A, "Old Folder", ItemType::Collection, Parent::Trash, None),
        make_entry(
            DOC_1,
            "Recovered",
            ItemType::Document,
            Parent::Folder(trashed_folder),
            Some(FileType::Pdf),
        ),
    ]);
    assert!(!would_create(&tree, &Parent::Folder(trashed_folder), "Recovered"));
}

#[test]
fn uuid_to_path_not_found() {
    let tree = sample_tree();
    let uuid = uuid::Uuid::new_v4().as_u128();
    assert!(resolve_uuid_to_path(&tree, uuid).is_err());
}

#[test]
fn uuid_to_path_cycle_is_err() {
    let folder_a = uuid_of(FOLDER_A);
    let folder_b = uuid_of(FOLDER_B);
    let doc_uuid = uuid_of(DOC_1);
    let tree = DocumentTree::build(vec![
        make_entry(FOLDER_A, "Folder A", ItemType::Collection, Parent::Folder(folder_b), None),
        make_entry(FOLDER_B, "Folder B", ItemType::Collection, Parent::Folder(folder_a), None),
        make_entry(
            DOC_1,
            "Looped Doc",
            ItemType::Document,
            Parent::Folder(folder_b),
            Some(FileType::Pdf),
        ),
    ]);
    assert!(resolve_uuid_to_path(&tree, doc_uuid).is_err());
}

#[test]
fn resolve_path_with_pdf_extension() {
    let tree = sample_tree();
    match resolve_path(&tree, "/Work/Projects/Design Doc.pdf") {
        Ok(Resolved::Entry(e)) => {
            assert_eq!(e.visible_name, "Design Doc");
            assert_eq!(e.uuid, uuid_of(DOC_2));
        }
        other => panic!("expected Entry, got {other:?}"),
    }
}

#[test]
fn resolve_path_with_epub_extension() {
    let tree = DocumentTree::build(vec![make_entry(
        DOC_1,
        "Rust Book",
        ItemType::Document,
        Parent::Root,
        Some(FileType::Epub),
    )]);
    match resolve_path(&tree, "/Rust Book.epub") {
        Ok(Resolved::Entry(e)) => assert_eq!(e.uuid, uuid_of(DOC_1)),
        other => panic!("expected Entry, got {other:?}"),
    }
}

#[test]
fn resolve_path_literal_name_takes_precedence() {
    let tree = DocumentTree::build(vec![
        make_entry(DOC_1, "Report.pdf", ItemType::Document, Parent::Root, Some(FileType::Pdf)),
        make_entry(DOC_2, "Report", ItemType::Document, Parent::Root, Some(FileType::Pdf)),
    ]);
    match resolve_path(&tree, "/Report.pdf") {
        Ok(Resolved::Entry(e)) => {
            assert_eq!(e.visible_name, "Report.pdf");
            assert_eq!(e.uuid, uuid_of(DOC_1));
        }
        other => panic!("expected literal Entry, got {other:?}"),
    }
}

#[test]
fn resolve_path_extension_must_match_file_type() {
    let tree = DocumentTree::build(vec![make_entry(
        DOC_1,
        "Report",
        ItemType::Document,
        Parent::Root,
        Some(FileType::Pdf),
    )]);
    let err = resolve_path(&tree, "/Report.epub").unwrap_err();
    assert!(matches!(err, MetadataError::NotFound(_)));
}

#[test]
fn resolve_path_extension_disambiguates_same_name() {
    let tree = DocumentTree::build(vec![
        make_entry(DOC_1, "Notes", ItemType::Document, Parent::Root, Some(FileType::Pdf)),
        make_entry(DOC_2, "Notes", ItemType::Document, Parent::Root, Some(FileType::Epub)),
    ]);
    let bare = resolve_path(&tree, "/Notes").unwrap_err();
    assert!(matches!(bare, MetadataError::InvalidPath(_)));
    match resolve_path(&tree, "/Notes.pdf") {
        Ok(Resolved::Entry(e)) => assert_eq!(e.uuid, uuid_of(DOC_1)),
        other => panic!("expected Pdf entry, got {other:?}"),
    }
    match resolve_path(&tree, "/Notes.epub") {
        Ok(Resolved::Entry(e)) => assert_eq!(e.uuid, uuid_of(DOC_2)),
        other => panic!("expected Epub entry, got {other:?}"),
    }
}

#[test]
fn resolve_path_intermediate_extension_does_not_strip() {
    let tree = DocumentTree::build(vec![make_entry(
        DOC_1,
        "Work",
        ItemType::Document,
        Parent::Root,
        Some(FileType::Pdf),
    )]);
    let err = resolve_path(&tree, "/Work.pdf/anything").unwrap_err();
    assert!(matches!(err, MetadataError::NotFound(_)));
}

#[test]
fn resolve_path_unknown_extension_falls_through() {
    let tree = DocumentTree::build(vec![make_entry(
        DOC_1,
        "Report",
        ItemType::Document,
        Parent::Root,
        Some(FileType::Pdf),
    )]);
    let err = resolve_path(&tree, "/Report.txt").unwrap_err();
    assert!(matches!(err, MetadataError::NotFound(_)));
}

#[test]
fn not_found_error_includes_suggestions() {
    let tree = sample_tree();
    let err = resolve_path(&tree, "/Work/Meting Notes").unwrap_err();
    let msg = err.message();
    assert!(msg.contains("did you mean"), "expected suggestion line, got: {msg}");
    assert!(
        msg.contains("Meeting Notes.rm"),
        "expected close sibling with extension, got: {msg}"
    );
}

#[test]
fn suggestion_formats_folders_with_trailing_slash() {
    let tree = sample_tree();
    let err = resolve_path(&tree, "/Wrk").unwrap_err();
    let msg = err.message();
    assert!(msg.contains("Work/"), "expected folder suggestion, got: {msg}");
}

#[test]
fn not_found_message_names_the_resolved_prefix() {
    let tree = sample_tree();
    let err = resolve_path(&tree, "/Work/Projects/Nope").unwrap_err();
    match err {
        MetadataError::NotFound(msg) => {
            assert!(msg.starts_with("'Nope' not found in /Work/Projects"), "got: {msg}")
        }
        other => panic!("expected NotFound, got {other:?}"),
    }
    let err = resolve_path(&tree, "/trash/Nope").unwrap_err();
    match err {
        MetadataError::NotFound(msg) => assert!(msg.starts_with("'Nope' not found in /trash"), "got: {msg}"),
        other => panic!("expected NotFound, got {other:?}"),
    }
}

#[test]
fn error_messages_carry_their_category() {
    assert_eq!(MetadataError::NotFound("x".into()).message(), "Not found: x");
    assert_eq!(MetadataError::InvalidPath("y".into()).message(), "Invalid path: y");
    let cycle = MetadataError::Cycle { uuid: uuid_of(FOLDER_A) };
    assert_eq!(
        cycle.message(),
        "cycle detected in folder hierarchy at UUID aaaaaaaa-0000-0000-0000-000000000001"
    );
}

#[test]
fn uuid_not_found_message_uses_hyphenated_text() {
    let tree = sample_tree();
    match resolve(&tree, "99999999999999999999999999999999") {
        Err(MetadataError::NotFound(msg)) => {
            assert_eq!(msg, "UUID 99999999-9999-9999-9999-999999999999 not found")
        }
        other => panic!("expected NotFound, got {other:?}"),
    }
}
