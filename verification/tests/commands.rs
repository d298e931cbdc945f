use remarkable::cli::download::{
    DownloadOutput, RenderOutput, RenderedPage,
    default_file_name, download_target, page_image_name, page_path, render_target,
    sanitize_name, source_path,
};
use remarkable::cli::error::CliError;
use remarkable::cli::mkdir::{plan_creations, plan_creations_from, CreatedFolder, MkdirOutput};
use remarkable::cli::report::{download_report, mkdir_report, mv_report, render_report, rm_report};
use remarkable::cli::mv::{parent_to_metadata_str, plan_move};
use remarkable::cli::rm::{plan_rm, wipe_steps};
use remarkable::metadata::tree::{DocumentEntry, DocumentTree, FileType, ItemKind, Parent};
use remarkable::tablet::remote::{RemoteEntry, RemoteFileKind, RemoteMetadata};

fn uid(s: &str) -> u128 {
    uuid::Uuid::parse_str(s).unwrap().as_u128()
}

const WORK: &str = "aaaaaaaa-1111-1111-1111-111111111111";
const SUB: &str = "aaaaaaaa-2222-2222-2222-222222222222";
const OLD: &str = "aaaaaaaa-3333-3333-3333-333333333333";
const NOTES: &str = "bbbbbbbb-1111-1111-1111-111111111111";
const QUICK: &str = "bbbbbbbb-2222-2222-2222-222222222222";
const DUP: &str = "bbbbbbbb-3333-3333-3333-333333333333";

fn entry(uuid: &str, name: &str, kind: ItemKind, parent: Parent) -> DocumentEntry {
    DocumentEntry {
        uuid: uid(uuid),
        visible_name: name.to_string(),
        kind,
        deleted: parent == Parent::Trash,
        parent,
        pinned: false,
        last_modified_ms: 1_710_518_400_000,
        version: 1,
        tags: vec![],
        last_opened_ms: None,
    }
}

fn pdf() -> ItemKind {
    ItemKind::Document { file_type: FileType::Pdf, page_count: None }
}

fn notebook() -> ItemKind {
    ItemKind::Document { file_type: FileType::Notebook, page_count: None }
}

fn tree() -> DocumentTree {
    DocumentTree::build(vec![
        entry(WORK, "Work", ItemKind::Folder, Parent::Root),
        entry(SUB, "Sub", ItemKind::Folder, Parent::Folder(uid(WORK))),
        entry(OLD, "Old Folder", ItemKind::Folder, Parent::Trash),
        entry(NOTES, "Notes", pdf(), Parent::Folder(uid(WORK))),
        entry(QUICK, "Quick Note", notebook(), Parent::Root),
        entry(DUP, "duplicate", pdf(), Parent::Root),
    ])
}

#[test]
fn mkdir_creates_root_level_folder() {
    let t = tree();
    let plan = plan_creations_from(&t, "/Inbox", false, &vec![7, 8]).unwrap();
    assert_eq!(plan.len(), 1);
    assert_eq!(plan[0].uuid, 7);
    assert_eq!(plan[0].name, "Inbox");
    assert_eq!(plan[0].parent, Parent::Root);
    assert_eq!(plan[0].path, "/Inbox");
    let created = CreatedFolder::from_pending(&plan[0]);
    assert_eq!(created.parent_uuid, None);
}

#[test]
fn mkdir_parents_creates_full_chain() {
    let t = tree();
    let plan = plan_creations_from(&t, "/Work/A/B", true, &vec![11, 12, 13]).unwrap();
    assert_eq!(plan.len(), 2);
    assert_eq!(plan[0].parent, Parent::Folder(uid(WORK)));
    assert_eq!(plan[0].path, "/Work/A");
    assert_eq!(plan[1].uuid, 12);
    assert_eq!(plan[1].parent, Parent::Folder(11));
    assert_eq!(plan[1].path, "/Work/A/B");
    assert_eq!(CreatedFolder::from_pending(&plan[1]).parent_uuid, Some(11));
}

#[test]
fn mkdir_parents_with_existing_full_path_is_no_op() {
    let t = tree();
    let plan = plan_creations(&t, "/Work/Sub", true).unwrap();
    assert!(plan.is_empty());
}

#[test]
fn mkdir_existing_path_without_parents_errors_already_exists() {
    let t = tree();
    match plan_creations(&t, "/Work/Sub", false) {
        Err(CliError::AlreadyExists(m)) => assert_eq!(m, "folder already exists: /Work/Sub"),
        other => panic!("expected AlreadyExists, got {other:?}"),
    }
}

#[test]
fn mkdir_missing_intermediate_without_parents_errors_not_found() {
    let t = tree();
    match plan_creations(&t, "/Nope/Leaf", false) {
        Err(CliError::NotFound(m)) => {
            assert_eq!(m, "intermediate folder 'Nope' missing in /Nope; pass --parents")
        }
        other => panic!("expected NotFound, got {other:?}"),
    }
}

#[test]
fn mkdir_through_document_errors_invalid_path() {
    let t = tree();
    match plan_creations(&t, "/Quick Note/x", true) {
        Err(CliError::InvalidPath(m)) => assert_eq!(m, "'Quick Note' is a notebook, not a folder"),
        other => panic!("expected InvalidPath, got {other:?}"),
    }
}

#[test]
fn mkdir_root_and_relative_and_trash_are_invalid() {
    let t = tree();
    assert!(matches!(plan_creations(&t, "/", false), Err(CliError::InvalidPath(_))));
    assert!(matches!(plan_creations(&t, "Work", false), Err(CliError::InvalidPath(_))));
    assert!(matches!(plan_creations(&t, "/trash/x", true), Err(CliError::InvalidPath(_))));
}

#[test]
fn mkdir_fresh_uuids_differ() {
    let t = tree();
    let plan = plan_creations(&t, "/X/Y", true).unwrap();
    assert_eq!(plan.len(), 2);
    assert_ne!(plan[0].uuid, plan[1].uuid);
    for p in &plan {
        assert_eq!((p.uuid >> 76) & 0xF, 4, "version nibble");
        assert_eq!((p.uuid >> 62) & 0x3, 2, "variant bits");
    }
    assert_eq!(plan[1].parent, Parent::Folder(plan[0].uuid));
}

#[test]
fn parent_to_metadata_str_matches_serializer() {
    assert_eq!(parent_to_metadata_str(&Parent::Root), "");
    assert_eq!(parent_to_metadata_str(&Parent::Trash), "trash");
    let uuid = uid("aaaaaaaa-bbbb-cccc-dddd-eeeeeeeeeeee");
    assert_eq!(
        parent_to_metadata_str(&Parent::Folder(uuid)),
        "aaaaaaaa-bbbb-cccc-dddd-eeeeeeeeeeee"
    );
}

#[test]
fn mv_document_to_folder_updates_parent() {
    let t = tree();
    let plan = plan_move(&t, "/duplicate", "/Work/Sub").unwrap();
    assert!(!plan.output.no_op);
    assert_eq!(plan.new_parent, Parent::Folder(uid(SUB)));
    assert_eq!(plan.output.from, "/duplicate");
    assert_eq!(plan.output.to, "/Work/Sub");
    assert!(plan.output.warnings.is_empty());
}

#[test]
fn mv_out_of_trash_clears_deleted_flag() {
    let t = tree();
    let plan = plan_move(&t, "/trash/Old Folder", "/").unwrap();
    assert!(!plan.output.no_op);
    assert_eq!(plan.new_parent, Parent::Root);
    assert_eq!(plan.output.from, "/trash/Old Folder");
    assert_eq!(plan.output.to, "/");
}

#[test]
fn mv_into_self_rejected() {
    let t = tree();
    match plan_move(&t, "/Work", "/Work") {
        Err(CliError::InvalidPath(m)) => assert_eq!(m, "cannot move 'Work' into itself"),
        other => panic!("expected InvalidPath, got {other:?}"),
    }
}

#[test]
fn mv_into_descendant_rejected() {
    let t = tree();
    match plan_move(&t, "/Work", "/Work/Sub") {
        Err(CliError::InvalidPath(m)) => {
            assert_eq!(m, "cannot move folder 'Work' into its own descendant")
        }
        other => panic!("expected InvalidPath, got {other:?}"),
    }
}

#[test]
fn mv_to_document_rejected() {
    let t = tree();
    match plan_move(&t, "/duplicate", "/Quick Note") {
        Err(CliError::InvalidPath(m)) => {
            assert_eq!(m, "destination must be a folder, not a notebook: Quick Note")
        }
        other => panic!("expected InvalidPath, got {other:?}"),
    }
}

#[test]
fn mv_into_trashed_folder_rejected() {
    let t = tree();
    assert!(matches!(
        plan_move(&t, "/duplicate", "/trash/Old Folder"),
        Err(CliError::InvalidPath(_))
    ));
}

#[test]
fn mv_root_rejected() {
    let t = tree();
    assert!(matches!(plan_move(&t, "/", "/Work"), Err(CliError::InvalidPath(_))));
}

#[test]
fn mv_same_parent_is_no_op() {
    let t = tree();
    let plan = plan_move(&t, "/Work/Notes", "/Work").unwrap();
    assert!(plan.output.no_op);
}

#[test]
fn mv_warns_on_duplicate_name_in_destination() {
    let t = DocumentTree::build(vec![
        entry(WORK, "Work", ItemKind::Folder, Parent::Root),
        entry(NOTES, "dup", pdf(), Parent::Folder(uid(WORK))),
        entry(DUP, "dup", pdf(), Parent::Root),
    ]);
    let plan = plan_move(&t, "/dup", "/Work").unwrap();
    assert_eq!(
        plan.output.warnings,
        vec!["destination already contains an entry named 'dup'".to_string()]
    );
}

#[test]
fn reject_moving_item_named_trash_to_root() {
    let folder = uid(WORK);
    let t = DocumentTree::build(vec![
        entry(WORK, "Inbox", ItemKind::Folder, Parent::Root),
        entry(NOTES, "trash", pdf(), Parent::Folder(folder)),
    ]);
    match plan_move(&t, "/Inbox/trash", "/") {
        Err(CliError::InvalidPath(msg)) => assert!(msg.contains("/trash")),
        other => panic!("expected InvalidPath, got {other:?}"),
    }
}

#[test]
fn reject_moving_into_real_root_trash_folder_by_uuid() {
    let t = DocumentTree::build(vec![
        entry(WORK, "trash", ItemKind::Folder, Parent::Root),
        entry(NOTES, "Notes", pdf(), Parent::Root),
    ]);
    match plan_move(&t, "/Notes", WORK) {
        Err(CliError::InvalidPath(msg)) => assert!(msg.contains("/trash")),
        other => panic!("expected InvalidPath, got {other:?}"),
    }
}

fn strings(v: &[&str]) -> Vec<String> {
    v.iter().map(|s| s.to_string()).collect()
}

#[test]
fn rm_soft_delete_document_marks_trashed() {
    let t = tree();
    let plan = plan_rm(&t, &strings(&["/duplicate"]), false, false).unwrap();
    assert!(!plan.output.no_op);
    assert_eq!(plan.trash, vec![uid(DUP)]);
    assert_eq!(plan.output.deleted[0].path, "/duplicate");
}

#[test]
fn rm_soft_delete_non_empty_folder_without_recursive_errors() {
    let t = tree();
    match plan_rm(&t, &strings(&["/Work"]), false, false) {
        Err(CliError::InvalidPath(m)) => {
            assert_eq!(m, "folder 'Work' is not empty; pass --recursive to delete it")
        }
        other => panic!("expected InvalidPath, got {other:?}"),
    }
}

#[test]
fn rm_soft_delete_non_empty_folder_with_recursive_marks_only_folder() {
    let t = tree();
    let plan = plan_rm(&t, &strings(&["/Work"]), false, true).unwrap();
    assert_eq!(plan.trash, vec![uid(WORK)]);
}

#[test]
fn rm_idempotent_on_already_trashed_item() {
    let t = tree();
    let plan = plan_rm(&t, &strings(&["/trash/Old Folder"]), false, false).unwrap();
    assert!(plan.output.no_op);
    assert!(plan.trash.is_empty());
}

#[test]
fn rm_root_and_empty_paths_rejected() {
    let t = tree();
    assert!(matches!(plan_rm(&t, &strings(&["/"]), false, false), Err(CliError::InvalidPath(_))));
    assert!(matches!(plan_rm(&t, &strings(&[]), false, false), Err(CliError::InvalidPath(_))));
}

#[test]
fn rm_deduplicates_uuid_and_path_pointing_to_same_item() {
    let t = tree();
    let plan = plan_rm(&t, &strings(&["/duplicate", DUP]), false, false).unwrap();
    assert_eq!(plan.output.deleted.len(), 1);
}

#[test]
fn rm_permanent_folder_recursive_removes_descendants() {
    let t = tree();
    let plan = plan_rm(&t, &strings(&["/Work"]), true, true).unwrap();
    assert!(plan.output.permanent);
    assert_eq!(plan.wipe, vec![uid(WORK), uid(SUB), uid(NOTES)]);
    assert_eq!(plan.output.descendant_uuids_removed, Some(2));
}

#[test]
fn rm_permanent_metadata_removed_last() {
    let u = uid(NOTES);
    let mk = |name: &str, kind: RemoteFileKind| RemoteEntry {
        name: name.to_string(),
        metadata: RemoteMetadata { kind, size: None, mtime: None },
    };
    let entries = vec![
        mk(&format!("{NOTES}.metadata"), RemoteFileKind::File),
        mk(NOTES, RemoteFileKind::Dir),
        mk(&format!("{NOTES}.content"), RemoteFileKind::File),
        mk(&format!("{NOTES}.thumbnails"), RemoteFileKind::Dir),
        mk(&format!("{WORK}.metadata"), RemoteFileKind::File),
        mk(&format!("{NOTES}x"), RemoteFileKind::File),
    ];
    let steps = wipe_steps(&entries, u);
    let names: Vec<(String, bool)> = steps.iter().map(|s| (s.name.clone(), s.dir)).collect();
    assert_eq!(
        names,
        vec![
            (NOTES.to_string(), true),
            (format!("{NOTES}.content"), false),
            (format!("{NOTES}.thumbnails"), true),
            (format!("{NOTES}.metadata"), false),
        ]
    );
}

#[test]
fn download_and_render_targets() {
    let t = tree();
    let (e, ft) = download_target(&t, "/Work/Notes", false).unwrap();
    assert_eq!(e.uuid, uid(NOTES));
    assert_eq!(ft, FileType::Pdf);
    assert!(matches!(
        download_target(&t, "/Work/Notes", true),
        Err(CliError::InvalidPath(m)) if m == "--pages is only valid for notebooks"
    ));
    assert!(matches!(
        download_target(&t, "/Work", false),
        Err(CliError::InvalidPath(m)) if m == "cannot download folder `Work`"
    ));
    assert!(render_target(&t, "/Quick Note").is_ok());
    assert!(matches!(
        render_target(&t, "/Work/Notes"),
        Err(CliError::InvalidPath(m)) if m == "cannot render `Notes` (file_type: pdf); render only supports notebooks"
    ));
    assert!(matches!(render_target(&t, "/"), Err(CliError::InvalidPath(_))));
}

#[test]
fn file_names_for_downloads_and_renders() {
    assert_eq!(sanitize_name("a/b"), "a_b");
    assert_eq!(default_file_name("Paper", FileType::Epub), "Paper.epub");
    assert_eq!(
        source_path("/data", uid(NOTES), FileType::Pdf),
        format!("/data/{NOTES}.pdf")
    );
    assert_eq!(page_image_name(uid(QUICK), 12), format!("{QUICK}_page_12.png"));
    assert_eq!(page_path("/d", uid(QUICK), "p.rm"), format!("/d/{QUICK}/p.rm"));
}

#[test]
fn reports_read_like_the_command_output() {
    let empty = MkdirOutput { path: "/Work".into(), created: vec![] };
    assert_eq!(mkdir_report(&empty), "/Work already exists, nothing to create");
    let t = tree();
    let plan = plan_creations_from(&t, "/New", false, &vec![uid(SUB)]).unwrap();
    let out = MkdirOutput {
        path: "/New".into(),
        created: plan.iter().map(CreatedFolder::from_pending).collect(),
    };
    assert_eq!(mkdir_report(&out), format!("created 1 folder(s)\n  - /New  uuid={SUB}"));

    let mv = plan_move(&t, "/Work/Notes", "/Work").unwrap();
    assert_eq!(mv_report(&mv.output), "no change: 'Notes' is already in '/Work'");
    let mv = plan_move(&t, "/duplicate", "/Work").unwrap();
    assert_eq!(mv_report(&mv.output), format!("moved: '/duplicate' → '/Work'  uuid={DUP}"));

    let rm = plan_rm(&t, &strings(&["/Work"]), true, true).unwrap();
    assert_eq!(
        rm_report(&rm.output),
        format!("permanently deleted 1 item(s)\n  - /Work  folder  uuid={WORK}\n  + 2 descendant UUIDs wiped")
    );
    let rm = plan_rm(&t, &strings(&["/trash/Old Folder"]), false, false).unwrap();
    assert_eq!(rm_report(&rm.output), "no change: all targets were already in trash");
}

#[test]
fn download_report_lists_fields_and_page_count() {
    let u = uid("bbbbbbbb-0000-0000-0000-000000000001");
    let mut o = DownloadOutput {
        uuid: u,
        name: "Notes".to_string(),
        file_type: FileType::Notebook,
        output_path: "Notes".to_string(),
        size_bytes: 1234,
        pages_written: Some(3),
    };
    assert_eq!(
        download_report(&o),
        "uuid:         bbbbbbbb-0000-0000-0000-000000000001\n\
         name:         Notes\n\
         file_type:    notebook\n\
         output_path:  Notes\n\
         size_bytes:   1234\n\
         pages_written: 3"
    );
    o.file_type = FileType::Pdf;
    o.output_path = "Notes.pdf".to_string();
    o.pages_written = None;
    assert!(download_report(&o).ends_with("output_path:  Notes.pdf\nsize_bytes:   1234"));
}

#[test]
fn render_report_right_aligns_page_numbers() {
    let u = uid("bbbbbbbb-0000-0000-0000-000000000001");
    let o = RenderOutput {
        uuid: u,
        name: "Sketch".to_string(),
        output_dir: "out".to_string(),
        width: 1404,
        dpi: 226,
        pages: vec![
            RenderedPage { page: 1, output_path: "out/a_page_1.png".to_string(), height: 1872 },
            RenderedPage { page: 1234, output_path: "out/a_page_1234.png".to_string(), height: 900 },
        ],
    };
    assert_eq!(
        render_report(&o),
        "uuid:        bbbbbbbb-0000-0000-0000-000000000001\n\
         name:        Sketch\n\
         output_dir:  out\n\
         width:       1404\n\
         dpi:         226\n\
         pages:       2\n  \
         page   1: out/a_page_1.png (1404x1872)\n  \
         page 1234: out/a_page_1234.png (1404x900)"
    );
}
