use remarkable::cli::notebook_pages::{
    enumerate_page_files, extract_page_id, one_based_page_number, order_page_files_best_effort,
    order_page_files_from_pages, order_page_files_strict, page_count_zero, page_file_names,
    select_listed_pages, select_page_files_from_pages, select_page_files_strict, ContentState,
    NotebookContent, PageValue, PagesError,
};
use remarkable::metadata::page_range::{PageSelection, PageSelectionError};
use remarkable::tablet::remote::{RemoteEntry, RemoteFileKind, RemoteMetadata};

fn names(v: &[&str]) -> Vec<String> {
    v.iter().map(|s| s.to_string()).collect()
}

fn id(s: &str) -> PageValue {
    PageValue::Object { id: Some(s.to_string()), uuid: None }
}

#[test]
fn extract_page_id_reads_string_id_or_uuid() {
    assert_eq!(extract_page_id(&PageValue::Text("p1".into())), Some("p1"));
    assert_eq!(extract_page_id(&id("p2")), Some("p2"));
    assert_eq!(
        extract_page_id(&PageValue::Object { id: None, uuid: Some("p3".into()) }),
        Some("p3")
    );
    assert_eq!(extract_page_id(&PageValue::Object { id: None, uuid: None }), None);
    assert_eq!(extract_page_id(&PageValue::Other), None);
}

#[test]
fn recorded_order_first_then_sorted_orphans() {
    let pages = vec![id("b"), id("missing"), id("a"), id("b")];
    let mut discovered = names(&["z.rm", "a.rm", "b.rm", "c.rm", "a.rm"]);
    let out = order_page_files_from_pages(Some(&pages), &mut discovered);
    assert_eq!(out, names(&["b.rm", "a.rm", "c.rm", "z.rm"]));
    assert!(discovered.is_empty());
}

#[test]
fn without_recorded_order_files_are_sorted() {
    let mut discovered = names(&["b.rm", "a.rm", "C.rm"]);
    let out = order_page_files_from_pages(None, &mut discovered);
    assert_eq!(out, names(&["C.rm", "a.rm", "b.rm"]));
}

#[test]
fn order_page_files_best_effort_falls_back_to_sorting() {
    let mut discovered = names(&["y.rm", "x.rm"]);
    assert_eq!(order_page_files_best_effort(None, &mut discovered), names(&["x.rm", "y.rm"]));
    let content = NotebookContent { pages: Some(vec![id("y")]), page_count: None };
    let mut discovered = names(&["x.rm", "y.rm"]);
    assert_eq!(
        order_page_files_best_effort(Some(&content), &mut discovered),
        names(&["y.rm", "x.rm"])
    );
}

#[test]
fn order_page_files_strict_requires_pages_array() {
    let content = NotebookContent { pages: None, page_count: Some(2) };
    let mut discovered = names(&["a.rm"]);
    assert_eq!(
        order_page_files_strict(&content, &mut discovered),
        Err(PagesError::MissingPagesArray)
    );
}

#[test]
fn selected_pages_keep_recorded_numbers_when_files_are_missing() {
    let pages = vec![id("p1"), id("p2"), id("p3")];
    let mut discovered = names(&["p3.rm", "p1.rm", "extra.rm"]);
    let out = select_page_files_from_pages(&pages, &mut discovered);
    assert_eq!(
        out,
        vec![(1, "p1.rm".to_string()), (3, "p3.rm".to_string()), (4, "extra.rm".to_string())]
    );
}

#[test]
fn strict_selection_filters_by_page_range() {
    let content = NotebookContent { pages: Some(vec![id("p1"), id("p2"), id("p3")]), page_count: None };
    let mut discovered = names(&["p1.rm", "p2.rm", "p3.rm"]);
    let sel = PageSelection { ranges: vec![(2, 3)] };
    let out = select_page_files_strict(&content, &mut discovered, &sel).unwrap();
    assert_eq!(out, vec![(2, "p2.rm".to_string()), (3, "p3.rm".to_string())]);
}

#[test]
fn enumerate_numbers_from_one() {
    assert_eq!(
        enumerate_page_files(names(&["a", "b"])),
        vec![(1, "a".to_string()), (2, "b".to_string())]
    );
    assert_eq!(one_based_page_number(0), Some(1));
    assert_eq!(one_based_page_number(0xFFFF_FFFF), None);
}

#[test]
fn page_count_zero_reads_declared_count() {
    assert!(!page_count_zero(None));
    let c = NotebookContent { pages: None, page_count: Some(0) };
    assert!(page_count_zero(Some(&c)));
    let c = NotebookContent { pages: Some(vec![]), page_count: None };
    assert!(page_count_zero(Some(&c)));
    let c = NotebookContent { pages: Some(vec![id("x")]), page_count: None };
    assert!(!page_count_zero(Some(&c)));
}

fn listed(name: &str) -> RemoteEntry {
    RemoteEntry {
        name: name.to_string(),
        metadata: RemoteMetadata { kind: RemoteFileKind::File, size: Some(1), mtime: None },
    }
}

#[test]
fn page_files_are_rm_files_with_a_stem() {
    let entries = vec![listed("a.rm"), listed("b.RM"), listed(".rm"), listed("c.json"), listed("d-metadata.json")];
    assert_eq!(page_file_names(&entries), names(&["a.rm", "b.RM"]));
}

#[test]
fn listed_pages_need_readable_order_for_selection() {
    let entries = vec![listed("p2.rm"), listed("p1.rm")];
    let sel = PageSelection { ranges: vec![(1, 1)] };
    assert_eq!(
        select_listed_pages(&ContentState::Unreadable, &entries, Some(&sel)),
        Err(PagesError::OrderUnreadable)
    );
    assert_eq!(
        select_listed_pages(&ContentState::Unparsable, &entries, Some(&sel)),
        Err(PagesError::ContentUnparsable)
    );
    let content = NotebookContent { pages: Some(vec![id("p1"), id("p2")]), page_count: None };
    assert_eq!(
        select_listed_pages(&ContentState::Parsed(content.clone()), &entries, Some(&sel)),
        Ok(vec![(1, "p1.rm".to_string())])
    );
    assert_eq!(
        select_listed_pages(&ContentState::Unreadable, &entries, None),
        Ok(vec![(1, "p1.rm".to_string()), (2, "p2.rm".to_string())])
    );
}

#[test]
fn page_selection_contains_inclusive_ranges() {
    let sel = PageSelection { ranges: vec![(1, 2), (5, 5)] };
    assert!(sel.contains(1));
    assert!(sel.contains(2));
    assert!(!sel.contains(3));
    assert!(sel.contains(5));
}

#[test]
fn page_selection_parses_ranges_and_lists() {
    assert_eq!(PageSelection::parse("1-5").unwrap().ranges, vec![(1, 5)]);
    assert_eq!(PageSelection::parse("1,3,7").unwrap().ranges, vec![(1, 1), (3, 3), (7, 7)]);
    assert_eq!(PageSelection::parse("2-2,9").unwrap().ranges, vec![(2, 2), (9, 9)]);
}

#[test]
fn page_selection_rejects_bad_input() {
    assert_eq!(PageSelection::parse("").unwrap_err(), PageSelectionError::Empty);
    assert_eq!(PageSelection::parse("0").unwrap_err(), PageSelectionError::ZeroPage);
    assert_eq!(PageSelection::parse("5-2").unwrap_err(), PageSelectionError::DescendingRange);
    assert_eq!(PageSelection::parse("a").unwrap_err(), PageSelectionError::InvalidNumber);
    assert_eq!(PageSelection::parse("1,,2").unwrap_err(), PageSelectionError::InvalidNumber);
    assert_eq!(PageSelection::parse("4294967296").unwrap_err(), PageSelectionError::InvalidNumber);
    assert_eq!(PageSelection::parse("1-2-3").unwrap_err(), PageSelectionError::InvalidNumber);
}

#[test]
fn error_kinds_describe_themselves() {
    assert_eq!(PageSelectionError::ZeroPage.message(), "page numbers start at 1");
    assert_eq!(
        PagesError::MissingPagesArray.message("/d/x.content"),
        "notebook .content is missing a pages array; --pages requires recorded page order"
    );
    assert_eq!(
        PagesError::OrderUnreadable.message("/home/root/xochitl/x.content"),
        "readable notebook page order required from /home/root/xochitl/x.content when using --pages"
    );
    assert_eq!(
        remarkable::cli::download::content_path("/data", 0x0123_4567_89ab_cdef_0123_4567_89ab_cdef),
        "/data/01234567-89ab-cdef-0123-456789abcdef.content"
    );
    assert_eq!(
        remarkable::error::BlockProblem::PointDataLength.message(),
        "point data length is not a multiple of point size"
    );
}
