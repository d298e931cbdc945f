use remarkable::metadata::suggest::{
    format_suggestion, levenshtein, rank_suggestions, strip_known_extension,
};
use remarkable::metadata::tree::{DocumentEntry, FileType, ItemKind, Parent};
use remarkable::metadata::uuid_text::uuid_text;
use remarkable::order::{lex_le_str, sort_strings};
use remarkable::text::{decimal_text, join_strings};

fn chars(s: &str) -> Vec<char> {
    s.chars().collect()
}

#[test]
fn uuid_text_is_hyphenated_lowercase() {
    let u = uuid::Uuid::parse_str("936DA01F-9ABD-4D9D-80C7-02AF85C822A8").unwrap();
    assert_eq!(uuid_text(u.as_u128()), u.to_string());
    assert_eq!(uuid_text(0), "00000000-0000-0000-0000-000000000000");
}

#[test]
fn levenshtein_counts_edits() {
    assert_eq!(levenshtein(&chars("kitten"), &chars("sitting")), 3);
    assert_eq!(levenshtein(&chars(""), &chars("abc")), 3);
    assert_eq!(levenshtein(&chars("abc"), &chars("")), 3);
    assert_eq!(levenshtein(&chars("meting notes"), &chars("meeting notes")), 1);
}

#[test]
fn known_extensions_strip_in_order() {
    assert_eq!(strip_known_extension(&chars("Doc.pdf")), Some((3, FileType::Pdf)));
    assert_eq!(strip_known_extension(&chars("Book.epub")), Some((4, FileType::Epub)));
    assert_eq!(strip_known_extension(&chars("n.rm")), Some((1, FileType::Notebook)));
    assert_eq!(strip_known_extension(&chars(".pdf")), None);
    assert_eq!(strip_known_extension(&chars("x.txt")), None);
}

#[test]
fn suggestions_show_extension_or_slash() {
    let mk = |kind| DocumentEntry {
        uuid: 1,
        visible_name: "Name".into(),
        kind,
        parent: Parent::Root,
        deleted: false,
        pinned: false,
        last_modified_ms: 0,
        version: 1,
        tags: vec![],
        last_opened_ms: None,
    };
    assert_eq!(format_suggestion(&mk(ItemKind::Folder)), "Name/");
    assert_eq!(
        format_suggestion(&mk(ItemKind::Document { file_type: FileType::Epub, page_count: None })),
        "Name.epub"
    );
    assert_eq!(format_suggestion(&mk(ItemKind::Template)), "Name");
}

#[test]
fn strings_sort_by_code_point() {
    let v: Vec<String> = ["b", "a", "B", "ab", "a"].iter().map(|s| s.to_string()).collect();
    assert_eq!(sort_strings(v), vec!["B", "a", "a", "ab", "b"]);
    assert!(lex_le_str("a", "ab"));
    assert!(!lex_le_str("b", "a"));
}

#[test]
fn decimal_and_join() {
    assert_eq!(decimal_text(0), "0");
    assert_eq!(decimal_text(1234567890), "1234567890");
    assert_eq!(join_strings(&vec!["a".to_string(), "b".to_string()], ", "), "a, b");
    assert_eq!(join_strings(&vec![], "/"), "");
}

#[test]
fn rank_suggestions_orders_containment_then_distance() {
    let c = |a: &str, b: &str| (a.to_string(), b.to_string());
    let candidates = vec![
        c("meetings", "Meetings/"),
        c("notez", "Notez.pdf"),
        c("far away", "Far Away"),
        c("my notes", "My Notes"),
        c("nots", "Nots"),
    ];
    assert_eq!(
        rank_suggestions(&candidates, "notes.pdf", 10),
        vec!["My Notes", "Notez.pdf", "Nots"]
    );
    assert_eq!(rank_suggestions(&candidates, "notes", 1), vec!["My Notes"]);
    assert!(rank_suggestions(&candidates, "zzzzzzzz", 3).is_empty());
}
