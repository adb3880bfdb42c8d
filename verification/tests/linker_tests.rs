use projdash::actions::obsidian_uri;
use projdash::linker::{find_document, md_file_stem};

#[test]
fn md_stem_extraction() {
    assert_eq!(md_file_stem("Daily Digest.md"), Some("Daily Digest".to_string()));
    assert_eq!(md_file_stem("x.md"), Some("x".to_string()));
    assert_eq!(md_file_stem(".md"), Some("".to_string()));
    assert_eq!(md_file_stem("notes.txt"), None);
    assert_eq!(md_file_stem("md"), None);
    assert_eq!(md_file_stem(""), None);
}

#[test]
fn find_document_fuzzy_match() {
    let entries = vec![
        "Other.md".to_string(),
        "Daily Digest.md".to_string(),
        "daily-digest.txt".to_string(),
    ];
    assert_eq!(find_document(&entries, "daily-digest"), Some(1));
    assert_eq!(find_document(&entries, "other"), Some(0));
    assert_eq!(find_document(&entries, "missing"), None);
    assert_eq!(find_document(&Vec::new(), "anything"), None);
}

#[test]
fn find_document_first_match_wins() {
    let entries = vec!["My App.md".to_string(), "my-app.md".to_string()];
    assert_eq!(find_document(&entries, "My_App"), Some(0));
}

#[test]
fn document_uri_encodes_spaces() {
    assert_eq!(
        obsidian_uri("Daily Digest"),
        "obsidian://open?vault=NV&file=Personal%2FApp%2FDaily%20Digest"
    );
    assert_eq!(obsidian_uri(""), "obsidian://open?vault=NV&file=Personal%2FApp%2F");
    assert_eq!(
        obsidian_uri("a b c"),
        "obsidian://open?vault=NV&file=Personal%2FApp%2Fa%20b%20c"
    );
}
