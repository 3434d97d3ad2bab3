use feeds_to_instapaper::Links;

#[test]
fn from_text_splits_lines() {
    let links = Links::from_text("https://a.example/1\nhttps://a.example/2\n");
    assert_eq!(links.items.len(), 2);
    assert!(links.saved("https://a.example/1"));
    assert!(links.saved("https://a.example/2"));
    assert!(!links.saved("https://a.example/3"));
}

#[test]
fn from_text_without_trailing_newline() {
    let links = Links::from_text("a\nb");
    assert_eq!(links.items, vec!["a".to_string(), "b".to_string()]);
}

#[test]
fn from_text_drops_duplicate_lines() {
    let links = Links::from_text("a\nb\na\n");
    assert_eq!(links.items, vec!["a".to_string(), "b".to_string()]);
}

#[test]
fn from_text_empty() {
    let links = Links::from_text("");
    assert!(links.items.is_empty());
    assert_eq!(links.log_text(), "");
}

#[test]
fn from_text_keeps_empty_line_entry() {
    let links = Links::from_text("\n");
    assert_eq!(links.items, vec!["".to_string()]);
    assert!(links.saved(""));
}

#[test]
fn add_records_once() {
    let mut links = Links::new();
    assert!(links.add("https://a.example/x"));
    assert!(links.saved("https://a.example/x"));
    assert!(!links.add("https://a.example/x"));
    let text = links.log_text();
    assert_eq!(text, "https://a.example/x\n");
    assert_eq!(text.lines().filter(|l| *l == "https://a.example/x").count(), 1);
}

#[test]
fn log_round_trip_preserves_entries() {
    let mut links = Links::new();
    links.add("https://a.example/1");
    links.add("https://a.example/2");
    links.add("https://a.example/1");
    let reopened = Links::from_text(links.log_text().as_str());
    assert_eq!(reopened.items, links.items);
    assert!(reopened.saved("https://a.example/1"));
    assert!(reopened.saved("https://a.example/2"));
}

#[test]
fn import_counts_and_appends() {
    let mut links = Links::from_text("https://a.example/old\n");
    let rows = vec![
        Some("https://a.example/old".to_string()),
        Some("https://a.example/new".to_string()),
        Some("https://a.example/new".to_string()),
        None,
    ];
    let (stats, appended) = links.import_rows(&rows);
    assert_eq!(stats.total, 4);
    assert_eq!(stats.existed, 2);
    assert_eq!(stats.imported(), 2);
    assert_eq!(appended, vec!["https://a.example/new".to_string()]);
    assert!(links.saved("https://a.example/new"));
    assert_eq!(links.items.len(), 2);
}
