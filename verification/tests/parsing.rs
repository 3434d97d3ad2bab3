use feeds_to_instapaper::FeedFormat;
use feeds_to_instapaper::ParseError;
use feeds_to_instapaper::syndication::AtomLink;
use feeds_to_instapaper::syndication::Feed;
use feeds_to_instapaper::syndication::find_alternate;

const RSS_DOC: &str = r#"<rss version="2.0">
  <channel>
    <title>Chan</title>
    <link>https://chan.example/</link>
    <description>Desc</description>
    <lastBuildDate>Mon, 01 Jan 2024 00:00:00 +0000</lastBuildDate>
    <item>
      <title>Newest</title>
      <link>https://chan.example/2</link>
      <pubDate>Tue, 02 Jan 2024 00:00:00 +0000</pubDate>
    </item>
    <item>
      <title>Oldest</title>
      <link>https://chan.example/1</link>
    </item>
  </channel>
</rss>"#;

const ATOM_DOC: &str = r#"<?xml version="1.0" encoding="utf-8"?>
<feed xmlns="http://www.w3.org/2005/Atom">
  <title>AFeed</title>
  <subtitle>Sub</subtitle>
  <updated>2024-01-02T03:04:05Z</updated>
  <id>urn:feed</id>
  <link rel="self" href="https://a.example/feed.xml"/>
  <link rel="alternate" href="https://a.example/"/>
  <entry>
    <title>E1</title>
    <id>urn:e1</id>
    <updated>2024-01-02T03:04:05Z</updated>
    <published>2024-01-01T00:00:00Z</published>
    <link rel="alternate" href="https://a.example/e1"/>
  </entry>
</feed>"#;

#[test]
fn parse_rss_maps_fields() {
    let feed = Feed::parse(RSS_DOC).unwrap();
    assert_eq!(feed.title, "Chan");
    assert_eq!(feed.description.as_deref(), Some("Desc"));
    assert_eq!(feed.link.as_deref(), Some("https://chan.example/"));
    assert_eq!(
        feed.last_update.as_deref(),
        Some("Mon, 01 Jan 2024 00:00:00 +0000")
    );
    assert_eq!(feed.items.len(), 2);
    assert_eq!(feed.items[0].title.as_deref(), Some("Newest"));
    assert_eq!(feed.items[0].link.as_deref(), Some("https://chan.example/2"));
    assert_eq!(
        feed.items[0].pub_date.as_deref(),
        Some("Tue, 02 Jan 2024 00:00:00 +0000")
    );
    assert_eq!(feed.items[1].title.as_deref(), Some("Oldest"));
    assert_eq!(feed.items[1].pub_date, None);
}

#[test]
fn parse_atom_after_fallback() {
    let feed = Feed::parse(ATOM_DOC).unwrap();
    assert_eq!(feed.title, "AFeed");
    assert_eq!(feed.description.as_deref(), Some("Sub"));
    assert_eq!(feed.last_update.as_deref(), Some("2024-01-02T03:04:05+00:00"));
    assert_eq!(feed.link.as_deref(), Some("https://a.example/"));
    assert_eq!(feed.items.len(), 1);
    assert_eq!(feed.items[0].title.as_deref(), Some("E1"));
    assert_eq!(
        feed.items[0].pub_date.as_deref(),
        Some("2024-01-01T00:00:00+00:00")
    );
    assert_eq!(feed.items[0].link.as_deref(), Some("https://a.example/e1"));
}

#[test]
fn malformed_rss_is_fatal_without_fallback() {
    let broken = r#"<rss version="2.0"><channel><title>Broken</title>"#;
    let err = Feed::parse(broken).unwrap_err();
    assert!(matches!(
        err,
        ParseError::Malformed { format: FeedFormat::Rss, .. }
    ));
}

#[test]
fn non_feed_document_fails_both_formats() {
    let err = Feed::parse("<foo/>").unwrap_err();
    assert!(matches!(err, ParseError::BothFormatsFailed { .. }));
}

fn atom_link(rel: &str, href: &str) -> AtomLink {
    AtomLink { rel: rel.to_string(), href: href.to_string() }
}

#[test]
fn find_alternate_prefers_alternate_relation() {
    let links = vec![
        atom_link("", "https://x.example/plain"),
        atom_link("alternate", "https://x.example/alt"),
    ];
    assert_eq!(find_alternate(&links).as_deref(), Some("https://x.example/alt"));
}

#[test]
fn find_alternate_takes_first_when_no_relation_declared() {
    let links = vec![
        atom_link("", "https://x.example/a"),
        atom_link("", "https://x.example/b"),
    ];
    assert_eq!(find_alternate(&links).as_deref(), Some("https://x.example/a"));
}

#[test]
fn find_alternate_none_when_only_other_relations() {
    let links = vec![
        atom_link("self", "https://x.example/self"),
        atom_link("", "https://x.example/plain"),
    ];
    assert_eq!(find_alternate(&links), None);
    assert_eq!(find_alternate(&Vec::new()), None);
}
