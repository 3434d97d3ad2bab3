use feeds_to_instapaper::PipelineError;
use feeds_to_instapaper::UrlError;
use feeds_to_instapaper::instapaper::Link;
use feeds_to_instapaper::syndication::Item;

fn link(url: &str) -> Link {
    Link { url: url.to_string(), title: None }
}

#[test]
fn absolute_url_kept_unchanged() {
    let l = link("https://other.example/post?q=1");
    let fixed = l.fix_url_schema("https://base.example").unwrap();
    assert_eq!(fixed.url, "https://other.example/post?q=1");
}

#[test]
fn relative_url_joined_against_base() {
    let l = link("/a");
    let fixed = l.fix_url_schema("https://site.example").unwrap();
    assert_eq!(fixed.url, "https://site.example/a");
}

#[test]
fn relative_url_join_follows_standard_resolution() {
    let l = link("other/page.html");
    let fixed = l.fix_url_schema("https://site.example/dir/index.html").unwrap();
    assert_eq!(fixed.url, "https://site.example/dir/other/page.html");
}

#[test]
fn invalid_url_is_an_error() {
    let l = link("http://[");
    let err = l.fix_url_schema("https://base.example").unwrap_err();
    assert_eq!(err, UrlError::Invalid);
}

#[test]
fn unjoinable_base_is_an_error() {
    let l = link("page");
    let err = l.fix_url_schema("mailto:someone@site.example").unwrap_err();
    assert_eq!(err, UrlError::JoinFailed);
}

#[test]
fn item_without_link_is_rejected() {
    let item = Item { title: Some("t".to_string()), pub_date: None, link: None };
    let err = Link::from_item(item).unwrap_err();
    assert_eq!(err, PipelineError::MissingLink);
}

#[test]
fn empty_title_treated_as_absent() {
    let item = Item {
        title: Some("".to_string()),
        pub_date: None,
        link: Some("https://a.example/x".to_string()),
    };
    let l = Link::from_item(item).unwrap();
    assert_eq!(l.url, "https://a.example/x");
    assert_eq!(l.title, None);

    let titled = Item {
        title: Some("A title".to_string()),
        pub_date: None,
        link: Some("https://a.example/y".to_string()),
    };
    let l2 = Link::from_item(titled).unwrap();
    assert_eq!(l2.title.as_deref(), Some("A title"));
}
