use feeds_to_instapaper::Action;
use feeds_to_instapaper::FeedRun;
use feeds_to_instapaper::Links;
use feeds_to_instapaper::PipelineError;
use feeds_to_instapaper::UrlError;
use feeds_to_instapaper::syndication::Feed;
use feeds_to_instapaper::syndication::Item;

fn item(link: Option<&str>) -> Item {
    Item { title: None, pub_date: None, link: link.map(str::to_string) }
}

fn feed(link: Option<&str>, items: Vec<Item>) -> Feed {
    Feed {
        title: "F".to_string(),
        description: None,
        last_update: None,
        link: link.map(str::to_string),
        items,
    }
}

/// Drives a run to its end in auto mode, with every submission succeeding.
/// Returns the submitted URLs, the skip reports, the appended log lines, and
/// the aborting error if any.
fn drive_auto(
    mut run: FeedRun,
    ledger: &mut Links,
) -> (Vec<String>, Vec<usize>, Vec<String>, Option<PipelineError>) {
    let mut submits = Vec::new();
    let mut reports = Vec::new();
    let mut appended = Vec::new();
    let mut action = run.proceed();
    loop {
        match action {
            Action::Report(n) => {
                reports.push(n);
                action = run.proceed();
            }
            Action::Ask(_) => panic!("auto mode must not prompt"),
            Action::Submit(l) => {
                submits.push(l.url.clone());
                action = run.submitted(ledger, true);
            }
            Action::Record { url, append } => {
                if append {
                    appended.push(url);
                }
                action = run.proceed();
            }
            Action::Done => return (submits, reports, appended, None),
            Action::Abort(e) => return (submits, reports, appended, Some(e)),
        }
    }
}

#[test]
fn oldest_first_submission_order() {
    let mut ledger = Links::new();
    let f = feed(
        Some("https://site.example"),
        vec![
            item(Some("https://site.example/3")),
            item(Some("https://site.example/2")),
            item(Some("https://site.example/1")),
        ],
    );
    let run = FeedRun::new(f, "https://site.example", true, &ledger);
    let (submits, reports, appended, err) = drive_auto(run, &mut ledger);
    assert_eq!(
        submits,
        vec![
            "https://site.example/1".to_string(),
            "https://site.example/2".to_string(),
            "https://site.example/3".to_string(),
        ]
    );
    assert_eq!(reports, Vec::<usize>::new());
    assert_eq!(appended, submits);
    assert_eq!(err, None);
    assert!(ledger.saved("https://site.example/1"));
    assert!(ledger.saved("https://site.example/2"));
    assert!(ledger.saved("https://site.example/3"));
}

#[test]
fn preexisting_link_skipped_without_side_effects() {
    let mut ledger = Links::from_text("https://site.example/a\n");
    let before = ledger.log_text();
    let f = feed(None, vec![item(Some("/a"))]);
    let run = FeedRun::new(f, "https://site.example", true, &ledger);
    let (submits, reports, appended, err) = drive_auto(run, &mut ledger);
    assert_eq!(submits, Vec::<String>::new());
    assert_eq!(reports, vec![1]);
    assert_eq!(appended, Vec::<String>::new());
    assert_eq!(err, None);
    assert_eq!(ledger.log_text(), before);
}

#[test]
fn missing_link_aborts_feed_before_later_items() {
    let mut ledger = Links::new();
    let f = feed(
        Some("https://site.example"),
        vec![item(Some("https://site.example/good")), item(None)],
    );
    let run = FeedRun::new(f, "https://site.example", true, &ledger);
    let (submits, _, appended, err) = drive_auto(run, &mut ledger);
    assert_eq!(err, Some(PipelineError::MissingLink));
    assert_eq!(submits, Vec::<String>::new());
    assert_eq!(appended, Vec::<String>::new());
    assert!(ledger.items.is_empty());
}

#[test]
fn items_before_a_missing_link_are_still_processed() {
    let mut ledger = Links::new();
    let f = feed(
        Some("https://site.example"),
        vec![item(None), item(Some("https://site.example/old"))],
    );
    let run = FeedRun::new(f, "https://site.example", true, &ledger);
    let (submits, _, appended, err) = drive_auto(run, &mut ledger);
    assert_eq!(submits, vec!["https://site.example/old".to_string()]);
    assert_eq!(appended, submits);
    assert_eq!(err, Some(PipelineError::MissingLink));
    assert!(ledger.saved("https://site.example/old"));
}

#[test]
fn declined_item_recorded_without_submission() {
    let mut ledger = Links::new();
    let f = feed(Some("https://site.example"), vec![item(Some("https://site.example/x"))]);
    let mut run = FeedRun::new(f, "https://site.example", false, &ledger);
    let action = run.proceed();
    let link = match action {
        Action::Ask(l) => l,
        other => panic!("expected a prompt, got {:?}", other),
    };
    assert_eq!(link.url, "https://site.example/x");
    match run.answer(&mut ledger, false) {
        Action::Record { url, append } => {
            assert_eq!(url, "https://site.example/x");
            assert!(append);
        }
        other => panic!("expected a record, got {:?}", other),
    }
    assert!(matches!(run.proceed(), Action::Done));
    assert!(ledger.saved("https://site.example/x"));
}

#[test]
fn confirmed_item_submitted_then_recorded() {
    let mut ledger = Links::new();
    let f = feed(Some("https://site.example"), vec![item(Some("https://site.example/y"))]);
    let mut run = FeedRun::new(f, "https://site.example", false, &ledger);
    assert!(matches!(run.proceed(), Action::Ask(_)));
    let submit = run.answer(&mut ledger, true);
    match submit {
        Action::Submit(l) => assert_eq!(l.url, "https://site.example/y"),
        other => panic!("expected a submission, got {:?}", other),
    }
    assert!(!ledger.saved("https://site.example/y"));
    assert!(matches!(run.submitted(&mut ledger, true), Action::Record { .. }));
    assert!(ledger.saved("https://site.example/y"));
    assert!(matches!(run.proceed(), Action::Done));
    assert!(run.is_over());
}

#[test]
fn submission_failure_aborts_run_unrecorded() {
    let mut ledger = Links::new();
    let f = feed(Some("https://site.example"), vec![item(Some("https://site.example/z"))]);
    let mut run = FeedRun::new(f, "https://site.example", true, &ledger);
    assert!(matches!(run.proceed(), Action::Submit(_)));
    match run.submitted(&mut ledger, false) {
        Action::Abort(e) => assert_eq!(e, PipelineError::SubmissionFailed),
        other => panic!("expected an abort, got {:?}", other),
    }
    assert!(run.is_over());
    assert!(!ledger.saved("https://site.example/z"));
    assert!(ledger.items.is_empty());
}

#[test]
fn invalid_base_url_aborts_at_once() {
    let mut ledger = Links::new();
    let f = feed(Some("not a url"), vec![item(Some("https://site.example/q"))]);
    let run = FeedRun::new(f, "https://fetched.example", true, &ledger);
    let (submits, _, _, err) = drive_auto(run, &mut ledger);
    assert_eq!(err, Some(PipelineError::InvalidBaseUrl));
    assert_eq!(submits, Vec::<String>::new());
}

#[test]
fn unresolvable_item_link_aborts_feed() {
    let mut ledger = Links::new();
    let f = feed(Some("https://site.example"), vec![item(Some("http://["))]);
    let run = FeedRun::new(f, "https://site.example", true, &ledger);
    let (_, _, _, err) = drive_auto(run, &mut ledger);
    assert_eq!(err, Some(PipelineError::Url(UrlError::Invalid)));
}

#[test]
fn duplicate_link_within_feed_submitted_once() {
    let mut ledger = Links::new();
    let f = feed(Some("https://site.example"), vec![item(Some("/a")), item(Some("/a"))]);
    let run = FeedRun::new(f, "https://site.example", true, &ledger);
    let (submits, reports, appended, err) = drive_auto(run, &mut ledger);
    assert_eq!(submits, vec!["https://site.example/a".to_string()]);
    assert_eq!(appended, submits);
    assert_eq!(reports, vec![1]);
    assert_eq!(err, None);
}

#[test]
fn skips_reported_before_next_candidate() {
    let mut ledger = Links::from_text("https://site.example/old\n");
    let f = feed(
        Some("https://site.example"),
        vec![item(Some("https://site.example/new")), item(Some("https://site.example/old"))],
    );
    let run = FeedRun::new(f, "https://site.example", true, &ledger);
    let (submits, reports, _, err) = drive_auto(run, &mut ledger);
    assert_eq!(reports, vec![1]);
    assert_eq!(submits, vec!["https://site.example/new".to_string()]);
    assert_eq!(err, None);
}
