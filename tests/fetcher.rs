use rfc_cli::{DocumentFetcher, DocumentType, Failure, FetchAction, FetchState, Format, MetadataReply, RfcError};

#[test]
fn test_rfc_urls() {
    let editor = DocumentFetcher::new().unwrap();

    assert_eq!(
        editor.html_url(&DocumentType::Rfc(9000)),
        "https://www.rfc-editor.org/rfc/rfc9000.html"
    );
    assert_eq!(
        editor.text_url(&DocumentType::Rfc(9000)),
        "https://www.rfc-editor.org/rfc/rfc9000.txt"
    );
}

#[test]
fn test_draft_urls() {
    let editor = DocumentFetcher::new().unwrap();
    let draft = DocumentType::Draft("draft-ietf-quic-transport-34".to_string());

    assert_eq!(
        editor.html_url(&draft),
        "https://datatracker.ietf.org/doc/html/draft-ietf-quic-transport-34"
    );
    assert_eq!(
        editor.text_url(&draft),
        "https://www.ietf.org/archive/id/draft-ietf-quic-transport-34.txt"
    );
}

#[test]
fn test_has_version_suffix() {
    // Has version suffix
    assert!(DocumentFetcher::has_version_suffix(
        "draft-ietf-quic-transport-34"
    ));
    assert!(DocumentFetcher::has_version_suffix("draft-foo-00"));
    assert!(DocumentFetcher::has_version_suffix("draft-test-123456"));

    // No version suffix
    assert!(!DocumentFetcher::has_version_suffix(
        "draft-ietf-quic-transport"
    ));
    assert!(!DocumentFetcher::has_version_suffix("draft-foo-bar-v2")); // v2 has letter
    assert!(!DocumentFetcher::has_version_suffix("draft-foo-bar-")); // empty suffix
    assert!(!DocumentFetcher::has_version_suffix("draftname")); // no dash
    assert!(!DocumentFetcher::has_version_suffix("")); // empty string
}

#[test]
fn urls_of_small_and_large_numbers() {
    let editor = DocumentFetcher::new().unwrap();
    assert_eq!(editor.text_url(&DocumentType::Rfc(0)), "https://www.rfc-editor.org/rfc/rfc0.txt");
    assert_eq!(editor.html_url(&DocumentType::Rfc(7)), "https://www.rfc-editor.org/rfc/rfc7.html");
    assert_eq!(
        editor.text_url(&DocumentType::Rfc(4294967295)),
        "https://www.rfc-editor.org/rfc/rfc4294967295.txt"
    );
    let draft = DocumentType::Draft("draft-foo".to_string());
    assert_eq!(editor.html_url(&draft), "https://datatracker.ietf.org/doc/html/draft-foo");
}

#[test]
fn suffix_detection_edge_cases() {
    assert!(DocumentFetcher::has_version_suffix("-1"));
    assert!(!DocumentFetcher::has_version_suffix("-"));
    assert!(!DocumentFetcher::has_version_suffix("123"));
    assert!(!DocumentFetcher::has_version_suffix("draft-01-x"));
}

#[test]
fn metadata_query_only_for_unqualified_drafts() {
    assert_eq!(DocumentFetcher::metadata_query(&DocumentType::Rfc(9000)), None);
    let qualified = DocumentType::Draft("draft-foo-00".to_string());
    assert_eq!(DocumentFetcher::metadata_query(&qualified), None);
    let bare = DocumentType::Draft("draft-ietf-quic-transport".to_string());
    assert_eq!(
        DocumentFetcher::metadata_query(&bare),
        Some("https://datatracker.ietf.org/doc/draft-ietf-quic-transport/doc.json".to_string())
    );
}

#[test]
fn resolution_appends_revision() {
    let bare = DocumentType::Draft("draft-ietf-quic-transport".to_string());
    let r = DocumentFetcher::resolve_draft_version(&bare, MetadataReply::Info(Some("34".to_string())));
    assert_eq!(r.unwrap(), DocumentType::Draft("draft-ietf-quic-transport-34".to_string()));
}

#[test]
fn resolution_without_revision_keeps_name() {
    let bare = DocumentType::Draft("draft-foo".to_string());
    let r = DocumentFetcher::resolve_draft_version(&bare, MetadataReply::Info(None));
    assert_eq!(r.unwrap(), bare);
}

#[test]
fn resolution_leaves_published_and_qualified_alone() {
    let rfc = DocumentType::Rfc(8200);
    let r = DocumentFetcher::resolve_draft_version(&rfc, MetadataReply::Rejected(404));
    assert_eq!(r.unwrap(), rfc);
    let qualified = DocumentType::Draft("draft-foo-00".to_string());
    let r = DocumentFetcher::resolve_draft_version(&qualified, MetadataReply::Unreachable("down".to_string()));
    assert_eq!(r.unwrap(), qualified);
}

#[test]
fn resolution_errors() {
    let bare = DocumentType::Draft("draft-foo".to_string());
    match DocumentFetcher::resolve_draft_version(&bare, MetadataReply::Rejected(404)) {
        Err(RfcError::NotFound(name)) => assert_eq!(name, "draft-foo"),
        other => panic!("unexpected {:?}", other),
    }
    match DocumentFetcher::resolve_draft_version(&bare, MetadataReply::Unreachable("timeout".to_string())) {
        Err(RfcError::MetadataUnavailable(msg)) => assert_eq!(msg, "timeout"),
        other => panic!("unexpected {:?}", other),
    }
    match DocumentFetcher::resolve_draft_version(&bare, MetadataReply::Unreadable("bad json".to_string())) {
        Err(RfcError::MetadataUnavailable(msg)) => assert_eq!(msg, "bad json"),
        other => panic!("unexpected {:?}", other),
    }
}

fn failure(url: &str, reason: &str) -> Failure {
    Failure { url: url.to_string(), reason: reason.to_string() }
}

/// Runs a whole retrieval against canned answers, recording the requests made.
fn run_with_metadata(
    doc: &DocumentType,
    metadata: Option<MetadataReply>,
    text: Result<String, Failure>,
    html: Result<String, Failure>,
) -> (Result<(String, Format), RfcError>, Vec<String>, Vec<(String, Format)>) {
    let fetcher = DocumentFetcher::new().unwrap();
    let mut metadata = metadata;
    let mut queries = Vec::new();
    let mut requests = Vec::new();
    let mut answers = vec![text, html].into_iter();
    let (mut state, mut action) = fetcher.fetch_begin(doc);
    loop {
        match action {
            FetchAction::Resolve { url } => {
                queries.push(url);
                let reply = metadata.take().expect("unexpected metadata query");
                let (s, a) = fetcher.resolve_step(state, reply);
                state = s;
                action = a;
            }
            FetchAction::Request { url, format } => {
                requests.push((url, format));
                let answer = answers.next().expect("more requests than answers");
                let (s, a) = fetcher.fetch_step(state, answer);
                state = s;
                action = a;
            }
            FetchAction::Complete(outcome) => {
                assert!(matches!(state, FetchState::Finished));
                return (outcome, queries, requests);
            }
        }
    }
}

fn run(
    doc: &DocumentType,
    text: Result<String, Failure>,
    html: Result<String, Failure>,
) -> (Result<(String, Format), RfcError>, Vec<(String, Format)>) {
    let (outcome, queries, requests) = run_with_metadata(doc, None, text, html);
    assert!(queries.is_empty());
    (outcome, requests)
}

#[test]
fn text_success_makes_no_hypertext_request() {
    let doc = DocumentType::Rfc(9000);
    let (outcome, requests) = run(&doc, Ok("plain".to_string()), Ok("never".to_string()));
    assert_eq!(outcome.unwrap(), ("plain".to_string(), Format::Text));
    assert_eq!(requests, vec![("https://www.rfc-editor.org/rfc/rfc9000.txt".to_string(), Format::Text)]);
}

#[test]
fn text_failure_falls_back_to_hypertext() {
    let doc = DocumentType::Draft("draft-foo-00".to_string());
    let (outcome, requests) = run(
        &doc,
        Err(failure("https://www.ietf.org/archive/id/draft-foo-00.txt", "HTTP 404")),
        Ok("<html/>".to_string()),
    );
    assert_eq!(outcome.unwrap(), ("<html/>".to_string(), Format::Html));
    assert_eq!(requests.len(), 2);
    assert_eq!(requests[1], ("https://datatracker.ietf.org/doc/html/draft-foo-00".to_string(), Format::Html));
}

#[test]
fn both_failures_are_reported() {
    let doc = DocumentType::Rfc(1);
    let (outcome, requests) = run(
        &doc,
        Err(failure("https://www.rfc-editor.org/rfc/rfc1.txt", "HTTP 404")),
        Err(failure("https://www.rfc-editor.org/rfc/rfc1.html", "HTTP 500")),
    );
    assert_eq!(requests.len(), 2);
    match outcome {
        Err(RfcError::FetchFailed { text, html }) => {
            assert_eq!(text.reason, "HTTP 404");
            assert_eq!(text.url, "https://www.rfc-editor.org/rfc/rfc1.txt");
            assert_eq!(html.reason, "HTTP 500");
            assert_eq!(html.url, "https://www.rfc-editor.org/rfc/rfc1.html");
        }
        other => panic!("unexpected {:?}", other),
    }
}

#[test]
fn client_carries_user_agent_and_timeout() {
    let fetcher = DocumentFetcher::new().unwrap();
    assert_eq!(fetcher.user_agent(), "rfc-cli/0.1.0");
    assert_eq!(fetcher.timeout_secs(), 30);
}

#[test]
fn unversioned_draft_is_resolved_before_fetching() {
    let doc = DocumentType::Draft("draft-ietf-quic-transport".to_string());
    let (outcome, queries, requests) = run_with_metadata(
        &doc,
        Some(MetadataReply::Info(Some("34".to_string()))),
        Ok("text".to_string()),
        Ok("never".to_string()),
    );
    assert_eq!(
        queries,
        vec!["https://datatracker.ietf.org/doc/draft-ietf-quic-transport/doc.json".to_string()]
    );
    assert_eq!(
        requests,
        vec![(
            "https://www.ietf.org/archive/id/draft-ietf-quic-transport-34.txt".to_string(),
            Format::Text
        )]
    );
    assert_eq!(outcome.unwrap(), ("text".to_string(), Format::Text));
}

#[test]
fn resolution_failure_stops_before_any_content_request() {
    let doc = DocumentType::Draft("draft-missing".to_string());
    let (outcome, queries, requests) = run_with_metadata(
        &doc,
        Some(MetadataReply::Rejected(404)),
        Ok("never".to_string()),
        Ok("never".to_string()),
    );
    assert_eq!(queries.len(), 1);
    assert!(requests.is_empty());
    match outcome {
        Err(RfcError::NotFound(name)) => assert_eq!(name, "draft-missing"),
        other => panic!("unexpected {:?}", other),
    }
}
