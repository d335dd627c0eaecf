use debuginfod::policy::Tally;
use debuginfod::FetchError;
use debuginfod::HttpClientError;

#[test]
fn tally_ignores_not_found() {
    let mut tally = Tally::new();
    tally.record("ab", "https://a.example/buildid/ab/debuginfo", HttpClientError::StatusCode(404));
    assert!(tally.server_error.is_none());
    assert!(tally.issue_error.is_none());
    assert!(tally.into_error().is_none());
}

#[test]
fn tally_prefers_server_errors() {
    let mut tally = Tally::new();
    tally.record("ab", "u1", HttpClientError::Other("refused".to_string()));
    tally.record("ab", "u2", HttpClientError::StatusCode(503));
    tally.record("ab", "u3", HttpClientError::StatusCode(500));
    match tally.into_error() {
        Some(FetchError::Status { build_id, url, status }) => {
            assert_eq!(build_id, "ab");
            assert_eq!(url, "u2");
            assert_eq!(status, 503);
        },
        other => panic!("unexpected {other:?}"),
    }
}

#[test]
fn tally_keeps_first_issue() {
    let mut tally = Tally::new();
    tally.record("cd", "u1", HttpClientError::InvalidUrl("first".to_string()));
    tally.record("cd", "u2", HttpClientError::Other("second".to_string()));
    let err = tally.into_error().unwrap();
    assert_eq!(err.root_cause(), "first");
    assert!(matches!(err, FetchError::Request { ref url, .. } if url == "u1"));
}

#[test]
fn describe_each_error() {
    assert_eq!(
        HttpClientError::StatusCode(404).describe(),
        "request failed with HTTP status 404 (Not Found)"
    );
    assert_eq!(HttpClientError::StatusCode(7).describe(), "request failed with HTTP status 7");
    assert_eq!(HttpClientError::Other("x".to_string()).describe(), "x");
    assert_eq!(HttpClientError::InvalidUrl("y".to_string()).describe(), "y");
}
