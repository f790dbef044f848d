use kazane_game_launcher::provider::{
    remove_newlines, FetchError, GitHubRawProvider, RawAnswer, RetryStep, GAME_LIST_FILE,
    RELEASE_FILE,
};

#[test]
fn urls_for_branch_and_path() {
    let p = GitHubRawProvider::new(None);
    assert_eq!(
        p.raw_url("kazanefu", "kazane_game_launcher", GAME_LIST_FILE),
        "https://raw.githubusercontent.com/kazanefu/kazane_game_launcher/main/data/game_list.json"
    );
    let w = GitHubRawProvider::new(Some("workspace"));
    assert_eq!(
        w.raw_url("o", "r", "//launcher/release.json"),
        "https://raw.githubusercontent.com/o/r/workspace/launcher/release.json"
    );
    assert_eq!(
        w.api_url("o", "r", RELEASE_FILE),
        "https://api.github.com/repos/o/r/contents/launcher/release.json?ref=workspace"
    );
}

#[test]
fn retries_three_times_with_doubling_backoff() {
    let p = GitHubRawProvider::new(None);
    assert_eq!(p.after_send_error(0), RetryStep::Retry { attempt: 1, backoff_ms: 400 });
    assert_eq!(p.after_send_error(1), RetryStep::Retry { attempt: 2, backoff_ms: 800 });
    assert_eq!(p.after_send_error(2), RetryStep::GiveUp);
    assert_eq!(p.after_send_error(u32::MAX), RetryStep::GiveUp);
}

#[test]
fn raw_answers() {
    let p = GitHubRawProvider::new(None);
    match p.classify_raw_answer(false, "404 Not Found", "https://x/y", String::new()) {
        RawAnswer::Failed(FetchError::Status(m)) => {
            assert_eq!(m, "HTTP error 404 Not Found fetching https://x/y")
        }
        _ => panic!("expected a failure"),
    }
    assert!(matches!(
        p.classify_raw_answer(true, "200 OK", "u", " \n\t ".to_string()),
        RawAnswer::FallbackToApi
    ));
    match p.classify_raw_answer(true, "200 OK", "u", "{\"games\":[]}".to_string()) {
        RawAnswer::Body(b) => assert_eq!(b, "{\"games\":[]}"),
        _ => panic!("expected the body"),
    }
}

#[test]
fn api_answers() {
    let p = GitHubRawProvider::new(None);
    let body = "{\"content\":\"eyJnYW1l\\ncyI6W119\\n\"}";
    assert_eq!(p.decode_api_answer(true, "200 OK", "api", body).ok().unwrap(), "{\"games\":[]}");
    let jp = "{\"content\":\"IyDjgr/jgqTjg4jjg6sgKirlpKrmloflrZcqKg==\"}";
    assert!(p.decode_api_answer(true, "200 OK", "api", jp).ok().unwrap().contains("**太文字**"));
    // the member read is `content`, not a similar name
    match p.decode_api_answer(true, "200 OK", "https://api/x", "{\"contents\":\"eyJnYW1lcyI6W119\"}") {
        Err(FetchError::MissingContent(_)) => {}
        _ => panic!("expected missing content"),
    }
    match p.decode_api_answer(true, "200 OK", "https://api/x", "[1, 2]") {
        Err(FetchError::MissingContent(_)) => {}
        _ => panic!("expected missing content for a non-object"),
    }
    match p.decode_api_answer(true, "200 OK", "https://api/x", "{\"sha\":\"1\"}") {
        Err(FetchError::MissingContent(m)) => assert_eq!(m, "API returned no content for https://api/x"),
        _ => panic!("expected missing content"),
    }
    match p.decode_api_answer(false, "403 Forbidden", "https://api/x", "") {
        Err(FetchError::Status(m)) => assert_eq!(m, "API HTTP error 403 Forbidden fetching https://api/x"),
        _ => panic!("expected a status error"),
    }
    assert!(matches!(p.decode_api_answer(true, "200 OK", "a", "not json"), Err(FetchError::InvalidJson(_))));
    assert!(matches!(
        p.decode_api_answer(true, "200 OK", "a", "{\"content\":\"@@@\"}"),
        Err(FetchError::InvalidBase64(_))
    ));
    assert!(matches!(
        p.decode_api_answer(true, "200 OK", "a", "{\"content\":\"/w==\"}"),
        Err(FetchError::InvalidUtf8(_))
    ));
    assert_eq!(remove_newlines("a\nb\n\nc"), "abc");
}
