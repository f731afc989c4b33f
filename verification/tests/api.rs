use yeti_set_go::api::{
    load_leaderboard_with_fallback, submit_score_with_fallback, ApiClient, ApiError,
};
use yeti_set_go::highscores::{HighScore, Leaderboard};

fn rec(name: &str, score: u32) -> HighScore {
    HighScore { name: name.to_string(), score, level: 1, timestamp: 0 }
}

#[test]
fn error_messages() {
    assert_eq!(
        ApiError::NetworkError("connection refused".to_string()).message(),
        "Network error: connection refused"
    );
    assert_eq!(ApiError::ServerError(503).message(), "Server error");
    assert_eq!(
        ApiError::ParseError("bad json".to_string()).message(),
        "Parse error: bad json"
    );
    assert_eq!(ApiError::Disabled.message(), "API disabled");
    assert_eq!(
        ApiError::MissingApiKey.message(),
        "Missing API key: set FLUREE_API_KEY environment variable"
    );
}

#[test]
fn client_follows_credential() {
    let client = ApiClient::new(true);
    assert!(client.enabled);
    assert!(client.check_enabled().is_ok());

    let disabled = ApiClient::new(false);
    assert!(!disabled.enabled);
    assert!(matches!(disabled.check_enabled(), Err(ApiError::Disabled)));
}

#[test]
fn disable_is_permanent_for_the_client() {
    let mut client = ApiClient::new(true);
    client.disable();
    assert!(!client.enabled);
    assert!(matches!(client.check_enabled(), Err(ApiError::Disabled)));
}

#[test]
fn fetch_success_merges() {
    let mut lb = Leaderboard::new();
    lb.add_score(rec("A", 500));
    let loaded = load_leaderboard_with_fallback(&mut lb, Ok(vec![rec("B", 700)]));
    assert!(loaded);
    let names: Vec<&str> = lb.scores.iter().map(|h| h.name.as_str()).collect();
    assert_eq!(names, vec!["B", "A"]);
}

#[test]
fn fetch_failure_degrades_to_local_data() {
    let mut lb = Leaderboard::new();
    lb.add_score(rec("A", 500));
    for err in [
        ApiError::NetworkError("timeout".to_string()),
        ApiError::ServerError(500),
        ApiError::ParseError("truncated".to_string()),
        ApiError::Disabled,
        ApiError::MissingApiKey,
    ] {
        let loaded = load_leaderboard_with_fallback(&mut lb, Err(err));
        assert!(!loaded);
        assert_eq!(lb.scores.len(), 1);
        assert_eq!(lb.scores[0].name, "A");
        assert_eq!(lb.scores[0].score, 500);
    }
}

#[test]
fn submission_always_lands_locally() {
    let mut lb = Leaderboard::new();
    let ok = submit_score_with_fallback(&mut lb, &rec("A", 100), &Ok(()));
    assert!(ok);
    assert_eq!(lb.scores.len(), 1);

    let failed = submit_score_with_fallback(
        &mut lb,
        &rec("B", 200),
        &Err(ApiError::NetworkError("down".to_string())),
    );
    assert!(!failed);
    assert_eq!(lb.scores.len(), 2);
    assert_eq!(lb.scores[0].name, "B");
    assert_eq!(lb.get_local_best_score(), 200);
}
