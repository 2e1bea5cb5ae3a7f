use ankicode::integration::{
    accepted_slug, auth_status, request_credentials, CredentialsError, extract_bearer_token, extract_request_origin,
    header_idempotency_key, parse_difficulty, prepare_add_problem, AddProblemRequest,
    PendingCompletionDto, LOOPBACK_ADDR, LOOPBACK_PORT,
};
use ankicode::learning::LearningError;
use ankicode::problems::Difficulty;
use ankicode::settings::SettingsError;
use ankicode::storage::{PendingCompletion, StorageError};

#[test]
fn bearer_tokens_are_read_from_the_authorization_value() {
    assert_eq!(extract_bearer_token(Some("Bearer abc")), Some("abc".to_owned()));
    assert_eq!(extract_bearer_token(Some("bearer  abc  ")), Some("abc".to_owned()));
    assert_eq!(extract_bearer_token(Some("Basic abc")), None);
    assert_eq!(extract_bearer_token(Some("Bearer    ")), None);
    assert_eq!(extract_bearer_token(Some("BEARER abc")), None);
    assert_eq!(extract_bearer_token(None), None);
}

#[test]
fn request_origin_prefers_the_origin_header() {
    assert_eq!(
        extract_request_origin(Some(" chrome-extension://a "), Some("chrome-extension://b")),
        Some("chrome-extension://a".to_owned())
    );
    assert_eq!(
        extract_request_origin(Some("  "), Some("chrome-extension://b")),
        Some("chrome-extension://b".to_owned())
    );
    assert_eq!(
        extract_request_origin(None, Some("chrome-extension://b")),
        Some("chrome-extension://b".to_owned())
    );
    assert_eq!(extract_request_origin(None, Some(" ")), None);
    assert_eq!(extract_request_origin(None, None), None);
}

#[test]
fn storage_errors_map_to_http_statuses() {
    assert_eq!(auth_status(&StorageError::UnauthorizedClient), 401);
    assert_eq!(auth_status(&StorageError::InvalidPairingCode), 401);
    assert_eq!(auth_status(&StorageError::ClientRevoked), 403);
    assert_eq!(auth_status(&StorageError::OriginMismatch), 403);
    assert_eq!(auth_status(&StorageError::InvalidOrigin), 403);
    assert_eq!(auth_status(&StorageError::ProblemNotFound(1)), 404);
    assert_eq!(auth_status(&StorageError::ProblemSlugNotFound("x".to_owned())), 404);
    assert_eq!(
        auth_status(&StorageError::IntegrationIdempotencyConflict { key: "k".to_owned() }),
        409
    );
    assert_eq!(
        auth_status(&StorageError::ReviewIdempotencyConflict { key: "k".to_owned() }),
        409
    );
    assert_eq!(auth_status(&StorageError::InvalidData("x".to_owned())), 400);
    assert_eq!(
        auth_status(&StorageError::Settings(SettingsError::InvalidRetention)),
        400
    );
    assert_eq!(
        auth_status(&StorageError::Learning(LearningError::InvalidIdempotencyKey)),
        500
    );
    assert_eq!(auth_status(&StorageError::Sql("locked".to_owned())), 500);
}

#[test]
fn idempotency_key_header_is_required() {
    assert_eq!(header_idempotency_key(Some(" add-once ")), Ok("add-once".to_owned()));
    assert_eq!(
        header_idempotency_key(Some("  ")),
        Err((400, "Idempotency-Key header is required".to_owned()))
    );
    assert_eq!(
        header_idempotency_key(None),
        Err((400, "Idempotency-Key header is required".to_owned()))
    );
}

#[test]
fn requested_difficulty_ignores_case_and_whitespace() {
    assert_eq!(parse_difficulty("Easy"), Some(Difficulty::Easy));
    assert_eq!(parse_difficulty(" MEDIUM "), Some(Difficulty::Medium));
    assert_eq!(parse_difficulty("hArD"), Some(Difficulty::Hard));
    assert_eq!(parse_difficulty("impossible"), None);
    assert_eq!(parse_difficulty(""), None);
}

#[test]
fn add_requests_become_new_problems() {
    let body = AddProblemRequest {
        slug: " two-sum ".to_owned(),
        title: " Two Sum ".to_owned(),
        difficulty: "Easy".to_owned(),
        url: None,
    };
    let problem = prepare_add_problem(&body).unwrap();
    assert_eq!(problem.slug, "two-sum");
    assert_eq!(problem.title, "Two Sum");
    assert_eq!(problem.url, "https://leetcode.com/problems/two-sum/");
    assert_eq!(problem.difficulty, Difficulty::Easy);

    let bad_difficulty = AddProblemRequest {
        difficulty: "Insane".to_owned(),
        ..body.clone()
    };
    assert_eq!(
        prepare_add_problem(&bad_difficulty),
        Err((400, "difficulty must be Easy, Medium, or Hard".to_owned()))
    );
    let wrong_url = AddProblemRequest {
        url: Some("https://leetcode.com/problems/other/".to_owned()),
        ..body.clone()
    };
    assert_eq!(
        prepare_add_problem(&wrong_url),
        Err((400, "URL must be the canonical LeetCode URL for the slug".to_owned()))
    );
    let blank_url = AddProblemRequest {
        url: Some("   ".to_owned()),
        ..body
    };
    assert!(prepare_add_problem(&blank_url).is_ok());
}

#[test]
fn accepted_reports_need_a_slug() {
    assert_eq!(accepted_slug(" two-sum "), Ok("two-sum"));
    assert_eq!(accepted_slug("  "), Err((400, "slug is required".to_owned())));
}

#[test]
fn pending_completions_convert_to_dtos() {
    let pending = PendingCompletion {
        id: 1,
        problem_id: 2,
        slug: "two-sum".to_owned(),
        title: "Two Sum".to_owned(),
        difficulty: Difficulty::Easy,
        url: "https://leetcode.com/problems/two-sum/".to_owned(),
        idempotency_key: "accepted:two-sum".to_owned(),
        accepted_at: 3,
        created_at: 4,
    };
    let dto = PendingCompletionDto::from(pending);
    assert_eq!(dto.id, 1);
    assert_eq!(dto.problem_id, 2);
    assert_eq!(dto.slug, "two-sum");
    assert_eq!(dto.idempotency_key, "accepted:two-sum");
    assert_eq!(dto.created_at, 4);
}

#[test]
fn loopback_address_constants() {
    assert_eq!(LOOPBACK_ADDR, "127.0.0.1");
    assert_eq!(LOOPBACK_PORT, 17342);
}

#[test]
fn credentials_are_checked_token_first_then_origin() {
    let ext = "chrome-extension://part4-test";
    assert_eq!(
        request_credentials(None, None, None),
        Err(CredentialsError::MissingBearerToken)
    );
    assert_eq!(
        request_credentials(Some("Basic abc"), Some(ext), None),
        Err(CredentialsError::MissingBearerToken)
    );
    assert_eq!(
        request_credentials(Some("Bearer tok"), Some("  "), None),
        Err(CredentialsError::MissingOrigin)
    );
    assert_eq!(
        request_credentials(Some("Bearer tok"), None, Some(ext)),
        Ok(("tok".to_owned(), ext.to_owned()))
    );
    assert_eq!(CredentialsError::MissingBearerToken.status(), 401);
    assert_eq!(CredentialsError::MissingOrigin.status(), 403);
    assert_eq!(CredentialsError::MissingOrigin.message(), "missing origin");
}
