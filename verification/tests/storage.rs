use ankicode::daily_queue::{DailyAssignment, DailyAssignmentItem, DayWindow};
use ankicode::learning::{LearningError, Rating, ReviewEvent};
use ankicode::problems::{Difficulty, ProblemStatus};
use ankicode::storage::{
    authorize_client, check_chronological, check_migration, pair_step,
    check_persisted_window, checked_idempotency_key, generate_bearer_token, hash_token,
    integration_replay, is_chrome_extension_origin, migration_checksum, parse_problem,
    plan_pending_completion, replay_prefix, review_from_row, review_retry_check,
    select_daily_items, IntegrationClient, PendingPlan, StorageError,
};

const T0: i64 = 1_700_000_000;

fn candidates(list: &[(i64, &str)]) -> Vec<(i64, String)> {
    list.iter().map(|(id, d)| (*id, d.to_string())).collect()
}

#[test]
fn queue_pick_respects_weighted_budget_and_excludes_hard() {
    let items =
        select_daily_items(&candidates(&[(1, "easy"), (2, "easy"), (3, "medium"), (4, "hard")]))
            .unwrap();
    let assignment = DailyAssignment {
        local_date: "2024-01-01".to_owned(),
        items: items.clone(),
    };
    assert_eq!(assignment.total_cost(), 2);
    assert_eq!(
        items,
        vec![
            DailyAssignmentItem { problem_id: 1, position: 0, cost: 1 },
            DailyAssignmentItem { problem_id: 2, position: 1, cost: 1 },
        ]
    );
    assert_eq!(assignment.validate(), Ok(()));
}

#[test]
fn queue_pick_lets_a_medium_take_the_whole_budget_and_skips_what_does_not_fit() {
    let items = select_daily_items(&candidates(&[(7, "medium"), (8, "easy")])).unwrap();
    assert_eq!(items, vec![DailyAssignmentItem { problem_id: 7, position: 0, cost: 2 }]);
    let items =
        select_daily_items(&candidates(&[(4, "hard"), (5, "easy"), (6, "medium"), (9, "easy")]))
            .unwrap();
    assert_eq!(
        items,
        vec![
            DailyAssignmentItem { problem_id: 5, position: 0, cost: 1 },
            DailyAssignmentItem { problem_id: 9, position: 1, cost: 1 },
        ]
    );
    assert!(select_daily_items(&[]).unwrap().is_empty());
    assert!(select_daily_items(&candidates(&[(1, "hard")])).unwrap().is_empty());
}

#[test]
fn queue_pick_reports_unknown_difficulty_met_before_the_budget_is_spent() {
    assert_eq!(
        select_daily_items(&candidates(&[(1, "easy"), (2, "EASY")])),
        Err(StorageError::InvalidData(
            "invalid difficulty database value: EASY".to_owned()
        ))
    );
    assert!(select_daily_items(&candidates(&[(1, "medium"), (2, "bogus")])).is_ok());
}

#[test]
fn persisted_window_check_rejects_different_utc_bounds() {
    let original = DayWindow::new("2024-03-10", T0, T0 + 23 * 3_600).unwrap();
    assert_eq!(check_persisted_window(&original, None), Ok(false));
    assert_eq!(
        check_persisted_window(&original, Some((T0, T0 + 23 * 3_600))),
        Ok(true)
    );
    let mismatched = DayWindow::new("2024-03-10", T0 + 1, T0 + 1 + 23 * 3_600).unwrap();
    let error = check_persisted_window(&mismatched, Some((T0, T0 + 23 * 3_600))).unwrap_err();
    assert_eq!(
        error,
        StorageError::DayWindowMismatch {
            local_date: "2024-03-10".to_owned(),
            stored_start: T0,
            stored_end: T0 + 23 * 3_600,
            requested_start: T0 + 1,
            requested_end: T0 + 1 + 23 * 3_600,
        }
    );
}

#[test]
fn review_retry_check_accepts_retries_and_types_conflicts() {
    let event = ReviewEvent::new("stable-key", Rating::Medium, T0).unwrap();
    assert_eq!(review_retry_check(None, &event), Ok(false));
    assert_eq!(review_retry_check(Some((3, T0)), &event), Ok(true));
    assert_eq!(
        review_retry_check(Some((4, T0)), &event),
        Err(StorageError::ReviewIdempotencyConflict { key: "stable-key".to_owned() })
    );
    assert_eq!(
        review_retry_check(Some((3, T0 + 1)), &event),
        Err(StorageError::ReviewIdempotencyConflict { key: "stable-key".to_owned() })
    );
}

#[test]
fn retry_replays_the_history_up_to_its_event() {
    let history = vec![
        ReviewEvent::new("first", Rating::Medium, T0).unwrap(),
        ReviewEvent::new("second", Rating::Hard, T0 + 86_400).unwrap(),
        ReviewEvent::new("third", Rating::Easy, T0 + 2 * 86_400).unwrap(),
    ];
    let prefix = replay_prefix(&history, "second");
    assert_eq!(prefix, history[..2].to_vec());
    assert_eq!(replay_prefix(&history, "first"), history[..1].to_vec());
    assert_eq!(replay_prefix(&history, "unknown"), history);
}

#[test]
fn chronological_append_is_enforced() {
    let older = ReviewEvent::new("older", Rating::Again, T0 - 1).unwrap();
    assert_eq!(
        check_chronological(Some(T0), &older),
        Err(StorageError::Learning(LearningError::OutOfOrder {
            previous: T0,
            current: T0 - 1
        }))
    );
    let same = ReviewEvent::new("same", Rating::Easy, T0).unwrap();
    assert_eq!(check_chronological(Some(T0), &same), Ok(()));
    assert_eq!(check_chronological(None, &older), Ok(()));
}

#[test]
fn stored_review_rows_are_read_back_or_refused() {
    let event = review_from_row("k", 2, T0).unwrap();
    assert_eq!(event, ReviewEvent::new("k", Rating::Hard, T0).unwrap());
    assert_eq!(
        review_from_row("k", 7, T0),
        Err(StorageError::Learning(LearningError::InvalidRating("7".to_owned())))
    );
    assert_eq!(
        review_from_row(" ", 1, T0),
        Err(StorageError::Learning(LearningError::InvalidIdempotencyKey))
    );
}

#[test]
fn problem_rows_are_parsed_or_refused() {
    let raw = (
        5,
        "two-sum".to_owned(),
        "Two Sum".to_owned(),
        "https://leetcode.com/problems/two-sum/".to_owned(),
        "easy".to_owned(),
        "paused".to_owned(),
        T0,
        T0 + 1,
    );
    let problem = parse_problem(raw.clone()).unwrap();
    assert_eq!(problem.id, 5);
    assert_eq!(problem.difficulty, Difficulty::Easy);
    assert_eq!(problem.status, ProblemStatus::Paused);
    assert_eq!(problem.updated_at, T0 + 1);
    let mut bad = raw.clone();
    bad.5 = "deleted".to_owned();
    assert_eq!(
        parse_problem(bad),
        Err(StorageError::InvalidData(
            "invalid problem status database value: deleted".to_owned()
        ))
    );
    let mut bad = raw;
    bad.4 = "extreme".to_owned();
    assert_eq!(
        parse_problem(bad),
        Err(StorageError::InvalidData(
            "invalid difficulty database value: extreme".to_owned()
        ))
    );
}

#[test]
fn extension_origins_are_recognised() {
    assert!(is_chrome_extension_origin("chrome-extension://abcdef"));
    assert!(!is_chrome_extension_origin("chrome-extension://"));
    assert!(!is_chrome_extension_origin("https://example.com"));
    assert!(!is_chrome_extension_origin("chrome-extension://ab cd"));
    assert!(!is_chrome_extension_origin("chrome-extension://ab\tcd"));
}

#[test]
fn tokens_hash_to_sha256_hex() {
    assert_eq!(
        hash_token("abc"),
        "ba7816bf8f01cfea414140de5dae2223b00361a396177a9cb410ff61f20015ad"
    );
    assert_eq!(
        migration_checksum("abc"),
        "ba7816bf8f01cfea414140de5dae2223b00361a396177a9cb410ff61f20015ad"
    );
    assert_eq!(
        migration_checksum(""),
        "e3b0c44298fc1c149afbf4c8996fb92427ae41e4649b934ca495991b7852b855"
    );
    let token = generate_bearer_token();
    assert_eq!(token.len(), 64);
    assert!(token.chars().all(|c| c.is_ascii_digit() || ('a'..='f').contains(&c)));
    assert_ne!(hash_token(&token), token);
}

#[test]
fn migration_checksum_drift_is_detected() {
    assert_eq!(check_migration("0001", "aa", None), Ok(true));
    assert_eq!(check_migration("0001", "aa", Some("aa")), Ok(false));
    assert_eq!(
        check_migration("0001", "aa", Some("tampered")),
        Err(StorageError::MigrationChecksumMismatch {
            version: "0001".to_owned(),
            expected: "aa".to_owned(),
            actual: "tampered".to_owned(),
        })
    );
}

#[test]
fn integration_events_replay_or_conflict() {
    assert_eq!(checked_idempotency_key("  k1 "), Ok("k1"));
    assert_eq!(
        checked_idempotency_key("   "),
        Err(StorageError::InvalidData("idempotency key must not be empty".to_owned()))
    );
    assert_eq!(integration_replay(None, "k", "problems.add", "{}"), Ok(true));
    assert_eq!(
        integration_replay(
            Some(("problems.add".to_owned(), "{}".to_owned())),
            "k",
            "problems.add",
            "{}"
        ),
        Ok(false)
    );
    assert_eq!(
        integration_replay(
            Some(("problems.add".to_owned(), "{}".to_owned())),
            "k",
            "problems.add",
            "{\"slug\":1}"
        ),
        Err(StorageError::IntegrationIdempotencyConflict { key: "k".to_owned() })
    );
}

fn client(revoked_at: Option<i64>) -> IntegrationClient {
    IntegrationClient {
        id: 3,
        allowed_origin: "chrome-extension://part4-test".to_owned(),
        created_at: T0,
        revoked_at,
    }
}

#[test]
fn clients_are_authorized_by_token_revocation_and_origin() {
    assert_eq!(
        authorize_client(None, "chrome-extension://part4-test"),
        Err(StorageError::UnauthorizedClient)
    );
    assert_eq!(
        authorize_client(Some(client(Some(T0))), "chrome-extension://part4-test"),
        Err(StorageError::ClientRevoked)
    );
    assert_eq!(
        authorize_client(Some(client(None)), "chrome-extension://other"),
        Err(StorageError::OriginMismatch)
    );
    assert_eq!(
        authorize_client(Some(client(None)), " chrome-extension://part4-test "),
        Ok(client(None))
    );
}

#[test]
fn pairing_requests_need_an_extension_origin_and_the_current_code() {
    assert_eq!(
        pair_step("ABCD1234", "ABCD1234", "https://evil.example"),
        Err(StorageError::InvalidOrigin)
    );
    assert_eq!(
        pair_step("ABCD1234", "WRONGCODE", "chrome-extension://x"),
        Err(StorageError::InvalidPairingCode)
    );
    let grant = pair_step("ABCD1234", " ABCD1234 ", " chrome-extension://x ").unwrap();
    assert_eq!(grant.origin, "chrome-extension://x");
    assert_eq!(grant.next_code.len(), 8);
    assert_ne!(grant.next_code, "ABCD1234");
    assert!(grant
        .next_code
        .chars()
        .all(|c| c.is_ascii_uppercase() || c.is_ascii_digit()));
}

#[test]
fn a_pairing_code_pairs_only_once() {
    let code = "K7Q2M9XA";
    assert_eq!(
        pair_step(code, "WRONGCODE", "chrome-extension://part4-test"),
        Err(StorageError::InvalidPairingCode)
    );
    let grant = pair_step(code, code, "chrome-extension://part4-test").unwrap();
    assert_eq!(
        pair_step(&grant.next_code, code, "chrome-extension://part4-test"),
        Err(StorageError::InvalidPairingCode)
    );
    let again = pair_step(&grant.next_code, &grant.next_code, "chrome-extension://part4-test").unwrap();
    assert_ne!(again.next_code, grant.next_code);
}

#[test]
fn accepted_submissions_keep_one_pending_per_problem() {
    assert_eq!(
        plan_pending_completion(1, "k", false, None, None),
        Err(StorageError::ProblemNotFound(1))
    );
    assert_eq!(
        plan_pending_completion(1, "k", true, Some(10), Some((11, 2))),
        Ok(PendingPlan::Existing(10))
    );
    assert_eq!(
        plan_pending_completion(1, "k", true, None, Some((11, 2))),
        Err(StorageError::IntegrationIdempotencyConflict { key: "k".to_owned() })
    );
    assert_eq!(
        plan_pending_completion(1, "k", true, None, Some((11, 1))),
        Ok(PendingPlan::Existing(11))
    );
    assert_eq!(plan_pending_completion(1, "k", true, None, None), Ok(PendingPlan::Insert));
}
