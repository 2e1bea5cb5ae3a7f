use ankicode::backup::{
    order_reviews_for_slug, validate_backup, BackupProblem, BackupReviewEvent, BACKUP_VERSION,
};
use ankicode::learning::{LearningError, Rating};
use ankicode::problems::{Difficulty, ProblemError, ProblemStatus};
use ankicode::settings::SettingsError;
use ankicode::storage::StorageError;

const T0: i64 = 1_700_000_000;

fn problem(slug: &str) -> BackupProblem {
    BackupProblem {
        slug: slug.to_owned(),
        title: slug.replace('-', " "),
        url: format!("https://leetcode.com/problems/{slug}/"),
        difficulty: Difficulty::Easy,
        status: ProblemStatus::Active,
        added_at: T0,
        updated_at: T0,
    }
}

fn review(slug: &str, key: &str, at: i64) -> BackupReviewEvent {
    BackupReviewEvent {
        problem_slug: slug.to_owned(),
        idempotency_key: key.to_owned(),
        rating: Rating::Medium,
        reviewed_at: at,
    }
}

fn check(
    version: u32,
    problems: &[BackupProblem],
    reviews: &[BackupReviewEvent],
    schedules: Option<&[String]>,
) -> Result<(), StorageError> {
    validate_backup(version, "America/New_York", true, "ABCD1234", problems, reviews, schedules)
}

#[test]
fn backup_validation_rejects_invalid_backup() {
    assert_eq!(
        check(99, &[], &[], None),
        Err(StorageError::InvalidBackup("unsupported version 99".to_owned()))
    );
    assert_eq!(
        check(
            BACKUP_VERSION,
            &[problem("two-sum")],
            &[review("missing", "r1", T0)],
            None
        ),
        Err(StorageError::InvalidBackup(
            "review references missing slug missing".to_owned()
        ))
    );
}

#[test]
fn backup_checks_each_part_in_order() {
    assert_eq!(check(BACKUP_VERSION, &[problem("two-sum")], &[review("two-sum", "r1", T0)], None), Ok(()));
    assert_eq!(
        validate_backup(BACKUP_VERSION, "Nowhere", true, "ABCD1234", &[], &[], None),
        Err(StorageError::Settings(SettingsError::InvalidTimeZone("Nowhere".to_owned())))
    );
    assert_eq!(
        validate_backup(BACKUP_VERSION, "UTC", false, "ABCD1234", &[], &[], None),
        Err(StorageError::Settings(SettingsError::InvalidRetention))
    );
    let mut bad = problem("two-sum");
    bad.url = "https://leetcode.com/problems/three-sum/".to_owned();
    assert_eq!(
        check(BACKUP_VERSION, &[bad], &[], None),
        Err(StorageError::Problem(ProblemError::InvalidUrl))
    );
    assert_eq!(
        check(BACKUP_VERSION, &[problem("a"), problem("b"), problem("a")], &[], None),
        Err(StorageError::InvalidBackup("duplicate problem slug a".to_owned()))
    );
    assert_eq!(
        check(BACKUP_VERSION, &[problem("a")], &[review("a", " ", T0)], None),
        Err(StorageError::Learning(LearningError::InvalidIdempotencyKey))
    );
    let schedules = vec!["a".to_owned(), "gone".to_owned()];
    assert_eq!(
        check(BACKUP_VERSION, &[problem("a")], &[], Some(&schedules)),
        Err(StorageError::InvalidBackup(
            "schedule references missing slug gone".to_owned()
        ))
    );
    let schedules = vec!["a".to_owned()];
    assert_eq!(check(BACKUP_VERSION, &[problem("a")], &[], Some(&schedules)), Ok(()));
}

#[test]
fn reviews_are_replayed_by_instant_then_key_stably() {
    let reviews = vec![
        review("a", "k2", T0 + 10),
        review("b", "k0", T0),
        review("a", "k1", T0 + 10),
        review("a", "k9", T0),
        review("a", "k1", T0 + 10),
        review("a", "K1", T0 + 10),
    ];
    assert_eq!(order_reviews_for_slug(&reviews, "a"), vec![3, 5, 2, 4, 0]);
    assert_eq!(order_reviews_for_slug(&reviews, "b"), vec![1]);
    assert!(order_reviews_for_slug(&reviews, "c").is_empty());
}
