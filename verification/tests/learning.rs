use ankicode::learning::{
    due_at_after, to_fsrs_item, LearningError, Rating, ReviewEvent, SECONDS_PER_DAY,
};

const DAY: i64 = 86_400;
const T0: i64 = 1_700_000_000;

fn review(rating: Rating, reviewed_at: i64) -> ReviewEvent {
    ReviewEvent::new(
        &format!("{}-{reviewed_at}", rating.as_db_str()),
        rating,
        reviewed_at,
    )
    .unwrap()
}

#[test]
fn learning_rating_has_stable_numeric_and_string_encodings() {
    let cases = [
        (Rating::Again, 1, "again"),
        (Rating::Hard, 2, "hard"),
        (Rating::Medium, 3, "medium"),
        (Rating::Easy, 4, "easy"),
    ];
    for (rating, number, text) in cases {
        assert_eq!(rating.fsrs_value(), number);
        assert_eq!(rating.as_db_str(), text);
        assert_eq!(Rating::from_fsrs_value(number).unwrap(), rating);
        assert_eq!(text.parse::<Rating>().unwrap(), rating);
    }
    assert!(Rating::from_fsrs_value(0).is_err());
    assert!("great".parse::<Rating>().is_err());
    assert_eq!("good".parse::<Rating>().unwrap(), Rating::Medium);
}

#[test]
fn part2_rating_has_stable_numeric_and_string_encodings() {
    let cases = [
        (Rating::Again, 1, "again"),
        (Rating::Hard, 2, "hard"),
        (Rating::Medium, 3, "medium"),
        (Rating::Easy, 4, "easy"),
    ];
    for (rating, number, text) in cases {
        assert_eq!(rating.fsrs_value(), number);
        assert_eq!(rating.as_db_str(), text);
        assert_eq!(Rating::from_fsrs_value(number).unwrap(), rating);
        assert_eq!(text.parse::<Rating>().unwrap(), rating);
    }
    assert!(Rating::from_fsrs_value(0).is_err());
    assert!("great".parse::<Rating>().is_err());
}

#[test]
fn invalid_rating_errors_carry_the_value() {
    assert_eq!(
        Rating::from_fsrs_value(0),
        Err(LearningError::InvalidRating("0".to_owned()))
    );
    assert_eq!(
        Rating::from_fsrs_value(4_294_967_295),
        Err(LearningError::InvalidRating("4294967295".to_owned()))
    );
    assert_eq!(
        "Medium".parse::<Rating>(),
        Err(LearningError::InvalidRating("Medium".to_owned()))
    );
}

#[test]
fn learning_event_conversion_rejects_reverse_time_and_uses_whole_utc_days() {
    let item = to_fsrs_item(&[
        review(Rating::Medium, T0),
        review(Rating::Easy, T0 + DAY + DAY / 2),
    ])
    .unwrap();
    assert_eq!(item.reviews[0].delta_t, 0);
    assert_eq!(item.reviews[1].delta_t, 1);

    let error = to_fsrs_item(&[review(Rating::Medium, T0), review(Rating::Medium, T0 - 1)])
        .unwrap_err();
    assert!(matches!(error, LearningError::OutOfOrder { .. }));
}

#[test]
fn part2_event_conversion_rejects_reverse_time_and_uses_whole_utc_days() {
    let item = to_fsrs_item(&[
        review(Rating::Medium, T0),
        review(Rating::Easy, T0 + DAY + DAY / 2),
    ])
    .unwrap();
    assert_eq!(item.reviews[0].delta_t, 0);
    assert_eq!(item.reviews[1].delta_t, 1);

    let error = to_fsrs_item(&[review(Rating::Medium, T0), review(Rating::Medium, T0 - 1)])
        .unwrap_err();
    assert!(matches!(error, LearningError::OutOfOrder { .. }));
}

#[test]
fn elapsed_timestamp_overflow_is_typed() {
    let error = to_fsrs_item(&[
        review(Rating::Medium, i64::MIN),
        review(Rating::Easy, i64::MAX),
    ])
    .unwrap_err();
    assert!(matches!(error, LearningError::ElapsedDaysOverflow));
}

#[test]
fn conversion_keeps_grades_and_reports_the_first_bad_delta() {
    let item = to_fsrs_item(&[
        review(Rating::Again, T0),
        review(Rating::Hard, T0 + 3 * DAY),
        review(Rating::Easy, T0 + 8 * DAY - 1),
    ])
    .unwrap();
    let pairs: Vec<(u32, u32)> = item.reviews.iter().map(|r| (r.rating, r.delta_t)).collect();
    assert_eq!(pairs, vec![(1, 0), (2, 3), (4, 4)]);
    assert_eq!(to_fsrs_item(&[]).unwrap().reviews.len(), 0);
    let error = to_fsrs_item(&[
        review(Rating::Again, T0),
        review(Rating::Hard, T0 - 5),
        review(Rating::Easy, T0 - 10),
    ])
    .unwrap_err();
    assert_eq!(
        error,
        LearningError::OutOfOrder {
            previous: T0,
            current: T0 - 5
        }
    );
    let error = to_fsrs_item(&[
        review(Rating::Again, 0),
        review(Rating::Hard, (u32::MAX as i64 + 1) * DAY),
    ])
    .unwrap_err();
    assert_eq!(error, LearningError::ElapsedDaysOverflow);
}

#[test]
fn review_event_requires_nonempty_idempotency_key() {
    assert!(ReviewEvent::new("", Rating::Medium, T0).is_err());
    assert!(ReviewEvent::new("   ", Rating::Medium, T0).is_err());
    let event = ReviewEvent::new("review-1", Rating::Medium, T0).unwrap();
    assert_eq!(event.idempotency_key(), "review-1");
}

#[test]
fn review_event_keeps_its_fields() {
    let event = ReviewEvent::new(" key ", Rating::Hard, T0).unwrap();
    assert_eq!(event.idempotency_key(), " key ");
    assert_eq!(event.rating(), Rating::Hard);
    assert_eq!(event.reviewed_at(), T0);
    assert_eq!(event.validate(), Ok(()));
    assert_eq!(event.duplicate(), event);
    assert_eq!(
        ReviewEvent::new("\u{3000}\n", Rating::Hard, T0),
        Err(LearningError::InvalidIdempotencyKey)
    );
}

#[test]
fn due_instant_adds_whole_days_and_refuses_overflow() {
    assert_eq!(due_at_after(T0, 34), Ok(T0 + 34 * SECONDS_PER_DAY));
    assert_eq!(due_at_after(T0, 1), Ok(T0 + DAY));
    assert_eq!(
        due_at_after(T0, i64::MAX),
        Err(LearningError::DueTimestampOverflow)
    );
    assert_eq!(
        due_at_after(i64::MAX - DAY + 1, 1),
        Err(LearningError::DueTimestampOverflow)
    );
}
