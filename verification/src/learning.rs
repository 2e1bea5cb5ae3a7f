//! Review events and the integer side of the FSRS projection.

use vstd::prelude::*;
use crate::text::{decimal, decimal_string, is_blank, same_text, trimmed};

verus! {

/// Seconds in a UTC day.
pub const SECONDS_PER_DAY: i64 = 86_400;

/// How well a review went.
#[derive(Debug, Clone, Copy, PartialEq, Eq, Structural)]
pub enum Rating {
    Again,
    Hard,
    /// FSRS grade 3 (Anki "Good"); labeled Medium in the product UI.
    Medium,
    Easy,
}

/// Why a review, a history or a projection was refused.
#[derive(Debug, Clone, PartialEq, Eq)]
pub enum LearningError {
    InvalidRetention,
    InvalidRating(String),
    InvalidIdempotencyKey,
    OutOfOrder { previous: i64, current: i64 },
    ElapsedDaysOverflow,
    /// The FSRS model refused the history; the text is its message.
    Fsrs(String),
    NonFiniteInterval,
    DueTimestampOverflow,
}

/// The FSRS grade of a rating.
pub open spec fn rating_grade(r: Rating) -> u32 {
    match r {
        Rating::Again => 1,
        Rating::Hard => 2,
        Rating::Medium => 3,
        Rating::Easy => 4,
    }
}

/// The stored spelling of a rating.
pub open spec fn rating_text(r: Rating) -> Seq<char> {
    match r {
        Rating::Again => "again"@,
        Rating::Hard => "hard"@,
        Rating::Medium => "medium"@,
        Rating::Easy => "easy"@,
    }
}

/// The rating with FSRS grade `v`, if any.
pub open spec fn rating_of_grade(v: u32) -> Option<Rating> {
    if v == 1 {
        Some(Rating::Again)
    } else if v == 2 {
        Some(Rating::Hard)
    } else if v == 3 {
        Some(Rating::Medium)
    } else if v == 4 {
        Some(Rating::Easy)
    } else {
        None
    }
}

/// The rating spelled `s`; `good` is the legacy spelling of Medium.
pub open spec fn rating_of_text(s: Seq<char>) -> Option<Rating> {
    if s == "again"@ {
        Some(Rating::Again)
    } else if s == "hard"@ {
        Some(Rating::Hard)
    } else if s == "medium"@ || s == "good"@ {
        Some(Rating::Medium)
    } else if s == "easy"@ {
        Some(Rating::Easy)
    } else {
        None
    }
}

impl Rating {
    pub fn fsrs_value(self) -> (r: u32)
        ensures
            r == rating_grade(self),
    {
        match self {
            Rating::Again => 1,
            Rating::Hard => 2,
            Rating::Medium => 3,
            Rating::Easy => 4,
        }
    }

    pub fn as_db_str(self) -> (r: &'static str)
        ensures
            r@ == rating_text(self),
    {
        match self {
            Rating::Again => "again",
            Rating::Hard => "hard",
            Rating::Medium => "medium",
            Rating::Easy => "easy",
        }
    }

    /// The rating with FSRS grade `value` (1 to 4).
    pub fn from_fsrs_value(value: u32) -> (r: Result<Rating, LearningError>)
        ensures
            match rating_of_grade(value) {
                Some(x) => r == Ok::<Rating, LearningError>(x),
                None => r matches Err(LearningError::InvalidRating(t)) && t@ == decimal(
                    value as nat,
                ),
            },
    {
        match value {
            1 => Ok(Rating::Again),
            2 => Ok(Rating::Hard),
            3 => Ok(Rating::Medium),
            4 => Ok(Rating::Easy),
            _ => Err(LearningError::InvalidRating(decimal_string(value as u64))),
        }
    }

    /// The rating spelled `value`; the legacy spelling `good` reads as Medium.
    pub fn from_db_str(value: &str) -> (r: Result<Rating, LearningError>)
        ensures
            match rating_of_text(value@) {
                Some(x) => r == Ok::<Rating, LearningError>(x),
                None => r matches Err(LearningError::InvalidRating(t)) && t@ == value@,
            },
    {
        if same_text(value, "again") {
            Ok(Rating::Again)
        } else if same_text(value, "hard") {
            Ok(Rating::Hard)
        } else if same_text(value, "medium") || same_text(value, "good") {
            Ok(Rating::Medium)
        } else if same_text(value, "easy") {
            Ok(Rating::Easy)
        } else {
            Err(LearningError::InvalidRating(value.to_owned()))
        }
    }
}

/// Each rating's FSRS grade and stored spelling read back as the same rating.
pub proof fn lemma_rating_encodings_roundtrip(r: Rating)
    ensures
        rating_of_grade(rating_grade(r)) == Some(r),
        rating_of_text(rating_text(r)) == Some(r),
{
    reveal_strlit("again");
    reveal_strlit("hard");
    reveal_strlit("medium");
    reveal_strlit("good");
    reveal_strlit("easy");
    assert("hard"@[0] != "again"@[0]);
    assert("medium"@[0] != "again"@[0] && "medium"@[0] != "hard"@[0]);
    assert("easy"@[0] != "again"@[0] && "easy"@[0] != "hard"@[0] && "easy"@[0] != "medium"@[0]
        && "easy"@[0] != "good"@[0]);
}

impl core::str::FromStr for Rating {
    type Err = LearningError;

    fn from_str(value: &str) -> (r: Result<Rating, LearningError>)
        ensures
            match rating_of_text(value@) {
                Some(x) => r == Ok::<Rating, LearningError>(x),
                None => r matches Err(LearningError::InvalidRating(t)) && t@ == value@,
            },
    {
        Rating::from_db_str(value)
    }
}

/// One review of a problem, identified by a stable retry key.
#[derive(Debug, PartialEq, Eq)]
pub struct ReviewEvent {
    idempotency_key: String,
    rating: Rating,
    reviewed_at: i64,
}

impl Clone for ReviewEvent {
    fn clone(&self) -> (r: ReviewEvent)
        ensures
            r@ == self@,
    {
        self.duplicate()
    }
}

/// The plain content of a review: key, rating and UTC epoch seconds.
pub struct ReviewEventView {
    pub key: Seq<char>,
    pub rating: Rating,
    pub reviewed_at: i64,
}

impl View for ReviewEvent {
    type V = ReviewEventView;

    closed spec fn view(&self) -> ReviewEventView {
        ReviewEventView {
            key: self.idempotency_key@,
            rating: self.rating,
            reviewed_at: self.reviewed_at,
        }
    }
}

impl ReviewEvent {
    /// Every review has a key that is not blank.
    #[verifier::type_invariant]
    spec fn well_formed(self) -> bool {
        trimmed(self.idempotency_key@).len() > 0
    }

    /// Creates a review identified by a stable, non-blank retry key.
    pub fn new(idempotency_key: &str, rating: Rating, reviewed_at: i64) -> (r: Result<
        ReviewEvent,
        LearningError,
    >)
        ensures
            match r {
                Ok(e) => trimmed(idempotency_key@).len() > 0 && e@.key == idempotency_key@
                    && e@.rating == rating && e@.reviewed_at == reviewed_at,
                Err(e) => trimmed(idempotency_key@).len() == 0 && e
                    == LearningError::InvalidIdempotencyKey,
            },
    {
        if is_blank(idempotency_key) {
            return Err(LearningError::InvalidIdempotencyKey);
        }
        Ok(ReviewEvent { idempotency_key: idempotency_key.to_owned(), rating, reviewed_at })
    }

    /// Refuses a review whose key is blank; no review built by this library has one,
    /// so every review passes.
    pub fn validate(&self) -> (r: Result<(), LearningError>)
        ensures
            r == if trimmed(self@.key).len() == 0 {
                Err::<(), LearningError>(LearningError::InvalidIdempotencyKey)
            } else {
                Ok(())
            },
            r == Ok::<(), LearningError>(()),
    {
        proof {
            use_type_invariant(self);
        }
        if is_blank(self.idempotency_key.as_str()) {
            return Err(LearningError::InvalidIdempotencyKey);
        }
        Ok(())
    }

    /// A copy with the same key, rating and instant.
    pub fn duplicate(&self) -> (r: ReviewEvent)
        ensures
            r@ == self@,
    {
        proof {
            use_type_invariant(self);
        }
        ReviewEvent {
            idempotency_key: self.idempotency_key.clone(),
            rating: self.rating,
            reviewed_at: self.reviewed_at,
        }
    }

    /// The retry key; it is never blank.
    pub fn idempotency_key(&self) -> (r: &str)
        ensures
            r@ == self@.key,
            trimmed(r@).len() > 0,
    {
        proof {
            use_type_invariant(self);
        }
        self.idempotency_key.as_str()
    }

    pub fn rating(&self) -> (r: Rating)
        ensures
            r == self@.rating,
    {
        self.rating
    }

    /// UTC epoch seconds at which the review occurred.
    pub fn reviewed_at(&self) -> (r: i64)
        ensures
            r == self@.reviewed_at,
    {
        self.reviewed_at
    }
}

/// One review as the FSRS model reads it: a grade and whole days since the previous review.
#[derive(Debug, Clone, Copy, PartialEq, Eq)]
pub struct FsrsReview {
    pub rating: u32,
    pub delta_t: u32,
}

/// A review history as the FSRS model reads it.
#[derive(Debug, Clone, PartialEq, Eq)]
pub struct FsrsItem {
    pub reviews: Vec<FsrsReview>,
}

/// Whole UTC days from `previous` to `current`, or why they cannot be counted.
pub open spec fn elapsed_days(previous: i64, current: i64) -> Result<u32, LearningError> {
    if current < previous {
        Err(LearningError::OutOfOrder { previous, current })
    } else if current - previous > i64::MAX {
        Err(LearningError::ElapsedDaysOverflow)
    } else if (current - previous) / 86400 > u32::MAX {
        Err(LearningError::ElapsedDaysOverflow)
    } else {
        Ok(((current - previous) / 86400) as u32)
    }
}

/// The FSRS day delta of review `i` in `events`: 0 for the first review.
pub open spec fn delta_at(events: Seq<ReviewEvent>, i: int) -> Result<u32, LearningError> {
    if i == 0 {
        Ok(0u32)
    } else {
        elapsed_days(events[i - 1]@.reviewed_at, events[i]@.reviewed_at)
    }
}

/// Converts append-ordered events to FSRS reviews with whole-UTC-day deltas.
/// The first event whose delta cannot be counted decides the error.
pub fn to_fsrs_item(events: &[ReviewEvent]) -> (r: Result<FsrsItem, LearningError>)
    ensures
        (r is Ok) == (forall|i: int| 0 <= i < events@.len() ==> #[trigger] delta_at(events@, i) is Ok),
        r matches Ok(item) ==> item.reviews@.len() == events@.len() && (forall|i: int|
            0 <= i < events@.len() ==> {
                &&& (#[trigger] item.reviews@[i]).rating == rating_grade(events@[i]@.rating)
                &&& delta_at(events@, i) == Ok::<u32, LearningError>(item.reviews@[i].delta_t)
            }),
        r matches Err(e) ==> exists|k: int|
            0 <= k < events@.len() && (forall|j: int| 0 <= j < k ==> #[trigger] delta_at(events@, j) is Ok)
                && #[trigger] delta_at(events@, k) == Err::<u32, LearningError>(e),
{
    let mut reviews: Vec<FsrsReview> = Vec::new();
    let mut i: usize = 0;
    while i < events.len()
        invariant
            0 <= i <= events@.len(),
            reviews@.len() == i,
            forall|j: int| 0 <= j < i ==> #[trigger] delta_at(events@, j) is Ok,
            forall|j: int|
                0 <= j < i ==> {
                    &&& (#[trigger] reviews@[j]).rating == rating_grade(events@[j]@.rating)
                    &&& delta_at(events@, j) == Ok::<u32, LearningError>(reviews@[j].delta_t)
                },
        decreases events@.len() - i,
    {
        let event = &events[i];
        let delta_t: u32 = if i == 0 {
            0
        } else {
            let previous_at = events[i - 1].reviewed_at();
            let current = event.reviewed_at();
            if current < previous_at {
                assert(delta_at(events@, i as int) is Err);
                return Err(LearningError::OutOfOrder { previous: previous_at, current });
            }
            let elapsed = match current.checked_sub(previous_at) {
                Some(x) => x,
                None => {
                    assert(delta_at(events@, i as int) is Err);
                    return Err(LearningError::ElapsedDaysOverflow);
                },
            };
            let days = elapsed / SECONDS_PER_DAY;
            if days > 4294967295i64 {
                assert(delta_at(events@, i as int) is Err);
                return Err(LearningError::ElapsedDaysOverflow);
            }
            days as u32
        };
        reviews.push(FsrsReview { rating: event.rating().fsrs_value(), delta_t });
        i = i + 1;
    }
    Ok(FsrsItem { reviews })
}

/// The due instant `interval_days` whole days after `reviewed_at`, or why it does not fit.
pub open spec fn due_instant(reviewed_at: i64, interval_days: i64) -> Result<i64, LearningError> {
    let seconds = interval_days * 86400;
    if seconds > i64::MAX {
        Err(LearningError::DueTimestampOverflow)
    } else if reviewed_at + seconds > i64::MAX || reviewed_at + seconds < i64::MIN {
        Err(LearningError::DueTimestampOverflow)
    } else {
        Ok((reviewed_at + seconds) as i64)
    }
}

/// The due timestamp of a projection: the rounded interval (at least one day)
/// added to the last review instant, refusing overflow.
pub fn due_at_after(reviewed_at: i64, interval_days: i64) -> (r: Result<i64, LearningError>)
    requires
        interval_days >= 1,
    ensures
        r == due_instant(reviewed_at, interval_days),
{
    let seconds = match interval_days.checked_mul(SECONDS_PER_DAY) {
        Some(s) => s,
        None => {
            return Err(LearningError::DueTimestampOverflow);
        },
    };
    match reviewed_at.checked_add(seconds) {
        Some(due) => Ok(due),
        None => Err(LearningError::DueTimestampOverflow),
    }
}

} // verus!
