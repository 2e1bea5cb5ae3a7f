//! The decisions of the SQLite repository: what each stored row means, what a
//! retry or a conflict is answered, which problems a day is assigned, and how
//! clients, tokens and migrations are checked. The SQL itself runs outside.

use vstd::prelude::*;
use crate::daily_queue::{
    assignment_check, cost_sum, AssignmentError, DailyAssignmentItem, DayWindow, DAILY_BUDGET,
};
use crate::digest::{hex_encode, is_lower_hex_char, lemma_lower_hex_len, lower_hex, sha256, sha256_digest, to_lower_hex};
use crate::entropy::random_bytes_32;
use crate::learning::{LearningError, Rating, ReviewEvent};
use crate::problems::{
    difficulty_cost, difficulty_of_text, problem_error_text, status_of_text, Difficulty, Problem,
    ProblemError, ProblemStatus,
};
use crate::settings::{fresh_pairing_code, is_pairing_code, SettingsError};
use crate::text::{lemma_strip_kept, same_text, strip_prefix_text, trim, trimmed, CharClass};

verus! {

/// Why a repository operation failed.
#[derive(Debug, Clone, PartialEq, Eq)]
pub enum StorageError {
    /// SQLite refused a statement; the text is its message.
    Sql(String),
    Learning(LearningError),
    Problem(ProblemError),
    Settings(SettingsError),
    InvalidData(String),
    ProblemNotFound(i64),
    ProblemSlugNotFound(String),
    MissingProjection,
    ReviewIdempotencyConflict { key: String },
    DayWindowMismatch {
        local_date: String,
        stored_start: i64,
        stored_end: i64,
        requested_start: i64,
        requested_end: i64,
    },
    MigrationChecksumMismatch { version: String, expected: String, actual: String },
    InvalidAssignment(AssignmentError),
    InvalidBackup(String),
    InvalidPairingCode,
    InvalidOrigin,
    UnauthorizedClient,
    ClientRevoked,
    OriginMismatch,
    IntegrationIdempotencyConflict { key: String },
}

/// A paired browser extension.
#[derive(Debug, Clone, PartialEq, Eq)]
pub struct IntegrationClient {
    pub id: i64,
    pub allowed_origin: String,
    pub created_at: i64,
    pub revoked_at: Option<i64>,
}

/// An accepted LeetCode submission waiting for the user's rating.
#[derive(Debug, Clone, PartialEq, Eq)]
pub struct PendingCompletion {
    pub id: i64,
    pub problem_id: i64,
    pub slug: String,
    pub title: String,
    pub difficulty: Difficulty,
    pub url: String,
    pub idempotency_key: String,
    pub accepted_at: i64,
    pub created_at: i64,
}

/// A problem row as read: id, slug, title, url, difficulty text, status text,
/// added and updated instants.
pub type RawProblem = (i64, String, String, String, String, String, i64, i64);

/// `e` is `InvalidData` carrying the text of problem error `p`.
pub open spec fn invalid_data_from(e: StorageError, p: ProblemError) -> bool {
    e matches StorageError::InvalidData(m) && m@ == problem_error_text(p)
}

/// Reads a problem row; an unknown difficulty or status spelling is invalid data.
pub fn parse_problem(raw: RawProblem) -> (r: Result<Problem, StorageError>)
    ensures
        match (difficulty_of_text(raw.4@), status_of_text(raw.5@)) {
            (Some(d), Some(s)) => r matches Ok(p) && p.id == raw.0 && p.slug@ == raw.1@ && p.title@
                == raw.2@ && p.url@ == raw.3@ && p.difficulty == d && p.status == s && p.added_at
                == raw.6 && p.updated_at == raw.7,
            (None, _) => r is Err && invalid_data_from(
                r->Err_0,
                ProblemError::InvalidDatabaseValue { kind: "difficulty", value: raw.4 },
            ),
            (Some(_), None) => r is Err && invalid_data_from(
                r->Err_0,
                ProblemError::InvalidDatabaseValue { kind: "problem status", value: raw.5 },
            ),
        },
{
    let (id, slug, title, url, difficulty_text, status_text, added_at, updated_at) = raw;
    let difficulty = match Difficulty::from_db_str(difficulty_text.as_str()) {
        Ok(d) => d,
        Err(e) => {
            return Err(StorageError::InvalidData(e.message()));
        },
    };
    let status = match ProblemStatus::from_db_str(status_text.as_str()) {
        Ok(s) => s,
        Err(e) => {
            return Err(StorageError::InvalidData(e.message()));
        },
    };
    Ok(Problem { id, slug, title, url, difficulty, status, added_at, updated_at })
}

/// The origin prefix of a Chromium extension.
pub open spec fn extension_scheme() -> Seq<char> {
    "chrome-extension://"@
}

/// A Chromium extension origin: the scheme, something after it, and no space,
/// newline, carriage return or tab anywhere.
pub open spec fn is_extension_origin(origin: Seq<char>) -> bool {
    &&& extension_scheme().is_prefix_of(origin)
    &&& origin.len() > extension_scheme().len()
    &&& forall|i: int| 0 <= i < origin.len() ==> !(#[trigger] origin[i] == ' ' || origin[i] == '\n'
        || origin[i] == '\r' || origin[i] == '\t')
}

/// Whether `origin` is a Chromium extension origin.
pub fn is_chrome_extension_origin(origin: &str) -> (b: bool)
    ensures
        b == is_extension_origin(origin@),
{
    proof {
        reveal_strlit("chrome-extension://");
    }
    match strip_prefix_text(origin, "chrome-extension://") {
        None => false,
        Some(rest) => {
            if rest.unicode_len() == 0 {
                return false;
            }
            let n = origin.unicode_len();
            let mut i: usize = 0;
            while i < n
                invariant
                    n == origin@.len(),
                    0 <= i <= n,
                    forall|k: int| 0 <= k < i ==> !(#[trigger] origin@[k] == ' ' || origin@[k] == '\n'
                        || origin@[k] == '\r' || origin@[k] == '\t'),
                decreases n - i,
            {
                let c = origin.get_char(i);
                if c == ' ' || c == '\n' || c == '\r' || c == '\t' {
                    return false;
                }
                i = i + 1;
            }
            true
        },
    }
}

/// The stored form of a bearer token: lowercase hex of its SHA-256 digest.
pub open spec fn token_hash(token: Seq<char>) -> Seq<char> {
    lower_hex(sha256(vstd::utf8::encode_utf8(token)))
}

/// The stored hash of a bearer token.
pub fn hash_token(token: &str) -> (r: String)
    ensures
        r@ == token_hash(token@),
        r@.len() == 64,
{
    let digest = sha256_digest(token.as_bytes());
    let r = hex_encode(digest.as_slice());
    proof {
        lemma_lower_hex_len(digest@);
    }
    r
}

/// A fresh bearer token: 32 bytes of OS entropy as 64 lowercase hex digits.
pub fn generate_bearer_token() -> (r: String)
    ensures
        r@.len() == 64,
        forall|i: int| 0 <= i < r@.len() ==> is_lower_hex_char(#[trigger] r@[i]),
{
    let bytes = random_bytes_32();
    let r = hex_encode(&bytes);
    proof {
        lemma_lower_hex_len(bytes@);
    }
    r
}

/// The checksum recorded for a migration: lowercase hex of the SHA-256 digest of its SQL.
pub fn migration_checksum(sql: &str) -> (r: String)
    ensures
        r@ == lower_hex(sha256(vstd::utf8::encode_utf8(sql@))),
{
    let digest = sha256_digest(sql.as_bytes());
    to_lower_hex(digest.as_slice())
}

/// Whether a migration must be applied (`Ok(true)`), was applied unchanged
/// (`Ok(false)`), or was applied with other SQL than it now has.
pub fn check_migration(version: &str, expected: &str, recorded: Option<&str>) -> (r: Result<
    bool,
    StorageError,
>)
    ensures
        match recorded {
            None => r == Ok::<bool, StorageError>(true),
            Some(actual) => if actual@ == expected@ {
                r == Ok::<bool, StorageError>(false)
            } else {
                r matches Err(StorageError::MigrationChecksumMismatch { version: v, expected: x, actual: a })
                    && v@ == version@ && x@ == expected@ && a@ == actual@
            },
        },
{
    match recorded {
        None => Ok(true),
        Some(actual) => {
            if same_text(actual, expected) {
                Ok(false)
            } else {
                Err(
                    StorageError::MigrationChecksumMismatch {
                        version: version.to_owned(),
                        expected: expected.to_owned(),
                        actual: actual.to_owned(),
                    },
                )
            }
        },
    }
}


/// The greedy pick of a day's items from ordered candidates `(problem_id, difficulty text)`:
/// each queueable candidate whose cost fits the remaining budget is taken, in order,
/// until the budget is spent. An unknown difficulty spelling met on the way is an error.
pub open spec fn pick_items(cands: Seq<(i64, String)>, remaining: int, position: int) -> Result<
    Seq<DailyAssignmentItem>,
    ProblemError,
>
    decreases cands.len(),
{
    if cands.len() == 0 || remaining <= 0 {
        Ok(Seq::empty())
    } else {
        let rest = cands.drop_first();
        match difficulty_of_text(cands[0].1@) {
            None => Err(ProblemError::InvalidDatabaseValue { kind: "difficulty", value: cands[0].1 }),
            Some(d) => match difficulty_cost(d) {
                None => pick_items(rest, remaining, position),
                Some(c) => if c > remaining {
                    pick_items(rest, remaining, position)
                } else {
                    match pick_items(rest, remaining - c, position + 1) {
                        Ok(tail) => Ok(
                            seq![DailyAssignmentItem { problem_id: cands[0].0, position: position as u8, cost: c }]
                                + tail,
                        ),
                        Err(e) => Err(e),
                    }
                },
            },
        }
    }
}

/// Picks the day's items from candidates ordered due-first, then new; Hard problems
/// and items that do not fit the budget are passed over.
pub fn select_daily_items(candidates: &[(i64, String)]) -> (r: Result<
    Vec<DailyAssignmentItem>,
    StorageError,
>)
    ensures
        match pick_items(candidates@, DAILY_BUDGET as int, 0) {
            Ok(items) => r matches Ok(v) && v@ == items,
            Err(e) => r is Err && invalid_data_from(r->Err_0, e),
        },
        r matches Ok(v) ==> assignment_check(v@) == Ok::<(), AssignmentError>(()),
{
    let mut items: Vec<DailyAssignmentItem> = Vec::new();
    let mut remaining: u8 = DAILY_BUDGET;
    let mut i: usize = 0;
    proof {
        assert(candidates@.skip(0) =~= candidates@);
        assert(items@ + Seq::<DailyAssignmentItem>::empty() =~= items@);
    }
    while i < candidates.len() && remaining > 0
        invariant
            0 <= i <= candidates@.len(),
            remaining <= DAILY_BUDGET,
            items@.len() <= 2,
            cost_sum(items@) + remaining == DAILY_BUDGET,
            forall|k: int| 0 <= k < items@.len() ==> (#[trigger] items@[k]).position == k && (
            items@[k].cost == 1 || items@[k].cost == 2),
            pick_items(candidates@, DAILY_BUDGET as int, 0) == match pick_items(
                candidates@.skip(i as int),
                remaining as int,
                items@.len() as int,
            ) {
                Ok(tail) => Ok::<Seq<DailyAssignmentItem>, ProblemError>(items@ + tail),
                Err(e) => Err(e),
            },
        decreases candidates@.len() - i,
    {
        let ghost before = candidates@.skip(i as int);
        proof {
            assert(before.drop_first() =~= candidates@.skip(i + 1));
            assert(before[0] == candidates@[i as int]);
        }
        let (problem_id, difficulty_text) = &candidates[i];
        let difficulty = match Difficulty::from_db_str(difficulty_text.as_str()) {
            Ok(d) => d,
            Err(e) => {
                return Err(StorageError::InvalidData(e.message()));
            },
        };
        match difficulty.queue_cost() {
            None => {},
            Some(cost) => {
                if cost <= remaining {
                    let position = items.len() as u8;
                    let item = DailyAssignmentItem { problem_id: *problem_id, position, cost };
                    let ghost old_items = items@;
                    items.push(item);
                    proof {
                        assert(items@.drop_last() =~= old_items);
                        assert forall|tail: Seq<DailyAssignmentItem>|
                            old_items + (seq![item] + tail) == #[trigger] (items@ + tail) by {
                            assert(old_items + (seq![item] + tail) =~= items@ + tail);
                        }
                    }
                    remaining = remaining - cost;
                    proof {
                        assert(cost_sum(items@) == cost_sum(old_items) + cost);
                        lemma_cost_sum_counts(items@);
                    }
                }
            },
        }
        i = i + 1;
    }
    proof {
        let rest = candidates@.skip(i as int);
        assert(pick_items(rest, remaining as int, items@.len() as int) == Ok::<
            Seq<DailyAssignmentItem>,
            ProblemError,
        >(Seq::empty()));
        assert(items@ + Seq::<DailyAssignmentItem>::empty() =~= items@);
        assert(assignment_check(items@) == Ok::<(), AssignmentError>(())) by {
            lemma_valid_items_check(items@, 0);
        }
    }
    Ok(items)
}

/// Every picked item comes from a candidate whose stored difficulty is queueable
/// (so never Hard) and costs what that difficulty costs.
pub proof fn lemma_picked_items_are_queueable(cands: Seq<(i64, String)>, remaining: int, position: int)
    requires
        pick_items(cands, remaining, position) is Ok,
    ensures
        ({
            let items = pick_items(cands, remaining, position)->Ok_0;
            forall|k: int|
                0 <= k < items.len() ==> exists|j: int|
                    0 <= j < cands.len() && (#[trigger] cands[j]).0 == (#[trigger] items[k]).problem_id
                        && difficulty_of_text(cands[j].1@) is Some && difficulty_of_text(
                        cands[j].1@,
                    )->0 != Difficulty::Hard && difficulty_cost(difficulty_of_text(cands[j].1@)->0)
                        == Some(items[k].cost)
        }),
    decreases cands.len(),
{
    if cands.len() > 0 && remaining > 0 {
        let rest = cands.drop_first();
        let d = difficulty_of_text(cands[0].1@)->0;
        match difficulty_cost(d) {
            None => {
                lemma_picked_items_are_queueable(rest, remaining, position);
                let items = pick_items(cands, remaining, position)->Ok_0;
                assert forall|k: int| 0 <= k < items.len() implies exists|j: int|
                    0 <= j < cands.len() && (#[trigger] cands[j]).0 == (#[trigger] items[k]).problem_id
                        && difficulty_of_text(cands[j].1@) is Some && difficulty_of_text(
                        cands[j].1@,
                    )->0 != Difficulty::Hard && difficulty_cost(difficulty_of_text(cands[j].1@)->0)
                        == Some(items[k].cost) by {
                    let j = choose|j: int|
                        0 <= j < rest.len() && (#[trigger] rest[j]).0 == items[k].problem_id
                            && difficulty_of_text(rest[j].1@) is Some && difficulty_of_text(
                            rest[j].1@,
                        )->0 != Difficulty::Hard && difficulty_cost(difficulty_of_text(rest[j].1@)->0)
                            == Some(items[k].cost);
                    assert(cands[j + 1] == rest[j]);
                }
            },
            Some(c) => {
                if c > remaining {
                    lemma_picked_items_are_queueable(rest, remaining, position);
                    let items = pick_items(cands, remaining, position)->Ok_0;
                    assert forall|k: int| 0 <= k < items.len() implies exists|j: int|
                        0 <= j < cands.len() && (#[trigger] cands[j]).0 == (#[trigger] items[k]).problem_id
                            && difficulty_of_text(cands[j].1@) is Some && difficulty_of_text(
                            cands[j].1@,
                        )->0 != Difficulty::Hard && difficulty_cost(
                            difficulty_of_text(cands[j].1@)->0,
                        ) == Some(items[k].cost) by {
                        let j = choose|j: int|
                            0 <= j < rest.len() && (#[trigger] rest[j]).0 == items[k].problem_id
                                && difficulty_of_text(rest[j].1@) is Some && difficulty_of_text(
                                rest[j].1@,
                            )->0 != Difficulty::Hard && difficulty_cost(
                                difficulty_of_text(rest[j].1@)->0,
                            ) == Some(items[k].cost);
                        assert(cands[j + 1] == rest[j]);
                    }
                } else {
                    lemma_picked_items_are_queueable(rest, remaining - c, position + 1);
                    let tail = pick_items(rest, remaining - c, position + 1)->Ok_0;
                    let items = pick_items(cands, remaining, position)->Ok_0;
                    assert forall|k: int| 0 <= k < items.len() implies exists|j: int|
                        0 <= j < cands.len() && (#[trigger] cands[j]).0 == (#[trigger] items[k]).problem_id
                            && difficulty_of_text(cands[j].1@) is Some && difficulty_of_text(
                            cands[j].1@,
                        )->0 != Difficulty::Hard && difficulty_cost(
                            difficulty_of_text(cands[j].1@)->0,
                        ) == Some(items[k].cost) by {
                        if k == 0 {
                            assert(items[0].problem_id == cands[0].0);
                        } else {
                            assert(items[k] == tail[k - 1]);
                            let j = choose|j: int|
                                0 <= j < rest.len() && (#[trigger] rest[j]).0 == tail[k - 1].problem_id
                                    && difficulty_of_text(rest[j].1@) is Some && difficulty_of_text(
                                    rest[j].1@,
                                )->0 != Difficulty::Hard && difficulty_cost(
                                    difficulty_of_text(rest[j].1@)->0,
                                ) == Some(tail[k - 1].cost);
                            assert(cands[j + 1] == rest[j]);
                        }
                    }
                }
            },
        }
    }
}

proof fn lemma_cost_sum_counts(items: Seq<DailyAssignmentItem>)
    requires
        forall|k: int| 0 <= k < items.len() ==> (#[trigger] items[k]).cost >= 1,
    ensures
        cost_sum(items) >= items.len(),
    decreases items.len(),
{
    if items.len() > 0 {
        lemma_cost_sum_counts(items.drop_last());
    }
}

proof fn lemma_valid_items_check(items: Seq<DailyAssignmentItem>, from: int)
    requires
        0 <= from <= items.len(),
        items.len() <= 2,
        forall|k: int| 0 <= k < items.len() ==> (#[trigger] items[k]).position == k && (items[k].cost
            == 1 || items[k].cost == 2),
    ensures
        crate::daily_queue::first_item_error(items, from) is None,
    decreases items.len() - from,
{
    if from < items.len() {
        lemma_valid_items_check(items, from + 1);
    }
}

/// Whether a day was already generated with these bounds (`Ok(true)`), is new
/// (`Ok(false)`), or was generated with other bounds.
pub fn check_persisted_window(window: &DayWindow, stored: Option<(i64, i64)>) -> (r: Result<
    bool,
    StorageError,
>)
    ensures
        match stored {
            None => r == Ok::<bool, StorageError>(false),
            Some((s, e)) => if s == window@.start_utc && e == window@.end_utc {
                r == Ok::<bool, StorageError>(true)
            } else {
                r matches Err(
                    StorageError::DayWindowMismatch {
                        local_date,
                        stored_start,
                        stored_end,
                        requested_start,
                        requested_end,
                    },
                ) && local_date@ == window@.local_date && stored_start == s && stored_end == e
                    && requested_start == window@.start_utc && requested_end == window@.end_utc
            },
        },
{
    match stored {
        None => Ok(false),
        Some((stored_start, stored_end)) => {
            if stored_start != window.start_utc() || stored_end != window.end_utc() {
                Err(
                    StorageError::DayWindowMismatch {
                        local_date: window.local_date().to_owned(),
                        stored_start,
                        stored_end,
                        requested_start: window.start_utc(),
                        requested_end: window.end_utc(),
                    },
                )
            } else {
                Ok(true)
            }
        },
    }
}


/// Whether a keyed review is a retry of a stored one (`Ok(true)`), new (`Ok(false)`),
/// or reuses the key with another rating or instant.
pub fn review_retry_check(stored: Option<(u32, i64)>, event: &ReviewEvent) -> (r: Result<
    bool,
    StorageError,
>)
    ensures
        match stored {
            None => r == Ok::<bool, StorageError>(false),
            Some((rating, reviewed_at)) => if rating == crate::learning::rating_grade(event@.rating)
                && reviewed_at == event@.reviewed_at {
                r == Ok::<bool, StorageError>(true)
            } else {
                r matches Err(StorageError::ReviewIdempotencyConflict { key }) && key@ == event@.key
            },
        },
{
    match stored {
        None => Ok(false),
        Some((rating, reviewed_at)) => {
            if rating != event.rating().fsrs_value() || reviewed_at != event.reviewed_at() {
                Err(StorageError::ReviewIdempotencyConflict { key: event.idempotency_key().to_owned() })
            } else {
                Ok(true)
            }
        },
    }
}

/// Refuses a review that precedes the latest stored review of its problem.
pub fn check_chronological(latest: Option<i64>, event: &ReviewEvent) -> (r: Result<(), StorageError>)
    ensures
        match latest {
            Some(previous) => if event@.reviewed_at < previous {
                r == Err::<(), StorageError>(
                    StorageError::Learning(
                        LearningError::OutOfOrder { previous, current: event@.reviewed_at },
                    ),
                )
            } else {
                r == Ok::<(), StorageError>(())
            },
            None => r == Ok::<(), StorageError>(()),
        },
{
    match latest {
        Some(previous) => {
            if event.reviewed_at() < previous {
                return Err(
                    StorageError::Learning(
                        LearningError::OutOfOrder { previous, current: event.reviewed_at() },
                    ),
                );
            }
            Ok(())
        },
        None => Ok(()),
    }
}

/// The history that a retried review is projected from: the stored events up to
/// and including the first one with its key (all of them when none has it).
pub fn replay_prefix(events: &[ReviewEvent], key: &str) -> (r: Vec<ReviewEvent>)
    ensures
        r@.len() <= events@.len(),
        forall|i: int| 0 <= i < r@.len() ==> (#[trigger] r@[i])@ == events@[i]@,
        (exists|k: int| 0 <= k < events@.len() && (#[trigger] events@[k])@.key == key@) ==> {
            &&& r@.len() > 0
            &&& r@.last()@.key == key@
            &&& forall|j: int| 0 <= j < r@.len() - 1 ==> (#[trigger] events@[j])@.key != key@
        },
        (forall|k: int| 0 <= k < events@.len() ==> (#[trigger] events@[k])@.key != key@) ==> r@.len()
            == events@.len(),
{
    let mut prefix: Vec<ReviewEvent> = Vec::new();
    let mut i: usize = 0;
    while i < events.len()
        invariant
            0 <= i <= events@.len(),
            prefix@.len() == i,
            forall|j: int| 0 <= j < i ==> (#[trigger] prefix@[j])@ == events@[j]@,
            forall|j: int| 0 <= j < i ==> (#[trigger] events@[j])@.key != key@,
        decreases events@.len() - i,
    {
        let event = events[i].duplicate();
        let matched = same_text(event.idempotency_key(), key);
        prefix.push(event);
        if matched {
            return prefix;
        }
        i = i + 1;
    }
    prefix
}

/// The message of an empty idempotency key.
pub open spec fn empty_key_message() -> Seq<char> {
    "idempotency key must not be empty"@
}

/// The trimmed idempotency key of an integration request; a blank key is invalid data.
pub fn checked_idempotency_key(key: &str) -> (r: Result<&str, StorageError>)
    ensures
        match r {
            Ok(k) => k@ == trimmed(key@) && k@.len() > 0,
            Err(e) => trimmed(key@).len() == 0 && (e matches StorageError::InvalidData(m) && m@
                == empty_key_message()),
        },
{
    let k = trim(key);
    if k.unicode_len() == 0 {
        return Err(StorageError::InvalidData(String::from_str("idempotency key must not be empty")));
    }
    Ok(k)
}

/// Whether an integration event must be inserted (`Ok(true)`), repeats a stored one
/// (`Ok(false)`), or reuses its key with another kind or payload.
pub fn integration_replay(stored: Option<(String, String)>, key: &str, kind: &str, payload_json: &str) -> (r:
    Result<bool, StorageError>)
    ensures
        match stored {
            None => r == Ok::<bool, StorageError>(true),
            Some((k, p)) => if k@ == kind@ && p@ == payload_json@ {
                r == Ok::<bool, StorageError>(false)
            } else {
                r matches Err(StorageError::IntegrationIdempotencyConflict { key: c }) && c@ == key@
            },
        },
{
    match stored {
        None => Ok(true),
        Some((stored_kind, stored_payload)) => {
            if !same_text(stored_kind.as_str(), kind) || !same_text(
                stored_payload.as_str(),
                payload_json,
            ) {
                Err(StorageError::IntegrationIdempotencyConflict { key: key.to_owned() })
            } else {
                Ok(false)
            }
        },
    }
}

/// Admits the client a token belongs to when it is not revoked and the request
/// comes from its paired origin.
pub fn authorize_client(client: Option<IntegrationClient>, origin: &str) -> (r: Result<
    IntegrationClient,
    StorageError,
>)
    ensures
        match client {
            None => r == Err::<IntegrationClient, StorageError>(StorageError::UnauthorizedClient),
            Some(c) => if c.revoked_at is Some {
                r == Err::<IntegrationClient, StorageError>(StorageError::ClientRevoked)
            } else if c.allowed_origin@ != trimmed(origin@) {
                r == Err::<IntegrationClient, StorageError>(StorageError::OriginMismatch)
            } else {
                r == Ok::<IntegrationClient, StorageError>(c)
            },
        },
{
    match client {
        None => Err(StorageError::UnauthorizedClient),
        Some(c) => {
            if c.revoked_at.is_some() {
                return Err(StorageError::ClientRevoked);
            }
            if !same_text(c.allowed_origin.as_str(), trim(origin)) {
                return Err(StorageError::OriginMismatch);
            }
            Ok(c)
        },
    }
}

/// Why a pairing request is refused, if it is: the trimmed origin must be an
/// extension origin, and the trimmed code must equal the trimmed current pairing code.
pub open spec fn pairing_refusal(pairing_code: Seq<char>, code: Seq<char>, origin: Seq<char>) -> Option<
    StorageError,
> {
    if !is_extension_origin(trimmed(origin)) {
        Some(StorageError::InvalidOrigin)
    } else if trimmed(pairing_code) != trimmed(code) {
        Some(StorageError::InvalidPairingCode)
    } else {
        None
    }
}

/// A pairing that went through: the origin to pair, and the pairing code that
/// replaces the one just spent.
#[derive(Debug, Clone, PartialEq, Eq)]
pub struct PairingGrant {
    pub origin: String,
    pub next_code: String,
}

/// One pairing attempt against the current pairing code. A pairing code works once:
/// on success the grant carries the trimmed origin and a new code to store in place
/// of the current one, and under that new code the code just used is refused.
pub fn pair_step(pairing_code: &str, code: &str, origin: &str) -> (r: Result<PairingGrant, StorageError>)
    ensures
        match pairing_refusal(pairing_code@, code@, origin@) {
            Some(e) => r == Err::<PairingGrant, StorageError>(e),
            None => r matches Ok(g) && g.origin@ == trimmed(origin@) && is_pairing_code(g.next_code@)
                && pairing_refusal(g.next_code@, code@, origin@) == Some(StorageError::InvalidPairingCode),
        },
{
    let o = trim(origin);
    if !is_chrome_extension_origin(o) {
        return Err(StorageError::InvalidOrigin);
    }
    let current = trim(pairing_code);
    if !same_text(current, trim(code)) {
        return Err(StorageError::InvalidPairingCode);
    }
    let next_code = fresh_pairing_code(current);
    proof {
        lemma_strip_kept(next_code@, CharClass::Whitespace);
    }
    Ok(PairingGrant { origin: o.to_owned(), next_code })
}

/// What to answer an accepted submission with.
#[derive(Debug, Clone, Copy, PartialEq, Eq, Structural)]
pub enum PendingPlan {
    /// Answer with the stored pending completion with this id.
    Existing(i64),
    /// Insert a new pending completion.
    Insert,
}

/// Decides an accepted submission for a problem: one unresolved pending completion
/// per problem is kept; a key already used for another problem is a conflict.
/// `unresolved` is the problem's unresolved pending completion, `keyed` the
/// `(id, problem_id)` of the one stored under the key.
pub fn plan_pending_completion(
    problem_id: i64,
    key: &str,
    problem_exists: bool,
    unresolved: Option<i64>,
    keyed: Option<(i64, i64)>,
) -> (r: Result<PendingPlan, StorageError>)
    ensures
        if !problem_exists {
            r == Err::<PendingPlan, StorageError>(StorageError::ProblemNotFound(problem_id))
        } else {
            match unresolved {
                Some(id) => r == Ok::<PendingPlan, StorageError>(PendingPlan::Existing(id)),
                None => match keyed {
                    Some((id, owner)) => if owner != problem_id {
                        r matches Err(StorageError::IntegrationIdempotencyConflict { key: c }) && c@
                            == key@
                    } else {
                        r == Ok::<PendingPlan, StorageError>(PendingPlan::Existing(id))
                    },
                    None => r == Ok::<PendingPlan, StorageError>(PendingPlan::Insert),
                },
            }
        },
{
    if !problem_exists {
        return Err(StorageError::ProblemNotFound(problem_id));
    }
    if let Some(id) = unresolved {
        return Ok(PendingPlan::Existing(id));
    }
    match keyed {
        Some((id, owner)) => {
            if owner != problem_id {
                Err(StorageError::IntegrationIdempotencyConflict { key: key.to_owned() })
            } else {
                Ok(PendingPlan::Existing(id))
            }
        },
        None => Ok(PendingPlan::Insert),
    }
}


/// Reads a stored review row: its grade must be 1 to 4 and its key not blank.
pub fn review_from_row(idempotency_key: &str, rating: u32, reviewed_at: i64) -> (r: Result<
    ReviewEvent,
    StorageError,
>)
    ensures
        match crate::learning::rating_of_grade(rating) {
            None => r matches Err(StorageError::Learning(LearningError::InvalidRating(t))) && t@
                == crate::text::decimal(rating as nat),
            Some(g) => if trimmed(idempotency_key@).len() == 0 {
                r == Err::<ReviewEvent, StorageError>(
                    StorageError::Learning(LearningError::InvalidIdempotencyKey),
                )
            } else {
                r matches Ok(e) && e@.key == idempotency_key@ && e@.rating == g && e@.reviewed_at
                    == reviewed_at
            },
        },
{
    let grade = match Rating::from_fsrs_value(rating) {
        Ok(g) => g,
        Err(e) => {
            return Err(StorageError::Learning(e));
        },
    };
    match ReviewEvent::new(idempotency_key, grade, reviewed_at) {
        Ok(e) => Ok(e),
        Err(e) => Err(StorageError::Learning(e)),
    }
}

} // verus!
