//! The backup document's problems and reviews, and the checks a backup must pass
//! before it replaces local learning data.

use vstd::prelude::*;
use crate::learning::{LearningError, Rating, ReviewEvent};
use crate::problems::{problem_fields_check, Difficulty, NewProblem, ProblemError, ProblemStatus};
use crate::settings::{settings_outcome, validate_settings_fields};
use crate::storage::StorageError;
use crate::text::{
    decimal, decimal_string, lemma_text_le_total, lemma_text_le_trans, same_text, text_at_most,
    text_le, trimmed,
};

verus! {

/// The backup format version this library writes and reads.
pub const BACKUP_VERSION: u32 = 1;

/// A problem as a backup holds it.
#[derive(Debug, Clone, PartialEq, Eq)]
pub struct BackupProblem {
    pub slug: String,
    pub title: String,
    pub url: String,
    pub difficulty: Difficulty,
    pub status: ProblemStatus,
    pub added_at: i64,
    pub updated_at: i64,
}

/// A review as a backup holds it, tied to its problem by slug.
#[derive(Debug, Clone, PartialEq, Eq)]
pub struct BackupReviewEvent {
    pub problem_slug: String,
    pub idempotency_key: String,
    pub rating: Rating,
    pub reviewed_at: i64,
}

/// The first index below `len` at or after `from` where `p` holds; `len` when none.
pub open spec fn first_where(from: int, len: int, p: spec_fn(int) -> bool) -> int
    decreases len - from,
{
    if from >= len {
        len
    } else if p(from) {
        from
    } else {
        first_where(from + 1, len, p)
    }
}

proof fn lemma_first_where(from: int, len: int, p: spec_fn(int) -> bool, k: int)
    requires
        from <= k <= len,
        forall|j: int| from <= j < k ==> !#[trigger] p(j),
        k < len ==> p(k),
    ensures
        first_where(from, len, p) == k,
    decreases k - from,
{
    if from < k {
        lemma_first_where(from + 1, len, p, k);
    }
}

proof fn lemma_first_where_at_most(from: int, len: int, p: spec_fn(int) -> bool, k: int)
    requires
        from <= k < len,
        p(k),
    ensures
        first_where(from, len, p) <= k,
    decreases k - from,
{
    if from < k && !p(from) {
        lemma_first_where_at_most(from + 1, len, p, k);
    }
}

/// Some problem before index `upto` has slug `slug`.
pub open spec fn slug_listed(problems: Seq<BackupProblem>, upto: int, slug: Seq<char>) -> bool {
    exists|j: int| 0 <= j < upto && (#[trigger] problems[j]).slug@ == slug
}

/// Problem `k` of a backup is refused: bad fields, or a slug already seen.
pub open spec fn problem_refused(problems: Seq<BackupProblem>, k: int) -> bool {
    problem_fields_check(problems[k].slug@, problems[k].title@, problems[k].url@) is Err
        || slug_listed(problems, k, problems[k].slug@)
}

/// Review `k` of a backup is refused: its slug names no problem, or its key is blank.
pub open spec fn review_refused(
    problems: Seq<BackupProblem>,
    events: Seq<BackupReviewEvent>,
    k: int,
) -> bool {
    !slug_listed(problems, problems.len() as int, events[k].problem_slug@) || trimmed(
        events[k].idempotency_key@,
    ).len() == 0
}

/// Schedule `k` of a backup is refused: its slug names no problem.
pub open spec fn schedule_refused(problems: Seq<BackupProblem>, slugs: Seq<String>, k: int) -> bool {
    !slug_listed(problems, problems.len() as int, slugs[k]@)
}

pub open spec fn problem_pred(problems: Seq<BackupProblem>) -> spec_fn(int) -> bool {
    |k: int| problem_refused(problems, k)
}

pub open spec fn review_pred(problems: Seq<BackupProblem>, events: Seq<BackupReviewEvent>) -> spec_fn(
    int,
) -> bool {
    |k: int| review_refused(problems, events, k)
}

pub open spec fn schedule_pred(problems: Seq<BackupProblem>, slugs: Seq<String>) -> spec_fn(
    int,
) -> bool {
    |k: int| schedule_refused(problems, slugs, k)
}

/// `e` is `InvalidBackup` with text `text`.
pub open spec fn invalid_backup(e: StorageError, text: Seq<char>) -> bool {
    e matches StorageError::InvalidBackup(m) && m@ == text
}

/// Whether `r` is the outcome of checking a backup: its version, its settings,
/// then each problem, each review and each schedule in order; the first refusal decides.
pub open spec fn backup_outcome(
    version: u32,
    timezone_id: Seq<char>,
    retention_in_range: bool,
    pairing_code: Seq<char>,
    problems: Seq<BackupProblem>,
    events: Seq<BackupReviewEvent>,
    schedule_slugs: Option<Seq<String>>,
    r: Result<(), StorageError>,
) -> bool {
    let kp = first_where(0, problems.len() as int, problem_pred(problems));
    let ke = first_where(0, events.len() as int, review_pred(problems, events));
    if version != BACKUP_VERSION {
        r is Err && invalid_backup(r->Err_0, "unsupported version "@ + decimal(version as nat))
    } else if !(timezone_known_and_ok(timezone_id, retention_in_range, pairing_code)) {
        r matches Err(StorageError::Settings(e)) && settings_outcome(
            timezone_id,
            retention_in_range,
            pairing_code,
            Err(e),
        )
    } else if kp < problems.len() {
        match problem_fields_check(problems[kp].slug@, problems[kp].title@, problems[kp].url@) {
            Err(e) => r == Err::<(), StorageError>(StorageError::Problem(e)),
            Ok(()) => r is Err && invalid_backup(
                r->Err_0,
                "duplicate problem slug "@ + problems[kp].slug@,
            ),
        }
    } else if ke < events.len() {
        if !slug_listed(problems, problems.len() as int, events[ke].problem_slug@) {
            r is Err && invalid_backup(
                r->Err_0,
                "review references missing slug "@ + events[ke].problem_slug@,
            )
        } else {
            r == Err::<(), StorageError>(StorageError::Learning(LearningError::InvalidIdempotencyKey))
        }
    } else {
        match schedule_slugs {
            None => r == Ok::<(), StorageError>(()),
            Some(slugs) => {
                let ks = first_where(0, slugs.len() as int, schedule_pred(problems, slugs));
                if ks < slugs.len() {
                    r is Err && invalid_backup(
                        r->Err_0,
                        "schedule references missing slug "@ + slugs[ks]@,
                    )
                } else {
                    r == Ok::<(), StorageError>(())
                }
            },
        }
    }
}

/// Settings with these fields pass their checks.
pub open spec fn timezone_known_and_ok(
    timezone_id: Seq<char>,
    retention_in_range: bool,
    pairing_code: Seq<char>,
) -> bool {
    settings_outcome(timezone_id, retention_in_range, pairing_code, Ok(()))
}

/// Whether a problem before index `upto` has slug `slug`.
fn has_slug(problems: &[BackupProblem], upto: usize, slug: &str) -> (b: bool)
    requires
        upto <= problems@.len(),
    ensures
        b == slug_listed(problems@, upto as int, slug@),
{
    let mut j: usize = 0;
    while j < upto
        invariant
            upto <= problems@.len(),
            0 <= j <= upto,
            forall|i: int| 0 <= i < j ==> (#[trigger] problems@[i]).slug@ != slug@,
        decreases upto - j,
    {
        if same_text(problems[j].slug.as_str(), slug) {
            return true;
        }
        j = j + 1;
    }
    false
}

fn message_with(prefix: &str, detail: &str) -> (r: String)
    ensures
        r@ == prefix@ + detail@,
{
    let mut m = String::from_str(prefix);
    m.append(detail);
    m
}

/// Checks a backup before it replaces local data: the version, the settings
/// (whose retention range the caller decides, as it holds a float), each problem's
/// fields and slug uniqueness, each review's problem and key, and each schedule's problem.
pub fn validate_backup(
    version: u32,
    timezone_id: &str,
    retention_in_range: bool,
    pairing_code: &str,
    problems: &[BackupProblem],
    review_events: &[BackupReviewEvent],
    schedule_slugs: Option<&[String]>,
) -> (r: Result<(), StorageError>)
    ensures
        backup_outcome(
            version,
            timezone_id@,
            retention_in_range,
            pairing_code@,
            problems@,
            review_events@,
            match schedule_slugs {
                Some(s) => Some(s@),
                None => None,
            },
            r,
        ),
{
    if version != BACKUP_VERSION {
        let v = decimal_string(version as u64);
        return Err(StorageError::InvalidBackup(message_with("unsupported version ", v.as_str())));
    }
    match validate_settings_fields(timezone_id, retention_in_range, pairing_code) {
        Ok(()) => {},
        Err(e) => {
            return Err(StorageError::Settings(e));
        },
    }
    let ghost pp = problem_pred(problems@);
    let mut i: usize = 0;
    while i < problems.len()
        invariant
            0 <= i <= problems@.len(),
            pp == problem_pred(problems@),
            version == BACKUP_VERSION,
            timezone_known_and_ok(timezone_id@, retention_in_range, pairing_code@),
            forall|j: int| 0 <= j < i ==> !#[trigger] pp(j),
        decreases problems@.len() - i,
    {
        let p = &problems[i];
        match NewProblem::new(p.slug.as_str(), p.title.as_str(), p.url.as_str(), p.difficulty) {
            Ok(_) => {},
            Err(e) => {
                proof {
                    lemma_first_where(0, problems@.len() as int, pp, i as int);
                }
                return Err(StorageError::Problem(e));
            },
        }
        if has_slug(problems, i, p.slug.as_str()) {
            proof {
                lemma_first_where(0, problems@.len() as int, pp, i as int);
            }
            return Err(
                StorageError::InvalidBackup(message_with("duplicate problem slug ", p.slug.as_str())),
            );
        }
        i = i + 1;
    }
    proof {
        lemma_first_where(0, problems@.len() as int, pp, problems@.len() as int);
    }
    let ghost ep = review_pred(problems@, review_events@);
    let mut i: usize = 0;
    while i < review_events.len()
        invariant
            0 <= i <= review_events@.len(),
            ep == review_pred(problems@, review_events@),
            version == BACKUP_VERSION,
            timezone_known_and_ok(timezone_id@, retention_in_range, pairing_code@),
            first_where(0, problems@.len() as int, problem_pred(problems@)) == problems@.len(),
            forall|j: int| 0 <= j < i ==> !#[trigger] ep(j),
        decreases review_events@.len() - i,
    {
        let e = &review_events[i];
        if !has_slug(problems, problems.len(), e.problem_slug.as_str()) {
            proof {
                lemma_first_where(0, review_events@.len() as int, ep, i as int);
            }
            return Err(
                StorageError::InvalidBackup(
                    message_with("review references missing slug ", e.problem_slug.as_str()),
                ),
            );
        }
        match ReviewEvent::new(e.idempotency_key.as_str(), e.rating, e.reviewed_at) {
            Ok(_) => {},
            Err(err) => {
                proof {
                    lemma_first_where(0, review_events@.len() as int, ep, i as int);
                }
                return Err(StorageError::Learning(err));
            },
        }
        i = i + 1;
    }
    proof {
        lemma_first_where(0, review_events@.len() as int, ep, review_events@.len() as int);
    }
    match schedule_slugs {
        None => Ok(()),
        Some(slugs) => {
            let ghost sp = schedule_pred(problems@, slugs@);
            let mut i: usize = 0;
            while i < slugs.len()
                invariant
                    0 <= i <= slugs@.len(),
                    sp == schedule_pred(problems@, slugs@),
                    version == BACKUP_VERSION,
                    timezone_known_and_ok(timezone_id@, retention_in_range, pairing_code@),
                    first_where(0, problems@.len() as int, problem_pred(problems@)) == problems@.len(),
                    first_where(0, review_events@.len() as int, review_pred(problems@, review_events@))
                        == review_events@.len(),
                    schedule_slugs == Some(slugs),
                    forall|j: int| 0 <= j < i ==> !#[trigger] sp(j),
                decreases slugs@.len() - i,
            {
                if !has_slug(problems, problems.len(), slugs[i].as_str()) {
                    proof {
                        lemma_first_where(0, slugs@.len() as int, sp, i as int);
                    }
                    return Err(
                        StorageError::InvalidBackup(
                            message_with("schedule references missing slug ", slugs[i].as_str()),
                        ),
                    );
                }
                i = i + 1;
            }
            proof {
                lemma_first_where(0, slugs@.len() as int, sp, slugs@.len() as int);
            }
            Ok(())
        },
    }
}


/// Reviews are replayed by instant, then by key.
pub open spec fn review_le(x: BackupReviewEvent, y: BackupReviewEvent) -> bool {
    x.reviewed_at < y.reviewed_at || (x.reviewed_at == y.reviewed_at && text_le(
        x.idempotency_key@,
        y.idempotency_key@,
    ))
}

/// Review `i` is replayed before review `j`: it orders before, or orders the same
/// and comes first in the backup (the sort is stable).
pub open spec fn review_before(events: Seq<BackupReviewEvent>, i: int, j: int) -> bool {
    review_le(events[i], events[j]) && (review_le(events[j], events[i]) ==> i < j)
}

proof fn lemma_review_le_total(x: BackupReviewEvent, y: BackupReviewEvent)
    ensures
        review_le(x, y) || review_le(y, x),
{
    lemma_text_le_total(x.idempotency_key@, y.idempotency_key@);
}

proof fn lemma_review_le_trans(x: BackupReviewEvent, y: BackupReviewEvent, z: BackupReviewEvent)
    requires
        review_le(x, y),
        review_le(y, z),
    ensures
        review_le(x, z),
{
    if x.reviewed_at == y.reviewed_at && y.reviewed_at == z.reviewed_at {
        lemma_text_le_trans(x.idempotency_key@, y.idempotency_key@, z.idempotency_key@);
    }
}

fn review_at_most(x: &BackupReviewEvent, y: &BackupReviewEvent) -> (r: bool)
    ensures
        r == review_le(*x, *y),
{
    x.reviewed_at < y.reviewed_at || (x.reviewed_at == y.reviewed_at && text_at_most(
        x.idempotency_key.as_str(),
        y.idempotency_key.as_str(),
    ))
}

/// The positions of the reviews of problem `slug`, in replay order: by instant, then
/// by key, ties kept in backup order.
pub fn order_reviews_for_slug(events: &[BackupReviewEvent], slug: &str) -> (r: Vec<usize>)
    ensures
        forall|a: int|
            0 <= a < r@.len() ==> (#[trigger] r@[a]) < events@.len() && events@[r@[a] as int].problem_slug@
                == slug@,
        forall|i: int|
            0 <= i < events@.len() && (#[trigger] events@[i]).problem_slug@ == slug@ ==> r@.contains(
                i as usize,
            ),
        forall|a: int, b: int|
            0 <= a < b < r@.len() ==> review_before(events@, #[trigger] r@[a] as int, #[trigger] r@[b] as int),
{
    let mut order: Vec<usize> = Vec::new();
    let mut i: usize = 0;
    while i < events.len()
        invariant
            0 <= i <= events@.len(),
            forall|a: int|
                0 <= a < order@.len() ==> (#[trigger] order@[a]) < i && events@[order@[a] as int].problem_slug@
                    == slug@,
            forall|k: int|
                0 <= k < i && (#[trigger] events@[k]).problem_slug@ == slug@ ==> order@.contains(
                    k as usize,
                ),
            forall|a: int, b: int|
                0 <= a < b < order@.len() ==> review_before(
                    events@,
                    #[trigger] order@[a] as int,
                    #[trigger] order@[b] as int,
                ),
        decreases events@.len() - i,
    {
        if same_text(events[i].problem_slug.as_str(), slug) {
            let mut p: usize = 0;
            while p < order.len() && review_at_most(&events[order[p]], &events[i])
                invariant
                    0 <= p <= order@.len(),
                    i < events@.len(),
                    forall|a: int| 0 <= a < order@.len() ==> (#[trigger] order@[a]) < i,
                    forall|a: int| 0 <= a < p ==> review_le(events@[#[trigger] order@[a] as int], events@[i as int]),
                decreases order@.len() - p,
            {
                p = p + 1;
            }
            let ghost old_order = order@;
            order.insert(p, i);
            proof {
                let e = events@;
                assert forall|a: int, b: int| 0 <= a < b < order@.len() implies review_before(
                    e,
                    #[trigger] order@[a] as int,
                    #[trigger] order@[b] as int,
                ) by {
                    if b < p {
                        assert(order@[a] == old_order[a] && order@[b] == old_order[b]);
                    } else if b == p {
                        assert(order@[a] == old_order[a]);
                        assert(review_le(e[old_order[a] as int], e[i as int]));
                    } else if a < p {
                        assert(order@[a] == old_order[a] && order@[b] == old_order[b - 1]);
                    } else if a == p {
                        let q = old_order[b - 1] as int;
                        let rp = old_order[p as int] as int;
                        assert(!review_le(e[rp], e[i as int]));
                        lemma_review_le_total(e[rp], e[i as int]);
                        if b - 1 > p {
                            assert(review_before(e, old_order[p as int] as int, old_order[b - 1] as int));
                            lemma_review_le_trans(e[i as int], e[rp], e[q]);
                            if review_le(e[q], e[i as int]) {
                                lemma_review_le_trans(e[rp], e[q], e[i as int]);
                            }
                        }
                    } else {
                        assert(order@[a] == old_order[a - 1] && order@[b] == old_order[b - 1]);
                    }
                }
                assert forall|k: int|
                    0 <= k < i + 1 && (#[trigger] e[k]).problem_slug@ == slug@ implies order@.contains(
                    k as usize,
                ) by {
                    if k == i {
                        assert(order@[p as int] == i);
                    } else {
                        let w = choose|w: int| 0 <= w < old_order.len() && old_order[w] == k as usize;
                        if w < p {
                            assert(order@[w] == k as usize);
                        } else {
                            assert(order@[w + 1] == k as usize);
                        }
                    }
                }
            }
        }
        i = i + 1;
    }
    order
}

/// Reviews and schedules are matched against every problem of the backup, at any
/// position. For a backup whose version and settings pass and whose problems are
/// valid with distinct slugs:
/// - when every review has a key and names the slug of some problem, and every
///   schedule names the slug of some problem, the backup is accepted;
/// - when some review names a slug that no problem has, the backup is refused;
/// - when some schedule names a slug that no problem has, the backup is refused.
pub proof fn lemma_backup_slugs_match_any_problem(
    version: u32,
    timezone_id: Seq<char>,
    retention_in_range: bool,
    pairing_code: Seq<char>,
    problems: Seq<BackupProblem>,
    events: Seq<BackupReviewEvent>,
    schedule_slugs: Option<Seq<String>>,
    r: Result<(), StorageError>,
)
    requires
        backup_outcome(
            version,
            timezone_id,
            retention_in_range,
            pairing_code,
            problems,
            events,
            schedule_slugs,
            r,
        ),
        version == BACKUP_VERSION,
        timezone_known_and_ok(timezone_id, retention_in_range, pairing_code),
        forall|k: int|
            0 <= k < problems.len() ==> problem_fields_check(
                (#[trigger] problems[k]).slug@,
                problems[k].title@,
                problems[k].url@,
            ) == Ok::<(), ProblemError>(()),
        forall|i: int, j: int|
            0 <= i < j < problems.len() ==> (#[trigger] problems[i]).slug@ != (#[trigger] problems[j]).slug@,
    ensures
        ((forall|k: int|
            0 <= k < events.len() ==> trimmed((#[trigger] events[k]).idempotency_key@).len() > 0
                && exists|j: int| 0 <= j < problems.len() && (#[trigger] problems[j]).slug@ == events[k].problem_slug@)
            && (match schedule_slugs {
            Some(slugs) => forall|k: int|
                0 <= k < slugs.len() ==> exists|j: int|
                    0 <= j < problems.len() && (#[trigger] problems[j]).slug@ == (#[trigger] slugs[k])@,
            None => true,
        })) ==> r == Ok::<(), StorageError>(()),
        (exists|k: int|
            0 <= k < events.len() && forall|j: int|
                0 <= j < problems.len() ==> (#[trigger] problems[j]).slug@ != (#[trigger] events[k]).problem_slug@)
            ==> r is Err,
        (match schedule_slugs {
            Some(slugs) => exists|k: int|
                0 <= k < slugs.len() && forall|j: int|
                    0 <= j < problems.len() ==> (#[trigger] problems[j]).slug@ != (#[trigger] slugs[k])@,
            None => false,
        }) ==> r is Err,
{
    let np = problems.len() as int;
    let ne = events.len() as int;
    assert forall|k: int| 0 <= k < np implies !#[trigger] problem_pred(problems)(k) by {
        if slug_listed(problems, k, problems[k].slug@) {
            let j = choose|j: int| 0 <= j < k && (#[trigger] problems[j]).slug@ == problems[k].slug@;
            assert(problems[j].slug@ != problems[k].slug@);
        }
    }
    lemma_first_where(0, np, problem_pred(problems), np);
    // A review naming no problem is refused, so the first refused review comes no later.
    if exists|k: int|
        0 <= k < ne && forall|j: int|
            0 <= j < np ==> (#[trigger] problems[j]).slug@ != (#[trigger] events[k]).problem_slug@ {
        let k = choose|k: int|
            0 <= k < ne && forall|j: int|
                0 <= j < np ==> (#[trigger] problems[j]).slug@ != (#[trigger] events[k]).problem_slug@;
        assert(!slug_listed(problems, np, events[k].problem_slug@));
        assert(review_pred(problems, events)(k));
        lemma_first_where_at_most(0, ne, review_pred(problems, events), k);
    }
    if let Some(slugs) = schedule_slugs {
        if exists|k: int|
            0 <= k < slugs.len() && forall|j: int|
                0 <= j < np ==> (#[trigger] problems[j]).slug@ != (#[trigger] slugs[k])@ {
            let k = choose|k: int|
                0 <= k < slugs.len() && forall|j: int|
                    0 <= j < np ==> (#[trigger] problems[j]).slug@ != (#[trigger] slugs[k])@;
            assert(!slug_listed(problems, np, slugs[k]@));
            assert(schedule_pred(problems, slugs)(k));
            lemma_first_where_at_most(0, slugs.len() as int, schedule_pred(problems, slugs), k);
        }
    }
    // When every review and schedule names some problem, none is refused.
    if forall|k: int|
        0 <= k < ne ==> trimmed((#[trigger] events[k]).idempotency_key@).len() > 0 && exists|j: int|
            0 <= j < np && (#[trigger] problems[j]).slug@ == events[k].problem_slug@ {
        assert forall|k: int| 0 <= k < ne implies !#[trigger] review_pred(problems, events)(k) by {
            let j = choose|j: int| 0 <= j < np && (#[trigger] problems[j]).slug@ == events[k].problem_slug@;
            assert(slug_listed(problems, np, events[k].problem_slug@));
        }
        lemma_first_where(0, ne, review_pred(problems, events), ne);
        if let Some(slugs) = schedule_slugs {
            if forall|k: int|
                0 <= k < slugs.len() ==> exists|j: int|
                    0 <= j < np && (#[trigger] problems[j]).slug@ == (#[trigger] slugs[k])@ {
                assert forall|k: int| 0 <= k < slugs.len() implies !#[trigger] schedule_pred(problems, slugs)(k) by {
                    let j = choose|j: int| 0 <= j < np && (#[trigger] problems[j]).slug@ == slugs[k]@;
                    assert(slug_listed(problems, np, slugs[k]@));
                }
                lemma_first_where(0, slugs.len() as int, schedule_pred(problems, slugs), slugs.len() as int);
            }
        }
    }
}

} // verus!
