//! Civil-day windows and persisted daily assignments.

use vstd::prelude::*;
use crate::calendar::{
    format_iso_date, is_known_timezone, iso_date_format, iso_date_parse, local_midnight,
    next_civil_day, next_date, parse_iso_date, timezone_known, utc_date_at,
    utc_date_of_timestamp, zone_date_at, zone_local_date, zone_midnight, CivilDate, LocalMidnight,
};
use crate::text::same_text;

verus! {

/// The most a day's assignment may cost.
pub const DAILY_BUDGET: u8 = 2;

/// Why a civil-day window was refused.
#[derive(Debug, Clone, PartialEq, Eq)]
pub enum DayWindowError {
    InvalidDate,
    InvalidBounds,
    InvalidOffset,
    InvalidTimestamp,
    InvalidTimeZone(String),
    AmbiguousBoundary(String),
    NonexistentBoundary(String),
}

/// Whether `s` is a date that `chrono` reads with `%Y-%m-%d` and writes back unchanged.
pub open spec fn canonical_iso_date(s: Seq<char>) -> bool {
    match iso_date_parse(s) {
        Some(d) => iso_date_format(d.year, d.month, d.day) == Some(s),
        None => false,
    }
}

/// Civil days last 23, 23.5, 24, 24.5 or 25 hours.
pub open spec fn civil_day_length(seconds: int) -> bool {
    seconds == 82_800 || seconds == 84_600 || seconds == 86_400 || seconds == 88_200 || seconds
        == 90_000
}

/// The outcome of validating a window's date and UTC bounds.
pub open spec fn window_check(local_date: Seq<char>, start_utc: i64, end_utc: i64) -> Result<
    (),
    DayWindowError,
> {
    if !canonical_iso_date(local_date) {
        Err(DayWindowError::InvalidDate)
    } else if start_utc <= 0 || end_utc <= 0 || !civil_day_length(end_utc - start_utc) {
        Err(DayWindowError::InvalidBounds)
    } else {
        Ok(())
    }
}

/// A local calendar date with the UTC epoch-second bounds of that civil day.
#[derive(Debug, PartialEq, Eq)]
pub struct DayWindow {
    local_date: String,
    start_utc: i64,
    end_utc: i64,
}

/// The plain content of a day window.
pub struct DayWindowView {
    pub local_date: Seq<char>,
    pub start_utc: i64,
    pub end_utc: i64,
}

impl DayWindow {
    /// Every window has a canonical date and positive bounds one civil day apart.
    #[verifier::type_invariant]
    spec fn well_formed(self) -> bool {
        window_check(self.local_date@, self.start_utc, self.end_utc) == Ok::<(), DayWindowError>(())
    }
}

impl Clone for DayWindow {
    fn clone(&self) -> (r: DayWindow)
        ensures
            r@ == self@,
    {
        proof {
            use_type_invariant(self);
        }
        DayWindow {
            local_date: self.local_date.clone(),
            start_utc: self.start_utc,
            end_utc: self.end_utc,
        }
    }
}

impl View for DayWindow {
    type V = DayWindowView;

    closed spec fn view(&self) -> DayWindowView {
        DayWindowView {
            local_date: self.local_date@,
            start_utc: self.start_utc,
            end_utc: self.end_utc,
        }
    }
}

/// The outcome of [`DayWindow::new`] on plain values.
pub open spec fn new_window_result(local_date: Seq<char>, start_utc: i64, end_utc: i64, r: Result<
    DayWindow,
    DayWindowError,
>) -> bool {
    match r {
        Ok(w) => window_check(local_date, start_utc, end_utc) == Ok::<(), DayWindowError>(())
            && w@.local_date == local_date && w@.start_utc == start_utc && w@.end_utc == end_utc,
        Err(e) => window_check(local_date, start_utc, end_utc) == Err::<(), DayWindowError>(e),
    }
}

/// The UTC epoch second of local midnight of the day holding `timestamp`, at a fixed
/// offset east of UTC.
pub open spec fn fixed_offset_day_start(timestamp: int, offset_seconds: int) -> int {
    ((timestamp + offset_seconds) / 86_400) * 86_400 - offset_seconds
}

/// The outcome of [`DayWindow::from_utc_timestamp`], up to the final validation:
/// the local date and the UTC bounds, or the error met first.
pub open spec fn fixed_offset_window(timestamp: i64, offset_minutes: i32) -> Result<
    (CivilDate, int, int),
    DayWindowError,
> {
    let secs = offset_minutes * 60;
    if secs < i32::MIN || secs > i32::MAX || !(-86_400 < secs && secs < 86_400) {
        Err(DayWindowError::InvalidOffset)
    } else if utc_date_at(timestamp) is None {
        Err(DayWindowError::InvalidTimestamp)
    } else {
        let start = fixed_offset_day_start(timestamp as int, secs);
        match utc_date_at((start + secs) as i64) {
            None => Err(DayWindowError::InvalidTimestamp),
            Some(d) => Ok((d, start, start + 86_400)),
        }
    }
}

/// The outcome of [`DayWindow::from_local_date`], up to the final validation:
/// the UTC instants of the two midnights, or the error met first.
pub open spec fn zone_window(local_date: Seq<char>, timezone_id: Seq<char>) -> Result<
    (i64, i64),
    DayWindowError,
> {
    if !canonical_iso_date(local_date) {
        Err(DayWindowError::InvalidDate)
    } else if !timezone_known(timezone_id) {
        Err(DayWindowError::InvalidTimeZone(arbitrary()))
    } else {
        let d = iso_date_parse(local_date)->0;
        match next_civil_day(d.year, d.month, d.day) {
            None => Err(DayWindowError::InvalidTimestamp),
            Some(n) => match zone_midnight(timezone_id, d.year, d.month, d.day) {
                LocalMidnight::Ambiguous => Err(DayWindowError::AmbiguousBoundary(arbitrary())),
                LocalMidnight::Nonexistent => Err(DayWindowError::NonexistentBoundary(arbitrary())),
                LocalMidnight::Single(start) => match zone_midnight(
                    timezone_id,
                    n.year,
                    n.month,
                    n.day,
                ) {
                    LocalMidnight::Ambiguous => Err(
                        DayWindowError::AmbiguousBoundary(arbitrary()),
                    ),
                    LocalMidnight::Nonexistent => Err(
                        DayWindowError::NonexistentBoundary(arbitrary()),
                    ),
                    LocalMidnight::Single(end) => Ok((start, end)),
                },
            },
        }
    }
}

/// Two errors of the time-zone constructor agree, the zone name they carry compared by view.
pub open spec fn zone_error_matches(e: DayWindowError, expected: DayWindowError, timezone_id: Seq<
    char,
>) -> bool {
    match expected {
        DayWindowError::InvalidTimeZone(_) => e matches DayWindowError::InvalidTimeZone(t)
            && t@ == timezone_id,
        DayWindowError::AmbiguousBoundary(_) => e matches DayWindowError::AmbiguousBoundary(t)
            && t@ == timezone_id,
        DayWindowError::NonexistentBoundary(_) => e matches DayWindowError::NonexistentBoundary(t)
            && t@ == timezone_id,
        _ => e == expected,
    }
}

fn midnight_instant(timezone_id: &str, d: CivilDate) -> (r: Result<i64, DayWindowError>)
    requires
        timezone_known(timezone_id@),
        iso_date_format(d.year, d.month, d.day) is Some,
    ensures
        match zone_midnight(timezone_id@, d.year, d.month, d.day) {
            LocalMidnight::Single(t) => r == Ok::<i64, DayWindowError>(t),
            LocalMidnight::Ambiguous => r matches Err(DayWindowError::AmbiguousBoundary(t))
                && t@ == timezone_id@,
            LocalMidnight::Nonexistent => r matches Err(DayWindowError::NonexistentBoundary(t))
                && t@ == timezone_id@,
        },
{
    match local_midnight(timezone_id, d) {
        LocalMidnight::Single(t) => Ok(t),
        LocalMidnight::Ambiguous => Err(DayWindowError::AmbiguousBoundary(timezone_id.to_owned())),
        LocalMidnight::Nonexistent => Err(
            DayWindowError::NonexistentBoundary(timezone_id.to_owned()),
        ),
    }
}

/// The `%Y-%m-%d` text of the local date in the zone named `timezone_id` at the
/// UTC epoch second `timestamp`: the day whose queue is today's there.
pub fn local_date_at(timezone_id: &str, timestamp: i64) -> (r: Result<String, DayWindowError>)
    ensures
        !timezone_known(timezone_id@) ==> (r matches Err(DayWindowError::InvalidTimeZone(t)) && t@
            == timezone_id@),
        timezone_known(timezone_id@) ==> match zone_date_at(timezone_id@, timestamp) {
            Some(d) => r matches Ok(s) && Some(s@) == iso_date_format(d.year, d.month, d.day),
            None => r == Err::<String, DayWindowError>(DayWindowError::InvalidTimestamp),
        },
{
    if !is_known_timezone(timezone_id) {
        return Err(DayWindowError::InvalidTimeZone(timezone_id.to_owned()));
    }
    match zone_local_date(timezone_id, timestamp) {
        None => Err(DayWindowError::InvalidTimestamp),
        Some(d) => match format_iso_date(d) {
            Some(text) => Ok(text),
            None => Err(DayWindowError::InvalidDate),
        },
    }
}

/// Whether `s` reads as a date and writes back unchanged.
pub fn is_canonical_iso_date(s: &str) -> (b: bool)
    ensures
        b == canonical_iso_date(s@),
{
    match parse_iso_date(s) {
        None => false,
        Some(d) => match format_iso_date(d) {
            None => false,
            Some(text) => same_text(text.as_str(), s),
        },
    }
}

impl DayWindow {
    /// Validates an ISO local date and its UTC epoch-second civil-day bounds.
    pub fn new(local_date: &str, start_utc: i64, end_utc: i64) -> (r: Result<
        DayWindow,
        DayWindowError,
    >)
        ensures
            new_window_result(local_date@, start_utc, end_utc, r),
    {
        if !is_canonical_iso_date(local_date) {
            return Err(DayWindowError::InvalidDate);
        }
        if start_utc <= 0 || end_utc <= 0 {
            return Err(DayWindowError::InvalidBounds);
        }
        let duration = end_utc - start_utc;
        if !(duration == 82_800 || duration == 84_600 || duration == 86_400 || duration == 88_200
            || duration == 90_000) {
            return Err(DayWindowError::InvalidBounds);
        }
        Ok(DayWindow { local_date: local_date.to_owned(), start_utc, end_utc })
    }

    /// Builds the civil day holding `timestamp` at a fixed UTC offset (minutes east).
    pub fn from_utc_timestamp(timestamp: i64, offset_minutes: i32) -> (r: Result<
        DayWindow,
        DayWindowError,
    >)
        ensures
            match fixed_offset_window(timestamp, offset_minutes) {
                Err(e) => r == Err::<DayWindow, DayWindowError>(e),
                Ok((d, start, end)) => new_window_result(
                    iso_date_format(d.year, d.month, d.day)->0,
                    start as i64,
                    end as i64,
                    r,
                ),
            },
            r matches Ok(w) ==> w@.start_utc <= timestamp < w@.end_utc && w@.end_utc
                - w@.start_utc == 86_400,
    {
        let offset_seconds = match offset_minutes.checked_mul(60) {
            Some(s) => s,
            None => {
                return Err(DayWindowError::InvalidOffset);
            },
        };
        if !(-86_400 < offset_seconds && offset_seconds < 86_400) {
            return Err(DayWindowError::InvalidOffset);
        }
        if utc_date_of_timestamp(timestamp).is_none() {
            return Err(DayWindowError::InvalidTimestamp);
        }
        let local_seconds = timestamp + offset_seconds as i64;
        let local_day = match local_seconds.checked_div_euclid(86_400) {
            Some(q) => q,
            None => {
                return Err(DayWindowError::InvalidTimestamp);
            },
        };
        let local_midnight_utc = local_day * 86_400;
        let date = match utc_date_of_timestamp(local_midnight_utc) {
            Some(d) => d,
            None => {
                return Err(DayWindowError::InvalidTimestamp);
            },
        };
        let start_utc = local_midnight_utc - offset_seconds as i64;
        let end_utc = start_utc + 86_400;
        let text = match format_iso_date(date) {
            Some(t) => t,
            None => {
                return Err(DayWindowError::InvalidTimestamp);
            },
        };
        DayWindow::new(text.as_str(), start_utc, end_utc)
    }

    /// Computes consecutive local midnights of a date in an IANA time zone.
    pub fn from_local_date(local_date: &str, timezone_id: &str) -> (r: Result<
        DayWindow,
        DayWindowError,
    >)
        ensures
            match zone_window(local_date@, timezone_id@) {
                Err(e) => r is Err && zone_error_matches(r->Err_0, e, timezone_id@),
                Ok((start, end)) => new_window_result(local_date@, start, end, r),
            },
    {
        let date = match parse_iso_date(local_date) {
            Some(d) => d,
            None => {
                return Err(DayWindowError::InvalidDate);
            },
        };
        let formatted = match format_iso_date(date) {
            Some(t) => t,
            None => {
                return Err(DayWindowError::InvalidDate);
            },
        };
        if !same_text(formatted.as_str(), local_date) {
            return Err(DayWindowError::InvalidDate);
        }
        if !is_known_timezone(timezone_id) {
            return Err(DayWindowError::InvalidTimeZone(timezone_id.to_owned()));
        }
        let next = match next_date(date) {
            Some(n) => n,
            None => {
                return Err(DayWindowError::InvalidTimestamp);
            },
        };
        let start_utc = match midnight_instant(timezone_id, date) {
            Ok(t) => t,
            Err(e) => {
                return Err(e);
            },
        };
        let end_utc = match midnight_instant(timezone_id, next) {
            Ok(t) => t,
            Err(e) => {
                return Err(e);
            },
        };
        DayWindow::new(local_date, start_utc, end_utc)
    }

    pub fn local_date(&self) -> (r: &str)
        ensures
            r@ == self@.local_date,
            window_check(self@.local_date, self@.start_utc, self@.end_utc) == Ok::<(), DayWindowError>(()),
    {
        proof {
            use_type_invariant(self);
        }
        self.local_date.as_str()
    }

    pub fn start_utc(&self) -> (r: i64)
        ensures
            r == self@.start_utc,
            window_check(self@.local_date, self@.start_utc, self@.end_utc) == Ok::<(), DayWindowError>(()),
    {
        proof {
            use_type_invariant(self);
        }
        self.start_utc
    }

    pub fn end_utc(&self) -> (r: i64)
        ensures
            r == self@.end_utc,
            window_check(self@.local_date, self@.start_utc, self@.end_utc) == Ok::<(), DayWindowError>(()),
    {
        proof {
            use_type_invariant(self);
        }
        self.end_utc
    }
}


/// One problem in a day's assignment: its place and its cost.
#[derive(Debug, Clone, Copy, PartialEq, Eq, Structural)]
pub struct DailyAssignmentItem {
    pub problem_id: i64,
    pub position: u8,
    pub cost: u8,
}

/// The problems assigned to one local date, in order.
#[derive(Debug, Clone, PartialEq, Eq)]
pub struct DailyAssignment {
    pub local_date: String,
    pub items: Vec<DailyAssignmentItem>,
}

/// Why a stored assignment was refused.
#[derive(Debug, Clone, Copy, PartialEq, Eq, Structural)]
pub enum AssignmentError {
    NoncontiguousPosition { expected: u8, actual: u8 },
    InvalidCost(u8),
    BudgetExceeded(u32),
}

/// The summed cost of assignment items.
pub open spec fn cost_sum(items: Seq<DailyAssignmentItem>) -> int
    decreases items.len(),
{
    if items.len() == 0 {
        0
    } else {
        cost_sum(items.drop_last()) + items.last().cost
    }
}

/// What is wrong with item `k` of an assignment, if anything: its position must be
/// its index (which must fit a `u8`) and its cost 1 or 2.
pub open spec fn item_error(items: Seq<DailyAssignmentItem>, k: int) -> Option<AssignmentError> {
    if k > 255 {
        Some(AssignmentError::BudgetExceeded(u32::MAX))
    } else if items[k].position != k {
        Some(AssignmentError::NoncontiguousPosition { expected: k as u8, actual: items[k].position })
    } else if !(items[k].cost == 1 || items[k].cost == 2) {
        Some(AssignmentError::InvalidCost(items[k].cost))
    } else {
        None
    }
}

/// The error of the first faulty item at index `from` or later.
pub open spec fn first_item_error(items: Seq<DailyAssignmentItem>, from: int) -> Option<
    AssignmentError,
>
    decreases items.len() - from,
{
    if from < 0 || from >= items.len() {
        None
    } else {
        match item_error(items, from) {
            Some(e) => Some(e),
            None => first_item_error(items, from + 1),
        }
    }
}

/// The outcome of validating an assignment: the first faulty item, else the budget.
pub open spec fn assignment_check(items: Seq<DailyAssignmentItem>) -> Result<(), AssignmentError> {
    match first_item_error(items, 0) {
        Some(e) => Err(e),
        None => if cost_sum(items) > DAILY_BUDGET {
            Err(AssignmentError::BudgetExceeded(cost_sum(items) as u32))
        } else {
            Ok(())
        },
    }
}

proof fn lemma_cost_sum_bounds(items: Seq<DailyAssignmentItem>)
    ensures
        0 <= cost_sum(items) <= 255 * items.len(),
    decreases items.len(),
{
    if items.len() > 0 {
        lemma_cost_sum_bounds(items.drop_last());
    }
}

proof fn lemma_cost_sum_small(items: Seq<DailyAssignmentItem>)
    requires
        forall|k: int| 0 <= k < items.len() ==> (#[trigger] items[k]).cost <= 2,
    ensures
        cost_sum(items) <= 2 * items.len(),
    decreases items.len(),
{
    if items.len() > 0 {
        lemma_cost_sum_small(items.drop_last());
    }
}

impl DailyAssignment {
    /// The assignment's cost, summed without narrow-integer overflow.
    pub fn total_cost(&self) -> (r: u32)
        requires
            cost_sum(self.items@) <= u32::MAX,
        ensures
            r == cost_sum(self.items@),
    {
        let mut total: u32 = 0;
        let mut i: usize = 0;
        while i < self.items.len()
            invariant
                0 <= i <= self.items@.len(),
                cost_sum(self.items@) <= u32::MAX,
                total == cost_sum(self.items@.take(i as int)),
            decreases self.items@.len() - i,
        {
            proof {
                let t = self.items@.take(i + 1);
                assert(t.drop_last() =~= self.items@.take(i as int));
                lemma_cost_sum_bounds(self.items@.skip(i + 1));
                assert(self.items@ =~= t + self.items@.skip(i + 1));
                lemma_cost_sum_append(t, self.items@.skip(i + 1));
            }
            total = total + self.items[i].cost as u32;
            i = i + 1;
        }
        assert(self.items@.take(i as int) =~= self.items@);
        total
    }

    /// Validates persisted ordering, legal costs and the daily budget.
    pub fn validate(&self) -> (r: Result<(), AssignmentError>)
        ensures
            r == assignment_check(self.items@),
    {
        let mut i: usize = 0;
        while i < self.items.len()
            invariant
                0 <= i <= self.items@.len(),
                first_item_error(self.items@, 0) == first_item_error(self.items@, i as int),
                i <= 256,
                forall|k: int| 0 <= k < i ==> (#[trigger] self.items@[k]).cost <= 2,
            decreases self.items@.len() - i,
        {
            if i > 255 {
                return Err(AssignmentError::BudgetExceeded(u32::MAX));
            }
            let expected = i as u8;
            let item = self.items[i];
            if item.position != expected {
                return Err(AssignmentError::NoncontiguousPosition { expected, actual: item.position });
            }
            if !(item.cost == 1 || item.cost == 2) {
                return Err(AssignmentError::InvalidCost(item.cost));
            }
            i = i + 1;
        }
        proof {
            lemma_cost_sum_small(self.items@);
        }
        let cost = self.total_cost();
        if cost > DAILY_BUDGET as u32 {
            return Err(AssignmentError::BudgetExceeded(cost));
        }
        Ok(())
    }
}

proof fn lemma_cost_sum_append(a: Seq<DailyAssignmentItem>, b: Seq<DailyAssignmentItem>)
    ensures
        cost_sum(a + b) == cost_sum(a) + cost_sum(b),
    decreases b.len(),
{
    if b.len() == 0 {
        assert(a + b =~= a);
    } else {
        assert((a + b).drop_last() =~= a + b.drop_last());
        lemma_cost_sum_append(a, b.drop_last());
    }
}

} // verus!
