//! The shapes the desktop UI exchanges with the application: views and arguments.

use vstd::prelude::*;
use crate::learning::Rating;
use crate::problems::{Difficulty, ProblemStatus};

verus! {

/// Today's assignment as the UI shows it.
#[derive(Debug, Clone, PartialEq, Eq)]
pub struct TodayViewDto {
    pub local_date: String,
    pub items: Vec<TodayItemDto>,
}

/// One assigned problem as the UI shows it.
#[derive(Debug, Clone, PartialEq, Eq)]
pub struct TodayItemDto {
    pub problem_id: i64,
    pub slug: String,
    pub title: String,
    pub url: String,
    pub difficulty: Difficulty,
    pub cost: u8,
    pub position: u8,
}

/// One row of the problem list, with its next due instant when it has a schedule.
#[derive(Debug, Clone, PartialEq, Eq)]
pub struct ProblemListItemDto {
    pub id: i64,
    pub slug: String,
    pub title: String,
    pub url: String,
    pub difficulty: Difficulty,
    pub status: ProblemStatus,
    pub added_at: i64,
    pub updated_at: i64,
    pub due_at: Option<i64>,
}

/// Adding a problem from a pasted URL.
#[derive(Debug, Clone, PartialEq, Eq)]
pub struct AddProblemArgs {
    pub url: String,
    pub title: Option<String>,
    pub difficulty: Difficulty,
}

/// Changing a problem's lifecycle status.
#[derive(Debug, Clone, Copy, PartialEq, Eq)]
pub struct SetStatusArgs {
    pub problem_id: i64,
    pub status: ProblemStatus,
}

/// Rating a review of a problem.
#[derive(Debug, Clone, PartialEq, Eq)]
pub struct RecordRatingArgs {
    pub problem_id: i64,
    pub rating: Rating,
    pub idempotency_key: String,
}

} // verus!
