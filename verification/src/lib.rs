//! Spaced-repetition bookkeeping for LeetCode problems: problem identity,
//! review events, daily queue windows and assignments, settings, backup
//! validation and the decisions behind the local storage and loopback API.

pub mod backup;
pub mod calendar;
pub mod commands;
pub mod daily_queue;
pub mod digest;
pub mod entropy;
pub mod integration;
pub mod learning;
pub mod problems;
pub mod settings;
pub mod storage;
pub mod text;
