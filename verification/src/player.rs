//! Player-facing session data: board-size preference and completion
//! statistics.
//!
//! Times are carried as plain integers: a finish instant is a count of
//! milliseconds since the Unix epoch, a duration a count of milliseconds.

use vstd::prelude::*;

verus! {

/// Settings a player brings into a session.
#[derive(Clone, Copy, Debug, PartialEq, Eq, Structural)]
pub struct PlayerSettings {
    /// The board is `num_rows_cols` x `num_rows_cols` tiles.
    pub num_rows_cols: usize,
}

/// What one side measured when its board reached the solved layout.
#[derive(Clone, Copy, Debug, PartialEq, Eq, Structural)]
pub struct PuzzleStatistics {
    /// Milliseconds since the Unix epoch at the moment the board was solved.
    pub finish_time: i64,
    /// Milliseconds elapsed between session start and the finish.
    pub duration: u64,
    /// Number of interactive moves the player made.
    pub move_count: u32,
}

/// Relies on chrono::Local::now and DateTime::timestamp_millis: the wall
/// clock, read as milliseconds since the Unix epoch. Nothing is promised
/// of the value; callers state what holds whatever instant comes back.
#[verifier::external_body]
pub(crate) fn now_millis() -> i64 {
    chrono::Local::now().timestamp_millis()
}

/// The milliseconds elapsed from `start` to `end`, clamped below at zero
/// (a clock that stepped backwards yields an empty duration).
pub open spec fn spec_duration_millis(start: i64, end: i64) -> u64 {
    if end >= start {
        (end - start) as u64
    } else {
        0
    }
}

/// Computes the elapsed milliseconds between two clock readings,
/// clamped below at zero.
pub fn duration_millis(start: i64, end: i64) -> (d: u64)
    ensures
        d == spec_duration_millis(start, end),
{
    if end >= start {
        let wide: i128 = (end as i128) - (start as i128);
        wide as u64
    } else {
        0
    }
}

} // verus!
