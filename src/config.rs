use vstd::prelude::*;

verus! {

/// Consecutive idle polls that must be exceeded before the idle signal fires.
pub const DEVICE_FREE: u32 = 5;

/// Consecutive low-efficiency polls that must be exceeded before that signal fires.
pub const DEVICE_LOW_EFFICIENCY: u32 = 5;

/// Base notification backoff, in seconds.
pub const TIME_GAP_SECONDS: i64 = 10;

/// Largest notification backoff, in seconds.
pub const TIME_GAP_MAX_SECONDS: i64 = 3600;

/// How far ahead of now a target time may lie and still count as due, in seconds.
pub const HORIZON_SECONDS: i64 = 36000;

/// Start of the daily window in which notifications go out (08:00:00), seconds of the day.
pub const WINDOW_START: i64 = 28800;

/// End of the daily window in which notifications go out (21:30:00), seconds of the day.
pub const WINDOW_END: i64 = 77400;

/// Seconds in a day.
pub const DAY_SECONDS: i64 = 86400;

} // verus!
