use vstd::prelude::*;
use crate::clock::{clock_now, Clock};
use crate::config::DAY_SECONDS;
use std::fmt::Write;
use crate::util::{parse_date_time, parsed_date_time, DATE_TIME_FORMAT};

verus! {

/// The reserved address whose submission shuts the scheduler down.
pub open spec fn stop_email() -> Seq<char> {
    seq!['s', 't', 'o', 'p', '@', 's', 't', 'o', 'p', '.', 's', 't', 'o', 'p']
}

/// What a request holds: date-times are naive local seconds since the Unix
/// epoch, `timestamp` is the submission instant in Unix seconds.
pub struct UserView {
    pub urg: bool,
    pub finish: bool,
    pub timestamp: int,
    pub email: Seq<char>,
    pub date_time: int,
}

/// Largest magnitude accepted for a calendar date or date-time, in seconds.
pub const DATE_LIMIT: i64 = 1_000_000_000_000_000;

/// The target time that a request built from `date` and `time` gets: the
/// given date and time of day, or the local time now when either is missing.
pub open spec fn target_of(date: Option<i64>, time: Option<i64>, local_now: int) -> int {
    if date.is_some() && time.is_some() {
        date.unwrap() + time.unwrap()
    } else {
        local_now
    }
}

/// Bounds that a date (midnight, in seconds) and a time of day must meet.
pub open spec fn date_parts_ok(date: Option<i64>, time: Option<i64>) -> bool {
    &&& (date.is_some() ==> -DATE_LIMIT <= date.unwrap() <= DATE_LIMIT)
    &&& (time.is_some() ==> 0 <= time.unwrap() < DAY_SECONDS)
}

/// The text that naive date-time `t` (seconds since the epoch) reads as in layout `fmt`.
pub uninterp spec fn formatted_date_time(t: int, fmt: Seq<char>) -> Option<Seq<char>>;

/// Relies on chrono's `DateTime::from_timestamp` (none outside chrono's
/// range) and `format`, on the naive value, written with `write!` so that a
/// layout chrono cannot render gives none.
#[verifier::external_body]
fn format_date_time(t: i64, fmt: &str) -> (r: Option<String>)
    ensures
        r matches Some(s) ==> formatted_date_time(t as int, fmt@) == Some(s@),
        r is None ==> formatted_date_time(t as int, fmt@) is None,
{
    let d = chrono::DateTime::from_timestamp(t, 0)?;
    let mut out = String::new();
    match write!(out, "{}", d.naive_utc().format(fmt)) {
        Ok(()) => Some(out),
        Err(_) => None,
    }
}

/// One requester's reservation intent.
#[derive(Debug)]
pub struct User {
    urg: bool,
    finish: bool,
    timestamp: i64,
    email: String,
    date_time: i64,
}

impl View for User {
    type V = UserView;

    closed spec fn view(&self) -> UserView {
        UserView {
            urg: self.urg,
            finish: self.finish,
            timestamp: self.timestamp as int,
            email: self.email@,
            date_time: self.date_time as int,
        }
    }
}

impl Clone for User {
    fn clone(&self) -> (r: User)
        ensures
            r@ == self@,
    {
        User {
            urg: self.urg,
            finish: self.finish,
            timestamp: self.timestamp,
            email: self.email.clone(),
            date_time: self.date_time,
        }
    }
}

impl User {
    /// A request stamped with the clock reading `clock`; without both a date
    /// and a time of day its target is the local time of that reading.
    pub fn new_at(
        email: String,
        date: Option<i64>,
        time: Option<i64>,
        urg: bool,
        finish: bool,
        clock: Clock,
    ) -> (r: User)
        requires
            date_parts_ok(date, time),
        ensures
            r@ == (UserView {
                urg,
                finish,
                timestamp: clock.timestamp as int,
                email: email@,
                date_time: target_of(date, time, clock.local as int),
            }),
    {
        let date_time: i64 = match (date, time) {
            (Some(d), Some(t)) => d + t,
            _ => clock.local,
        };
        User { urg, finish, timestamp: clock.timestamp, email, date_time }
    }

    /// A request stamped with the current time.
    pub fn new(email: String, date: Option<i64>, time: Option<i64>, urg: bool, finish: bool) -> (r: User)
        requires
            date_parts_ok(date, time),
        ensures
            exists|c: Clock| r@ == (UserView {
                urg,
                finish,
                timestamp: c.timestamp as int,
                email: email@,
                date_time: target_of(date, time, c.local as int),
            }),
    {
        let clock = clock_now();
        User::new_at(email, date, time, urg, finish, clock)
    }

    /// A request with every field given.
    pub fn from_parts(urg: bool, finish: bool, timestamp: i64, email: String, date_time: i64) -> (r: User)
        ensures
            r@ == (UserView {
                urg,
                finish,
                timestamp: timestamp as int,
                email: email@,
                date_time: date_time as int,
            }),
    {
        User { urg, finish, timestamp, email, date_time }
    }

    /// A request as it travels: its target time written in `DATE_TIME_FORMAT`;
    /// `None` when that text does not parse.
    pub fn from_wire(urg: bool, finish: bool, timestamp: i64, email: String, date_time: &str) -> (r: Option<User>)
        ensures
            r is None <==> parsed_date_time(date_time@, DATE_TIME_FORMAT@) is None,
            r matches Some(u) ==> parsed_date_time(date_time@, DATE_TIME_FORMAT@) == Some(u@.date_time)
                && u@.urg == urg && u@.finish == finish && u@.timestamp == timestamp
                && u@.email == email@,
    {
        match parse_date_time(date_time, DATE_TIME_FORMAT) {
            Some(t) => Some(User { urg, finish, timestamp, email, date_time: t }),
            None => None,
        }
    }

    /// The target time written in `DATE_TIME_FORMAT`, as it travels.
    pub fn date_time_text(&self) -> (r: Option<String>)
        ensures
            r matches Some(s) ==> formatted_date_time(self@.date_time, DATE_TIME_FORMAT@) == Some(s@),
            r is None ==> formatted_date_time(self@.date_time, DATE_TIME_FORMAT@) is None,
    {
        format_date_time(self.date_time, DATE_TIME_FORMAT)
    }

    pub fn urg(&self) -> (r: bool)
        ensures
            r == self@.urg,
    {
        self.urg
    }

    pub fn finish(&self) -> (r: bool)
        ensures
            r == self@.finish,
    {
        self.finish
    }

    pub fn timestamp(&self) -> (r: i64)
        ensures
            r as int == self@.timestamp,
    {
        self.timestamp
    }

    pub fn email(&self) -> (r: &String)
        ensures
            r@ == self@.email,
    {
        &self.email
    }

    pub fn date_time(&self) -> (r: i64)
        ensures
            r as int == self@.date_time,
    {
        self.date_time
    }

    /// Whether this is the shutdown sentinel.
    pub fn is_stop(&self) -> (r: bool)
        ensures
            r == (self@.email == stop_email()),
    {
        let stop = String::from_str("stop@stop.stop");
        proof {
            reveal_strlit("stop@stop.stop");
            assert(stop@ =~= stop_email());
        }
        self.email == stop
    }
}

} // verus!
