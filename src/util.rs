use vstd::prelude::*;
use crate::clock::clock_now;
use crate::config::DAY_SECONDS;

verus! {

/// Why an argument was refused before it reaches the scheduler.
#[derive(Debug, Clone, Copy, PartialEq, Eq, Structural)]
pub enum UtilError {
    /// The date or date-time lies in the past.
    TimeLateErr,
    /// The date or time does not parse.
    ParseError,
    /// The address is not well formed.
    FormatError,
}

/// Shape that an address must have.
pub const EMAIL_PATTERN: &'static str = "^[A-Za-z\\d]+([-_.][A-Za-z\\d]+)*@([A-Za-z\\d]+[-.])+[A-Za-z\\d]{2,4}$";

/// Layout of a date.
pub const DATE_FORMAT: &'static str = "%Y-%m-%d";

/// Layout of a date and a time of day, separated by one space.
pub const DATE_TIME_FORMAT: &'static str = "%Y-%m-%d %H:%M:%S";

/// Whether `pattern` compiles (`Some`) and then matches `text` somewhere.
pub uninterp spec fn regex_match(pattern: Seq<char>, text: Seq<char>) -> Option<bool>;

/// The matches of `pattern` in `text`, left to right and without overlap,
/// when the pattern compiles.
pub uninterp spec fn regex_matches(pattern: Seq<char>, text: Seq<char>) -> Option<Seq<Seq<char>>>;

/// Relies on `regex::Regex::new` (an error for a pattern that does not
/// compile) and `Regex::find_iter`, each match's text taken whole.
#[verifier::external_body]
pub(crate) fn regex_find_all(pattern: &str, text: &str) -> (r: Option<Vec<String>>)
    ensures
        r matches Some(v) ==> regex_matches(pattern@, text@) == Some(v@.map_values(|x: String| x@)),
        r is None ==> regex_matches(pattern@, text@) is None,
{
    match regex::Regex::new(pattern) {
        Ok(re) => Some(re.find_iter(text).map(|m| m.as_str().to_string()).collect()),
        Err(_) => None,
    }
}

/// The date that `text` spells in layout `fmt`, as naive seconds of its midnight.
pub uninterp spec fn parsed_date(text: Seq<char>, fmt: Seq<char>) -> Option<int>;

/// The date-time that `text` spells in layout `fmt`, as naive seconds.
pub uninterp spec fn parsed_date_time(text: Seq<char>, fmt: Seq<char>) -> Option<int>;

/// Relies on `regex::Regex::new` (an error for a pattern that does not
/// compile) and `Regex::is_match`.
#[verifier::external_body]
fn regex_is_match(pattern: &str, text: &str) -> (r: Option<bool>)
    ensures
        r == regex_match(pattern@, text@),
{
    match regex::Regex::new(pattern) {
        Ok(re) => Some(re.is_match(text)),
        Err(_) => None,
    }
}

/// Relies on chrono's `NaiveDate::parse_from_str`, with the date taken at
/// midnight and counted in seconds by `and_utc().timestamp()`.
#[verifier::external_body]
pub(crate) fn parse_date(text: &str, fmt: &str) -> (r: Option<i64>)
    ensures
        r matches Some(d) ==> parsed_date(text@, fmt@) == Some(d as int),
        r matches Some(d) ==> (d as int) % 86400 == 0,
        r is None ==> parsed_date(text@, fmt@) is None,
{
    chrono::NaiveDate::parse_from_str(text, fmt)
        .ok()
        .map(|d| chrono::NaiveDateTime::from(d).and_utc().timestamp())
}

/// Relies on chrono's `NaiveDateTime::parse_from_str`, counted in seconds by
/// `and_utc().timestamp()`.
#[verifier::external_body]
pub(crate) fn parse_date_time(text: &str, fmt: &str) -> (r: Option<i64>)
    ensures
        r matches Some(d) ==> parsed_date_time(text@, fmt@) == Some(d as int),
        r is None ==> parsed_date_time(text@, fmt@) is None,
{
    chrono::NaiveDateTime::parse_from_str(text, fmt).ok().map(|d| d.and_utc().timestamp())
}

/// Validation of command arguments.
pub struct Util;

impl Util {
    /// `Ok(true)` when the address has the shape of `EMAIL_PATTERN`, else `FormatError`.
    pub fn check_email(email: &str) -> (r: Result<bool, UtilError>)
        ensures
            r is Ok <==> regex_match(EMAIL_PATTERN@, email@) == Some(true),
            r matches Ok(b) ==> b,
            r matches Err(e) ==> e == UtilError::FormatError,
    {
        match regex_is_match(EMAIL_PATTERN, email) {
            Some(true) => Ok(true),
            _ => Err(UtilError::FormatError),
        }
    }

    /// A date in `DATE_FORMAT` checked against the local time `now_local`:
    /// `ParseError` when it does not parse, `TimeLateErr` when the whole day
    /// has passed, else its midnight.
    pub fn check_date_at(date: &str, now_local: i64) -> (r: Result<i64, UtilError>)
        ensures
            r == match parsed_date(date@, DATE_FORMAT@) {
                None => Err(UtilError::ParseError),
                Some(d) => if d + DAY_SECONDS <= now_local {
                    Err(UtilError::TimeLateErr)
                } else {
                    Ok(d as i64)
                },
            },
            r matches Ok(d) ==> parsed_date(date@, DATE_FORMAT@) == Some(d as int),
            (r matches Err(UtilError::TimeLateErr)) <==> (parsed_date(date@, DATE_FORMAT@) matches Some(d)
                && d < now_local - (now_local as int) % (DAY_SECONDS as int)),
    {
        match parse_date(date, DATE_FORMAT) {
            None => Err(UtilError::ParseError),
            Some(d) => {
                proof {
                    lemma_midnight_before(d as int, now_local as int);
                }
                if (d as i128) + (DAY_SECONDS as i128) <= now_local as i128 {
                    Err(UtilError::TimeLateErr)
                } else {
                    Ok(d)
                }
            },
        }
    }

    /// `check_date_at` against the local time now.
    pub fn check_date(date: &str) -> (r: Result<i64, UtilError>)
        ensures
            (r matches Err(UtilError::ParseError)) <==> parsed_date(date@, DATE_FORMAT@) is None,
            r matches Ok(d) ==> parsed_date(date@, DATE_FORMAT@) == Some(d as int),
            r matches Err(e) ==> e != UtilError::FormatError,
    {
        let clock = clock_now();
        Util::check_date_at(date, clock.local)
    }

    /// A date and a time of day, joined by a space and read in
    /// `DATE_TIME_FORMAT`, checked against the local time `now_local`:
    /// `ParseError` when it does not parse, `TimeLateErr` when it is before
    /// `now_local`, else its value.
    pub fn check_date_time_at(date: &str, time: &str, now_local: i64) -> (r: Result<i64, UtilError>)
        ensures
            r == match parsed_date_time(date@ + seq![' '] + time@, DATE_TIME_FORMAT@) {
                None => Err(UtilError::ParseError),
                Some(t) => if t < now_local {
                    Err(UtilError::TimeLateErr)
                } else {
                    Ok(t as i64)
                },
            },
            r matches Ok(t) ==> parsed_date_time(date@ + seq![' '] + time@, DATE_TIME_FORMAT@) == Some(t as int),
    {
        let mut text = String::from_str(date);
        text.append(" ");
        text.append(time);
        proof {
            reveal_strlit(" ");
            assert(text@ =~= date@ + seq![' '] + time@);
        }
        match parse_date_time(text.as_str(), DATE_TIME_FORMAT) {
            None => Err(UtilError::ParseError),
            Some(t) => {
                if t < now_local {
                    Err(UtilError::TimeLateErr)
                } else {
                    Ok(t)
                }
            },
        }
    }

    /// `check_date_time_at` against the local time now.
    pub fn check_date_time(date: &str, time: &str) -> (r: Result<i64, UtilError>)
        ensures
            (r matches Err(UtilError::ParseError))
                <==> parsed_date_time(date@ + seq![' '] + time@, DATE_TIME_FORMAT@) is None,
            r matches Ok(t) ==> parsed_date_time(date@ + seq![' '] + time@, DATE_TIME_FORMAT@) == Some(t as int),
            r matches Err(e) ==> e != UtilError::FormatError,
    {
        let clock = clock_now();
        Util::check_date_time_at(date, time, clock.local)
    }
}

/// A midnight `d` lies a whole day or more before `n` exactly when it comes
/// before the midnight that starts the day of `n`.
proof fn lemma_midnight_before(d: int, n: int)
    requires
        d % 86400 == 0,
    ensures
        (d + 86400 <= n) == (d < n - n % 86400),
{
    let q = d / 86400;
    let p = n / 86400;
    assert(d == 86400 * q) by (nonlinear_arith)
        requires d % 86400 == 0, q == d / 86400;
    assert(n == 86400 * p + n % 86400 && 0 <= n % 86400 < 86400) by (nonlinear_arith)
        requires p == n / 86400;
    assert((86400 * q + 86400 <= 86400 * p + n % 86400) == (86400 * q < 86400 * p)) by (nonlinear_arith)
        requires 0 <= n % 86400 < 86400;
}

} // verus!
