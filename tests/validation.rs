use rutip::clock::Clock;
use rutip::request::User;
use rutip::util::{Util, UtilError};

#[test]
fn email_shapes() {
    assert_eq!(Util::check_email("alice.b@mail.example.com"), Ok(true));
    assert_eq!(Util::check_email("a-b_c@x-y.org"), Ok(true));
    assert_eq!(Util::check_email("not an email"), Err(UtilError::FormatError));
    assert_eq!(Util::check_email("a@b.c"), Err(UtilError::FormatError));
    assert_eq!(Util::check_email(""), Err(UtilError::FormatError));
}

// 2024-03-10 12:00:00 as naive seconds
const NOON: i64 = 1_710_072_000;
// 2024-03-10 00:00:00
const MIDNIGHT: i64 = 1_710_028_800;

#[test]
fn date_checks() {
    assert_eq!(Util::check_date_at("2024-03-10", NOON), Ok(MIDNIGHT));
    assert_eq!(Util::check_date_at("2024-03-11", NOON), Ok(MIDNIGHT + 86400));
    assert_eq!(Util::check_date_at("2024-03-09", NOON), Err(UtilError::TimeLateErr));
    assert_eq!(Util::check_date_at("2024-13-09", NOON), Err(UtilError::ParseError));
    assert_eq!(Util::check_date_at("yesterday", NOON), Err(UtilError::ParseError));
}

#[test]
fn date_time_checks() {
    assert_eq!(Util::check_date_time_at("2024-03-10", "12:00:00", NOON), Ok(NOON));
    assert_eq!(Util::check_date_time_at("2024-03-10", "14:30:00", NOON), Ok(NOON + 9000));
    assert_eq!(Util::check_date_time_at("2024-03-10", "11:59:59", NOON), Err(UtilError::TimeLateErr));
    assert_eq!(Util::check_date_time_at("2024-03-10", "25:00:00", NOON), Err(UtilError::ParseError));
    assert!(Util::check_date_time("2999-01-01", "08:00:00").is_ok());
    assert_eq!(Util::check_date("2000-01-01"), Err(UtilError::TimeLateErr));
}

#[test]
fn request_targets() {
    let clock = Clock { timestamp: 5, local: NOON, time_of_day: 43200 };
    let u = User::new_at("a@x.com".to_string(), Some(MIDNIGHT), Some(3600), true, false, clock);
    assert_eq!(u.date_time(), MIDNIGHT + 3600);
    assert_eq!(u.timestamp(), 5);
    assert!(u.urg());
    let v = User::new_at("a@x.com".to_string(), Some(MIDNIGHT), None, false, true, clock);
    assert_eq!(v.date_time(), NOON);
    assert!(v.finish());
    let w = User::new("b@x.com".to_string(), None, None, false, false);
    assert_eq!(w.email(), "b@x.com");
}

#[test]
fn wire_text_round_trip() {
    let u = User::from_parts(true, false, 9, "a@x.com".to_string(), NOON + 61);
    let text = u.date_time_text().unwrap();
    assert_eq!(text, "2024-03-10 12:01:01");
    let back = User::from_wire(true, false, 9, "a@x.com".to_string(), &text).unwrap();
    assert_eq!(back.date_time(), NOON + 61);
    assert!(User::from_wire(true, false, 9, "a@x.com".to_string(), "12:01").is_none());
}
