use rutip::notify::Backoff;
use rutip::request::User;
use rutip::state::{AppInfo, Server};
use rutip::tick::Scheduler;

#[test]
fn backoff_doubles_and_saturates() {
    let mut b = Backoff::new();
    assert_eq!(b.gap(), 10);
    let mut gaps = Vec::new();
    for k in 0..10 {
        b.record(30000 + k);
        gaps.push(b.gap());
    }
    assert_eq!(gaps, vec![20, 40, 80, 160, 320, 640, 1280, 2560, 3600, 3600]);
    b.reset();
    assert_eq!(b.gap(), 10);
    assert_eq!(b.last_time(), Some(30009));
}

#[test]
fn eligibility_gate() {
    let mut b = Backoff::new();
    assert!(b.is_eligible(1000, 28800, true));
    assert!(b.is_eligible(1000, 77400, true));
    assert!(!b.is_eligible(1000, 28799, true));
    assert!(!b.is_eligible(1000, 77401, true));
    assert!(!b.is_eligible(1000, 40000, false));
    b.record(40000);
    assert!(!b.is_eligible(40020, 50000, true));
    assert!(b.is_eligible(40021, 50000, true));
}

#[test]
fn spacing_counts_across_midnight() {
    let mut b = Backoff::new();
    // 21:20:00 on one day, then 08:00:00 on the next
    let evening: i64 = 1_710_105_600 + 76_800;
    let morning: i64 = 1_710_105_600 + 86_400 + 28_800;
    for _ in 0..9 {
        b.record(evening);
    }
    assert_eq!(b.gap(), 3600);
    assert!(b.is_eligible(morning, 28_800, true));
    assert!(!b.is_eligible(evening + 3600, 80_400, true));
}

#[test]
fn reset_on_new_holder() {
    let mut s = Scheduler::new(AppInfo::new(Server::new(String::new(), String::new())));
    s.backoff.record(40000);
    s.backoff.record(40100);
    assert_eq!(s.backoff.gap(), 40);
    let u = User::from_parts(false, false, 1, "a@x.com".to_string(), 0);
    s.merge(vec![u]);
    assert_eq!(s.backoff.gap(), 40);
    assert!(s.update(0));
    assert_eq!(s.backoff.gap(), 10);
    s.backoff.record(40200);
    assert!(!s.update(0));
    assert_eq!(s.backoff.gap(), 20);
}
