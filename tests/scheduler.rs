use rutip::request::User;
use rutip::state::{AppInfo, Server};
use rutip::tick::{NoticeKind, Scheduler};

const NOW: i64 = 1_700_000_000;

fn user(email: &str, urg: bool, finish: bool, timestamp: i64, date_time: i64) -> User {
    User::from_parts(urg, finish, timestamp, email.to_string(), date_time)
}

fn empty() -> AppInfo {
    AppInfo::new(Server::new("host@example.com".to_string(), "pw".to_string()))
}

fn emails(info: &AppInfo) -> Vec<String> {
    info.user_info.iter().map(|u| u.email().clone()).collect()
}

#[test]
fn last_upsert_wins_whole() {
    let mut info = empty();
    info.upsert(user("a@x.com", true, false, 1, NOW));
    info.upsert(user("b@x.com", false, false, 2, NOW));
    info.upsert(user("a@x.com", false, true, 3, NOW + 5));
    info.upsert(user("a@x.com", false, false, 4, NOW + 7));
    assert_eq!(info.user_info.len(), 2);
    let i = info.find(&"a@x.com".to_string()).unwrap();
    let a = &info.user_info[i];
    assert!(!a.urg());
    assert!(!a.finish());
    assert_eq!(a.timestamp(), 4);
    assert_eq!(a.date_time(), NOW + 7);
}

#[test]
fn selection_ranks_urgent_then_earliest() {
    let mut info = empty();
    info.upsert(user("a@x.com", true, false, 5, NOW));
    info.upsert(user("b@x.com", false, false, 1, NOW));
    info.upsert(user("c@x.com", true, false, 2, NOW));
    let mut order = Vec::new();
    while let Some(u) = info.get_new_user(NOW) {
        order.push(u.email().clone());
        let i = info.find(u.email()).unwrap();
        info.user_info.remove(i);
    }
    assert_eq!(order, vec!["c@x.com", "a@x.com", "b@x.com"]);
}

#[test]
fn horizon_prefers_sooner_target() {
    let mut info = empty();
    info.upsert(user("far@x.com", true, false, 1, NOW + 20 * 3600));
    info.upsert(user("near@x.com", true, false, 2, NOW + 3 * 3600));
    let u = info.get_new_user(NOW).unwrap();
    assert_eq!(u.email(), "near@x.com");
}

#[test]
fn horizon_falls_back_to_top_rank() {
    let mut info = empty();
    info.upsert(user("far@x.com", true, false, 1, NOW + 20 * 3600));
    info.upsert(user("farther@x.com", true, false, 2, NOW + 30 * 3600));
    let u = info.get_new_user(NOW).unwrap();
    assert_eq!(u.email(), "far@x.com");
    assert!(empty().get_new_user(NOW).is_none());
}

#[test]
fn horizon_edge_is_inclusive() {
    let mut info = empty();
    info.upsert(user("top@x.com", true, false, 1, NOW + 36001));
    info.upsert(user("edge@x.com", false, false, 2, NOW + 36000));
    let u = info.get_new_user(NOW).unwrap();
    assert_eq!(u.email(), "edge@x.com");
}

#[test]
fn equal_rank_keeps_insertion_order() {
    let mut info = empty();
    info.upsert(user("first@x.com", false, false, 7, NOW));
    info.upsert(user("second@x.com", false, false, 7, NOW));
    assert_eq!(info.get_new_user(NOW).unwrap().email(), "first@x.com");
}

#[test]
fn update_drops_finished_and_reselects() {
    let mut info = empty();
    info.upsert(user("a@x.com", false, false, 1, NOW));
    info.upsert(user("b@x.com", false, true, 2, NOW));
    assert!(info.update_current_user(NOW));
    assert_eq!(emails(&info), vec!["a@x.com"]);
    assert_eq!(info.curr_user.as_ref().unwrap().email(), "a@x.com");
    assert!(!info.update_current_user(NOW));
    info.user_info.clear();
    assert!(info.update_current_user(NOW));
    assert!(info.curr_user.is_none());
}

#[test]
fn finished_holder_is_released_within_one_tick() {
    let mut s = Scheduler::new(empty());
    let out = s.tick(
        vec![user("a@x.com", false, false, 1, NOW), user("b@x.com", false, false, 2, NOW)],
        NOW, 4000, 8000, 90, 36000,
    );
    assert!(!out.stop);
    assert_eq!(out.mails.len(), 2);
    assert_eq!(out.mails[0].kind, NoticeKind::Reserved);
    assert_eq!(s.info.curr_user.as_ref().unwrap().email(), "a@x.com");
    let out = s.tick(vec![user("a@x.com", false, true, 3, NOW)], NOW, 4000, 8000, 90, 36000);
    assert!(!out.stop);
    assert_eq!(out.mails.len(), 1);
    assert_eq!(out.mails[0].email, "a@x.com");
    assert_eq!(out.mails[0].kind, NoticeKind::Released);
    assert_eq!(emails(&s.info), vec!["b@x.com"]);
    assert_eq!(s.info.curr_user.as_ref().unwrap().email(), "b@x.com");
    let out = s.tick(vec![user("b@x.com", false, true, 4, NOW)], NOW, 4000, 8000, 90, 36000);
    assert_eq!(out.mails.len(), 1);
    assert!(s.info.curr_user.is_none());
    assert!(s.info.user_info.is_empty());
}

#[test]
fn sentinel_stops_after_finishing_the_cycle() {
    let mut s = Scheduler::new(empty());
    s.tick(vec![user("old@x.com", false, false, 1, NOW)], NOW, 0, 8000, 0, 36000);
    let out = s.tick(
        vec![
            user("a@x.com", false, false, 2, NOW),
            user("old@x.com", false, true, 3, NOW),
            user("stop@stop.stop", false, true, 4, NOW),
            user("b@x.com", false, false, 5, NOW),
        ],
        NOW, 0, 8000, 0, 36001,
    );
    assert!(out.stop);
    assert_eq!(out.merged, 2);
    assert_eq!(out.mails.len(), 2);
    assert_eq!(out.mails[1].kind, NoticeKind::Released);
    assert_eq!(emails(&s.info), vec!["a@x.com"]);
    assert_eq!(s.info.curr_user.as_ref().unwrap().email(), "a@x.com");
    assert!(user("stop@stop.stop", false, true, 2, NOW).is_stop());
    assert!(!user("stop@stop.stopx", false, true, 2, NOW).is_stop());
}

#[test]
fn idle_holder_gets_notified_with_backoff() {
    let mut s = Scheduler::new(empty());
    let out = s.tick(vec![user("a@x.com", false, false, 1, NOW)], NOW, 0, 8000, 0, 36000);
    assert_eq!(out.mails.len(), 1);
    let mut sent = Vec::new();
    for k in 0..6 {
        let out = s.tick(Vec::new(), NOW + k, 0, 8000, 0, 36001 + k);
        sent.extend(out.mails);
    }
    assert_eq!(sent.len(), 1);
    assert_eq!(sent[0].kind, NoticeKind::Idle);
    assert_eq!(sent[0].email, "a@x.com");
    assert_eq!(s.backoff.gap(), 20);
    assert_eq!(s.backoff.last_time(), Some(NOW + 4));
}

#[test]
fn no_notice_outside_window() {
    let mut s = Scheduler::new(empty());
    s.tick(vec![user("a@x.com", false, false, 1, NOW)], NOW, 0, 8000, 0, 3600);
    let mut sent = 0;
    for k in 0..12 {
        sent += s.tick(Vec::new(), NOW, 0, 8000, 0, 3601 + k).mails.len();
    }
    assert_eq!(sent, 0);
    assert_eq!(s.backoff.gap(), 10);
}

#[test]
fn low_efficiency_notice() {
    let mut s = Scheduler::new(empty());
    s.tick(vec![user("a@x.com", false, false, 1, NOW)], NOW, 2000, 8000, 20, 50000);
    let mut sent = Vec::new();
    for k in 0..6 {
        sent.extend(s.tick(Vec::new(), NOW, 2000, 8000, 20, 50001 + k).mails);
    }
    assert_eq!(sent.len(), 1);
    assert_eq!(sent[0].kind, NoticeKind::LowEfficiency);
}
