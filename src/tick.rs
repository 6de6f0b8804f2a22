use vstd::prelude::*;
use crate::monitor::{debounce, idle_reading, low_reading, MonitorView, Nvidia};
use crate::config::{DEVICE_FREE, DEVICE_LOW_EFFICIENCY, TIME_GAP_SECONDS};
use crate::notify::{eligible, next_gap, Backoff, BackoffView};
use crate::request::{stop_email, User, UserView};
use crate::state::{
    has_email, needs_reselect, refreshed, selected, unfinished, unique_emails, upsert,
    upsert_all, views, AppInfo,
};

verus! {

/// What a notification is about.
#[derive(Debug, Clone, Copy, PartialEq, Eq, Structural)]
pub enum NoticeKind {
    /// A reservation was recorded.
    Reserved,
    /// A reservation was released.
    Released,
    /// The device looks idle.
    Idle,
    /// The device runs with low efficiency.
    LowEfficiency,
}

pub struct MailView {
    pub email: Seq<char>,
    pub kind: NoticeKind,
}

/// A notification to send.
#[derive(Debug)]
pub struct Mail {
    pub email: String,
    pub kind: NoticeKind,
}

impl View for Mail {
    type V = MailView;

    open spec fn view(&self) -> MailView {
        MailView { email: self.email@, kind: self.kind }
    }
}

pub open spec fn mail_opt(m: Option<Mail>) -> Option<MailView> {
    match m {
        Some(x) => Some(x@),
        None => None,
    }
}

/// The backoff after an update cycle: back to the base spacing when a holder
/// was picked anew, unchanged otherwise.
pub open spec fn backoff_after_update(b: BackoffView, reselected: bool) -> BackoffView {
    if reselected {
        BackoffView { gap: TIME_GAP_SECONDS as int, ..b }
    } else {
        b
    }
}

/// One utilization check: from counters `g0`, backoff `b0` and holder
/// `active`, the reading (`used`, `total`, `ratio`) taken at `now` (time of
/// day `tod`) leaves counters `g1`, backoff `b1`, and `mail` to send.
/// There is mail exactly when the eligibility test passes and one of the
/// two counters reaches its limit; idle is named before low efficiency;
/// each mail doubles the spacing up to the maximum.
pub open spec fn monitor_step(
    g0: MonitorView,
    b0: BackoffView,
    active: Option<UserView>,
    used: int,
    total: int,
    ratio: int,
    now: int,
    tod: int,
    g1: MonitorView,
    b1: BackoffView,
    mail: Option<MailView>,
) -> bool {
    let (fc, idle) = debounce(g0.free_count, idle_reading(used, total, ratio), DEVICE_FREE as int);
    let (lc, low) = debounce(g0.low_count, low_reading(used, total, ratio), DEVICE_LOW_EFFICIENCY as int);
    let open = eligible(b0, now, tod, active is Some);
    &&& g1 == (MonitorView { used, total, ratio, free_count: fc, low_count: lc })
    &&& (mail is Some <==> open && (idle || low))
    &&& (mail matches Some(m) ==> m == (MailView {
            email: active.unwrap().email,
            kind: if idle { NoticeKind::Idle } else { NoticeKind::LowEfficiency },
        }))
    &&& (mail is Some ==> b1 == (BackoffView { last: Some(now), gap: next_gap(b0.gap) }))
    &&& (mail is None ==> b1 == b0)
}

pub open spec fn mail_views(m: Seq<Mail>) -> Seq<MailView> {
    m.map_values(|x: Mail| x@)
}

/// The acknowledgement that a submission gets: released when it is finished,
/// recorded otherwise.
pub open spec fn ack_of(u: UserView) -> MailView {
    MailView { email: u.email, kind: if u.finish { NoticeKind::Released } else { NoticeKind::Reserved } }
}

/// What merging a batch did: whether it met the sentinel, how many
/// submissions it merged before that, and the acknowledgements to send.
pub struct MergeOutcome {
    pub stop: bool,
    pub merged: usize,
    pub mails: Vec<Mail>,
}

/// What a tick did: whether it met the sentinel, how many submissions it
/// merged, and the notifications to send, acknowledgements first.
pub struct TickOutcome {
    pub stop: bool,
    pub merged: usize,
    pub mails: Vec<Mail>,
}

/// The resident scheduler's state: reservations, monitor and backoff.
#[derive(Debug)]
pub struct Scheduler {
    pub info: AppInfo,
    pub gpu: Nvidia,
    pub backoff: Backoff,
}

impl Scheduler {
    pub open spec fn wf(&self) -> bool {
        &&& self.info.wf()
        &&& self.gpu.wf()
        &&& self.backoff.wf()
    }

    /// A scheduler over `info`, with a fresh monitor and base backoff.
    pub fn new(info: AppInfo) -> (r: Scheduler)
        requires
            info.wf(),
        ensures
            r.wf(),
            r.info == info,
            r.gpu@.free_count == 0 && r.gpu@.low_count == 0,
            r.backoff@.last is None,
            r.backoff@.gap == crate::config::TIME_GAP_SECONDS,
    {
        Scheduler { info, gpu: Nvidia::new(), backoff: Backoff::new() }
    }

    /// Merges a drained batch in order: each submission is upserted and
    /// acknowledged, until the shutdown sentinel, which stops the merge and is
    /// never stored.
    pub fn merge(&mut self, users: Vec<User>) -> (out: MergeOutcome)
        requires
            old(self).wf(),
        ensures
            final(self).wf(),
            out.merged <= users@.len(),
            forall|i: int| 0 <= i < out.merged ==> (#[trigger] users@[i])@.email != stop_email(),
            out.stop == (out.merged < users@.len()),
            out.stop ==> users@[out.merged as int]@.email == stop_email(),
            final(self).info.pending() == upsert_all(old(self).info.pending(), views(users@).take(out.merged as int)),
            mail_views(out.mails@) == views(users@).take(out.merged as int).map_values(|u: UserView| ack_of(u)),
            final(self).info.active() == old(self).info.active(),
            final(self).info.server_info == old(self).info.server_info,
            final(self).gpu == old(self).gpu,
            final(self).backoff == old(self).backoff,
    {
        let ghost b = views(users@);
        let ghost s0 = self.info.pending();
        let mut mails: Vec<Mail> = Vec::new();
        let mut i: usize = 0;
        while i < users.len()
            invariant
                i <= users@.len(),
                b == views(users@),
                s0 == old(self).info.pending(),
                self.wf(),
                forall|j: int| 0 <= j < i ==> (#[trigger] users@[j])@.email != stop_email(),
                self.info.pending() == upsert_all(s0, b.take(i as int)),
                mail_views(mails@) == b.take(i as int).map_values(|u: UserView| ack_of(u)),
                self.info.active() == old(self).info.active(),
                self.info.server_info == old(self).info.server_info,
                self.gpu == old(self).gpu,
                self.backoff == old(self).backoff,
            decreases users@.len() - i,
        {
            let u = &users[i];
            assert(b[i as int] == u@);
            if u.is_stop() {
                return MergeOutcome { stop: true, merged: i, mails };
            }
            let ack = Mail {
                email: u.email().clone(),
                kind: if u.finish() { NoticeKind::Released } else { NoticeKind::Reserved },
            };
            let ghost prev = mails@;
            assert(ack@ == ack_of(u@));
            mails.push(ack);
            self.info.upsert(u.clone());
            proof {
                assert(mail_views(mails@) =~= mail_views(prev).push(ack_of(u@)));
                assert(b.take(i as int + 1).map_values(|u: UserView| ack_of(u))
                    =~= b.take(i as int).map_values(|u: UserView| ack_of(u)).push(ack_of(u@)));
                assert(b.take(i as int + 1).drop_last() =~= b.take(i as int));
                assert(b.take(i as int + 1).last() == u@);
                assert(mail_views(mails@) =~= b.take(i as int + 1).map_values(|u: UserView| ack_of(u)));
            }
            i = i + 1;
        }
        MergeOutcome { stop: false, merged: i, mails }
    }

    /// Stores a utilization reading and decides whether to notify the holder:
    /// both debounced signals are polled, and when one fires and a
    /// notification is eligible at `now` (local seconds, time of day `tod`),
    /// one goes out and the backoff grows.
    pub fn dialog(&mut self, used: u16, total: u16, ratio: u8, now: i64, tod: i64) -> (r: Option<Mail>)
        requires
            old(self).wf(),
        ensures
            final(self).wf(),
            final(self).info == old(self).info,
            monitor_step(
                old(self).gpu@, old(self).backoff@, old(self).info.active(),
                used as int, total as int, ratio as int, now as int, tod as int,
                final(self).gpu@, final(self).backoff@, mail_opt(r),
            ),
    {
        let bound = self.backoff.is_eligible(now, tod, self.info.curr_user.is_some());
        self.gpu.record(used, total, ratio);
        let idle = self.gpu.is_free();
        let low = self.gpu.is_low_efficiency();
        if bound && (idle || low) {
            self.backoff.record(now);
            let kind = if idle { NoticeKind::Idle } else { NoticeKind::LowEfficiency };
            match &self.info.curr_user {
                Some(u) => Some(Mail { email: u.email().clone(), kind }),
                None => None,
            }
        } else {
            None
        }
    }

    /// One update cycle after a merge: the holder is refreshed, finished
    /// entries leave, and a newly picked holder starts at the base backoff.
    pub fn update(&mut self, now_local: i64) -> (reselected: bool)
        requires
            old(self).wf(),
        ensures
            final(self).wf(),
            final(self).info.pending() == unfinished(old(self).info.pending()),
            reselected == needs_reselect(refreshed(old(self).info.active(), old(self).info.pending())),
            !reselected ==> final(self).info.active() == refreshed(old(self).info.active(), old(self).info.pending()),
            reselected ==> selected(final(self).info.pending(), now_local as int, final(self).info.active()),
            final(self).backoff@ == backoff_after_update(old(self).backoff@, reselected),
            final(self).gpu == old(self).gpu,
            final(self).info.server_info == old(self).info.server_info,
    {
        let reselected = self.info.update_current_user(now_local);
        if reselected {
            self.backoff.reset();
        }
        reselected
    }

    /// One tick: merge the drained batch up to the sentinel, if any; run the
    /// update cycle at local time `now_local`; then, unless the sentinel was
    /// met, the utilization check at `now_local`, whose time of day is `tod`.
    pub fn tick(&mut self, users: Vec<User>, now_local: i64, used: u16, total: u16, ratio: u8, tod: i64) -> (out: TickOutcome)
        requires
            old(self).wf(),
        ensures
            final(self).wf(),
            final(self).info.server_info == old(self).info.server_info,
            ({
                let b = views(users@);
                let k = out.merged as int;
                let s1 = upsert_all(old(self).info.pending(), b.take(k));
                let r = refreshed(old(self).info.active(), s1);
                let b_mid = backoff_after_update(old(self).backoff@, needs_reselect(r));
                &&& k <= b.len()
                &&& forall|i: int| 0 <= i < k ==> (#[trigger] b[i]).email != stop_email()
                &&& out.stop == (k < b.len())
                &&& (out.stop ==> b[k].email == stop_email())
                &&& k <= out.mails@.len() <= k + 1
                &&& mail_views(out.mails@).take(k) == b.take(k).map_values(|u: UserView| ack_of(u))
                &&& final(self).info.pending() == unfinished(s1)
                &&& (!needs_reselect(r) ==> final(self).info.active() == r)
                &&& (needs_reselect(r) ==> selected(unfinished(s1), now_local as int, final(self).info.active()))
                &&& (out.stop ==> {
                    &&& out.mails@.len() == k
                    &&& final(self).backoff@ == b_mid
                    &&& final(self).gpu == old(self).gpu
                })
                &&& (!out.stop ==> monitor_step(
                    old(self).gpu@, b_mid, final(self).info.active(),
                    used as int, total as int, ratio as int, now_local as int, tod as int,
                    final(self).gpu@, final(self).backoff@,
                    if out.mails@.len() == k + 1 { Some(mail_views(out.mails@)[k]) } else { None },
                ))
            }),
    {
        let ghost users_ghost = users@;
        let merged = self.merge(users);
        let mut mails = merged.mails;
        let ghost prev = mails@;
        proof {
            assert(mail_views(prev).len() == prev.len());
            assert(views(users_ghost).take(merged.merged as int).len() == merged.merged);
        }
        self.update(now_local);
        if merged.stop {
            proof {
                assert(mail_views(mails@).take(merged.merged as int) =~= mail_views(mails@));
            }
            return TickOutcome { stop: true, merged: merged.merged, mails };
        }
        let ghost before = mail_views(mails@);
        let notice = self.dialog(used, total, ratio, now_local, tod);
        if let Some(m) = notice {
            mails.push(m);
            proof {
                assert(mails@[mails@.len() - 1] == m);
                assert(mail_views(mails@)[merged.merged as int] == m@);
            }
        }
        proof {
            assert(mail_views(mails@).take(merged.merged as int) =~= before);
        }
        TickOutcome { stop: false, merged: merged.merged, mails }
    }
}

/// A finished submission from the holder's own address releases the holder
/// within one cycle: the address leaves the pending entries, the holder is
/// picked anew by the selection policy (none exactly when nothing is left),
/// and the one acknowledgement sent is a release to that address.
pub proof fn lemma_release_holder(
    s: Seq<UserView>,
    a: UserView,
    u: UserView,
    now: int,
    next: Option<UserView>,
)
    requires
        unique_emails(s),
        u.email == a.email,
        u.finish,
        selected(unfinished(upsert_all(s, seq![u])), now, next),
    ensures
        needs_reselect(refreshed(Some(a), upsert_all(s, seq![u]))),
        !has_email(unfinished(upsert_all(s, seq![u])), a.email),
        next is None <==> unfinished(upsert_all(s, seq![u])).len() == 0,
        next matches Some(x) ==> x.email != a.email && !x.finish,
        seq![u].map_values(|v: UserView| ack_of(v)) == seq![MailView { email: a.email, kind: NoticeKind::Released }],
{
    let b = seq![u];
    assert(b.drop_last() =~= Seq::<UserView>::empty());
    let s1 = upsert_all(s, b);
    assert(b.last() == u);
    assert(upsert_all(s, b.drop_last()) == s);
    assert(s1 == upsert(s, u));
    crate::state::lemma_upsert_unique(s, u);
    crate::state::lemma_unfinished(s1);
    let left = unfinished(s1);
    if has_email(left, a.email) {
        let j = choose|j: int| 0 <= j < left.len() && left[j].email == a.email;
        let m = choose|m: int| 0 <= m < s1.len() && s1[m] == left[j];
        assert(s1[crate::state::index_of(s1, a.email)].email == a.email);
    }
    if let Some(x) = next {
        let k = choose|k: int| crate::state::is_choice(left, now, k) && left[k] == x;
        assert(left[k].email != a.email);
    }
    assert(b.map_values(|v: UserView| ack_of(v)) =~= seq![MailView { email: a.email, kind: NoticeKind::Released }]);
}

} // verus!
