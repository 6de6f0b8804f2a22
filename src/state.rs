use vstd::prelude::*;
use crate::config::HORIZON_SECONDS;
use crate::request::{stop_email, User, UserView};

verus! {

/// Whether some entry of `s` has address `e`.
pub open spec fn has_email(s: Seq<UserView>, e: Seq<char>) -> bool {
    exists|i: int| 0 <= i < s.len() && s[i].email == e
}

/// The position of the entry with address `e` (meaningful when there is one).
pub open spec fn index_of(s: Seq<UserView>, e: Seq<char>) -> int {
    choose|i: int| 0 <= i < s.len() && s[i].email == e
}

/// No two entries share an address.
pub open spec fn unique_emails(s: Seq<UserView>) -> bool {
    forall|i: int, j: int| 0 <= i < s.len() && 0 <= j < s.len() && i != j ==> s[i].email != s[j].email
}

/// `u` replaces the entry with its address whole, or joins at the end.
pub open spec fn upsert(s: Seq<UserView>, u: UserView) -> Seq<UserView> {
    if has_email(s, u.email) {
        s.update(index_of(s, u.email), u)
    } else {
        s.push(u)
    }
}

/// The submissions of `b` upserted in order.
pub open spec fn upsert_all(s: Seq<UserView>, b: Seq<UserView>) -> Seq<UserView>
    decreases b.len(),
{
    if b.len() == 0 {
        s
    } else {
        upsert(upsert_all(s, b.drop_last()), b.last())
    }
}

/// The entries of `s` that are not finished, in order.
pub open spec fn unfinished(s: Seq<UserView>) -> Seq<UserView>
    decreases s.len(),
{
    if s.len() == 0 {
        s
    } else if s.last().finish {
        unfinished(s.drop_last())
    } else {
        unfinished(s.drop_last()).push(s.last())
    }
}

/// Entry `i` ranks above entry `j`: urgent before non-urgent, then the earlier
/// submission, then the earlier position.
pub open spec fn outranks(s: Seq<UserView>, i: int, j: int) -> bool {
    ||| s[i].urg && !s[j].urg
    ||| (s[i].urg == s[j].urg && s[i].timestamp < s[j].timestamp)
    ||| (s[i].urg == s[j].urg && s[i].timestamp == s[j].timestamp && i < j)
}

/// The target time of `u` lies no further than the horizon after `now`.
pub open spec fn within_horizon(u: UserView, now: int) -> bool {
    u.date_time - now <= HORIZON_SECONDS
}

/// Some entry of `s` is within the horizon.
pub open spec fn any_within(s: Seq<UserView>, now: int) -> bool {
    exists|j: int| 0 <= j < s.len() && within_horizon(#[trigger] s[j], now)
}

/// Entry `k` is what the selection policy picks from `s` at `now`: the
/// highest-ranked entry within the horizon, or the highest-ranked entry when
/// none is.
pub open spec fn is_choice(s: Seq<UserView>, now: int, k: int) -> bool {
    &&& 0 <= k < s.len()
    &&& if any_within(s, now) {
        &&& within_horizon(s[k], now)
        &&& forall|j: int| 0 <= j < s.len() && within_horizon(#[trigger] s[j], now) ==> !outranks(s, j, k)
    } else {
        forall|j: int| 0 <= j < s.len() ==> !#[trigger] outranks(s, j, k)
    }
}

/// `a` is what the selection policy yields on `s` at `now`: nothing exactly
/// when `s` is empty, else the chosen entry.
pub open spec fn selected(s: Seq<UserView>, now: int, a: Option<UserView>) -> bool {
    &&& (a is None <==> s.len() == 0)
    &&& (a matches Some(u) ==> exists|k: int| is_choice(s, now, k) && s[k] == u)
}

/// The active holder brought up to date from `s`: its entry there, or none
/// when its address has no entry.
pub open spec fn refreshed(active: Option<UserView>, s: Seq<UserView>) -> Option<UserView> {
    match active {
        Some(a) => if has_email(s, a.email) {
            Some(s[index_of(s, a.email)])
        } else {
            None
        },
        None => None,
    }
}

/// The holder needs choosing anew: none is left after refreshing, or it has finished.
pub open spec fn needs_reselect(r: Option<UserView>) -> bool {
    r is None || r.unwrap().finish
}

/// Ranking is transitive.
pub proof fn lemma_outranks_transitive(s: Seq<UserView>, i: int, j: int, k: int)
    requires
        outranks(s, i, j),
        outranks(s, j, k),
    ensures
        outranks(s, i, k),
{
}

/// Entry `i` of `s` ranks above entry `j` (see `outranks`).
fn ranks_above(a: &User, i: usize, b: &User, j: usize) -> (r: bool)
    ensures
        r == (a@.urg && !b@.urg || (a@.urg == b@.urg && a@.timestamp < b@.timestamp)
            || (a@.urg == b@.urg && a@.timestamp == b@.timestamp && i < j)),
{
    if a.urg() != b.urg() {
        a.urg()
    } else if a.timestamp() != b.timestamp() {
        a.timestamp() < b.timestamp()
    } else {
        i < j
    }
}

/// Whether the target of `u` lies within the horizon after `now`.
fn is_within(u: &User, now: i64) -> (r: bool)
    ensures
        r == within_horizon(u@, now as int),
{
    (u.date_time() as i128) - (now as i128) <= HORIZON_SECONDS as i128
}

/// Identity used to send notifications.
#[derive(Debug)]
pub struct Server {
    account: String,
    password: String,
}

impl Server {
    pub fn new(account: String, password: String) -> (r: Server)
        ensures
            r.account()@ == account@,
            r.password()@ == password@,
    {
        Server { account, password }
    }

    pub closed spec fn account(&self) -> String {
        self.account
    }

    pub closed spec fn password(&self) -> String {
        self.password
    }

    pub fn account_ref(&self) -> (r: &String)
        ensures
            r@ == self.account()@,
    {
        &self.account
    }

    pub fn password_ref(&self) -> (r: &String)
        ensures
            r@ == self.password()@,
    {
        &self.password
    }
}

impl Clone for Server {
    fn clone(&self) -> (r: Server)
        ensures
            r.account()@ == self.account()@,
            r.password()@ == self.password()@,
    {
        Server { account: self.account.clone(), password: self.password.clone() }
    }
}

pub open spec fn views(v: Seq<User>) -> Seq<UserView> {
    v.map_values(|u: User| u@)
}

pub open spec fn view_opt(o: Option<User>) -> Option<UserView> {
    match o {
        Some(u) => Some(u@),
        None => None,
    }
}

/// The reservation state: the notifying identity, the active holder and the
/// pending requests keyed by address.
#[derive(Debug)]
pub struct AppInfo {
    pub server_info: Server,
    pub curr_user: Option<User>,
    pub user_info: Vec<User>,
}

impl AppInfo {
    pub open spec fn pending(&self) -> Seq<UserView> {
        views(self.user_info@)
    }

    pub open spec fn active(&self) -> Option<UserView> {
        view_opt(self.curr_user)
    }

    /// Addresses are unique, the sentinel is never pending, and the active
    /// holder is never finished.
    pub open spec fn wf(&self) -> bool {
        &&& unique_emails(self.pending())
        &&& !has_email(self.pending(), stop_email())
        &&& (self.active() matches Some(a) ==> !a.finish)
    }

    /// An empty state with the given identity.
    pub fn new(server_info: Server) -> (r: AppInfo)
        ensures
            r.wf(),
            r.pending() == Seq::<UserView>::empty(),
            r.active() == None::<UserView>,
            r.server_info.account()@ == server_info.account()@,
            r.server_info.password()@ == server_info.password()@,
    {
        let r = AppInfo { server_info, curr_user: None, user_info: Vec::new() };
        assert(r.pending() =~= Seq::<UserView>::empty());
        r
    }

    /// Position of the pending entry with address `email`.
    pub fn find(&self, email: &String) -> (r: Option<usize>)
        requires
            unique_emails(self.pending()),
        ensures
            r.is_none() == !has_email(self.pending(), email@),
            r matches Some(i) ==> i == index_of(self.pending(), email@) && i < self.pending().len(),
    {
        let mut i: usize = 0;
        while i < self.user_info.len()
            invariant
                i <= self.user_info@.len(),
                unique_emails(self.pending()),
                forall|j: int| 0 <= j < i ==> self.pending()[j].email != email@,
            decreases self.user_info@.len() - i,
        {
            assert(self.pending()[i as int] == self.user_info@[i as int]@);
            if *self.user_info[i].email() == *email {
                assert(self.pending()[i as int].email == email@);
                return Some(i);
            }
            i = i + 1;
        }
        None
    }

    /// Stores `u` under its address, replacing any earlier entry whole.
    pub fn upsert(&mut self, u: User)
        requires
            old(self).wf(),
            u@.email != stop_email(),
        ensures
            final(self).wf(),
            final(self).pending() == upsert(old(self).pending(), u@),
            final(self).active() == old(self).active(),
            final(self).server_info == old(self).server_info,
    {
        proof { lemma_upsert_unique(self.pending(), u@); }
        let ghost uv = u@;
        match self.find(u.email()) {
            Some(i) => {
                self.user_info.set(i, u);
                assert(self.pending() =~= upsert(old(self).pending(), uv));
            },
            None => {
                self.user_info.push(u);
                assert(self.pending() =~= upsert(old(self).pending(), uv));
            },
        }
        assert(!has_email(self.pending(), stop_email())) by {
            if has_email(self.pending(), stop_email()) {
                let j = choose|j: int| 0 <= j < self.pending().len() && self.pending()[j].email == stop_email();
                if j < old(self).pending().len() && self.pending()[j] != uv {
                    assert(old(self).pending()[j].email == stop_email());
                }
            }
        }
    }

    /// Position of the entry that the selection policy picks at `now`.
    pub fn choose_index(&self, now: i64) -> (r: Option<usize>)
        ensures
            r.is_none() == (self.pending().len() == 0),
            r matches Some(k) ==> is_choice(self.pending(), now as int, k as int),
    {
        let ghost s = self.pending();
        let n = self.user_info.len();
        if n == 0 {
            return None;
        }
        let mut best: usize = 0;
        let mut best_w: Option<usize> = if is_within(&self.user_info[0], now) { Some(0) } else { None };
        let mut i: usize = 1;
        while i < n
            invariant
                n == self.user_info@.len(),
                s == self.pending(),
                1 <= i <= n,
                best < i,
                forall|j: int| 0 <= j < i ==> !#[trigger] outranks(s, j, best as int),
                best_w matches Some(w) ==> w < i && within_horizon(s[w as int], now as int)
                    && forall|j: int| 0 <= j < i && within_horizon(#[trigger] s[j], now as int) ==> !outranks(s, j, w as int),
                best_w is None ==> forall|j: int| 0 <= j < i ==> !within_horizon(#[trigger] s[j], now as int),
            decreases n - i,
        {
            assert(s[i as int] == self.user_info@[i as int]@);
            assert(s[best as int] == self.user_info@[best as int]@);
            if ranks_above(&self.user_info[i], i, &self.user_info[best], best) {
                proof {
                    assert forall|j: int| 0 <= j < i + 1 implies !#[trigger] outranks(s, j, i as int) by {
                        if j < i && outranks(s, j, i as int) {
                            lemma_outranks_transitive(s, j, i as int, best as int);
                        }
                    }
                }
                best = i;
            }
            if is_within(&self.user_info[i], now) {
                match best_w {
                    Some(w) => {
                        assert(s[w as int] == self.user_info@[w as int]@);
                        if ranks_above(&self.user_info[i], i, &self.user_info[w], w) {
                            proof {
                                assert forall|j: int| 0 <= j < i + 1 && within_horizon(#[trigger] s[j], now as int)
                                    implies !outranks(s, j, i as int) by {
                                    if j < i && outranks(s, j, i as int) {
                                        lemma_outranks_transitive(s, j, i as int, w as int);
                                    }
                                }
                            }
                            best_w = Some(i);
                        }
                    },
                    None => {
                        best_w = Some(i);
                    },
                }
            }
            i = i + 1;
        }
        match best_w {
            Some(w) => Some(w),
            None => Some(best),
        }
    }

    /// The request that the selection policy picks at `now`, if any is pending.
    pub fn get_new_user(&self, now: i64) -> (r: Option<User>)
        ensures
            selected(self.pending(), now as int, view_opt(r)),
    {
        match self.choose_index(now) {
            Some(k) => {
                assert(self.pending()[k as int] == self.user_info@[k as int]@);
                Some(self.user_info[k].clone())
            },
            None => None,
        }
    }

    /// One update cycle: refreshes the holder from the pending entries, drops
    /// the finished ones, and picks a new holder when none is left or the
    /// holder has finished. Returns whether a holder was picked anew.
    pub fn update_current_user(&mut self, now: i64) -> (reselected: bool)
        requires
            unique_emails(old(self).pending()),
            !has_email(old(self).pending(), stop_email()),
        ensures
            final(self).wf(),
            final(self).pending() == unfinished(old(self).pending()),
            reselected == needs_reselect(refreshed(old(self).active(), old(self).pending())),
            !reselected ==> final(self).active() == refreshed(old(self).active(), old(self).pending()),
            reselected ==> selected(final(self).pending(), now as int, final(self).active()),
            final(self).server_info == old(self).server_info,
    {
        let ghost s0 = self.pending();
        let fresh: Option<User> = match &self.curr_user {
            Some(a) => match self.find(a.email()) {
                Some(i) => {
                    assert(s0[i as int] == self.user_info@[i as int]@);
                    Some(self.user_info[i].clone())
                },
                None => None,
            },
            None => None,
        };
        self.curr_user = None;
        self.remove_finished();
        let reselect = match &fresh {
            Some(u) => u.finish(),
            None => true,
        };
        if reselect {
            self.curr_user = self.get_new_user(now);
            proof {
                lemma_unfinished(s0);
                if let Some(u) = self.active() {
                    let k = choose|k: int| is_choice(self.pending(), now as int, k) && self.pending()[k] == u;
                }
            }
        } else {
            self.curr_user = fresh;
        }
        reselect
    }

    /// Drops every finished entry, keeping the order of the rest.
    pub fn remove_finished(&mut self)
        requires
            old(self).wf(),
        ensures
            final(self).wf(),
            final(self).pending() == unfinished(old(self).pending()),
            final(self).active() == old(self).active(),
            final(self).server_info == old(self).server_info,
    {
        let ghost s = self.pending();
        let mut kept: Vec<User> = Vec::new();
        let old_users = &self.user_info;
        let mut i: usize = 0;
        while i < old_users.len()
            invariant
                i <= old_users@.len(),
                views(old_users@) == s,
                views(kept@) == unfinished(s.take(i as int)),
            decreases old_users@.len() - i,
        {
            assert(s.take(i as int + 1).drop_last() =~= s.take(i as int));
            if !old_users[i].finish() {
                kept.push(old_users[i].clone());
                assert(views(kept@) =~= unfinished(s.take(i as int + 1)));
            } else {
                assert(views(kept@) =~= unfinished(s.take(i as int + 1)));
            }
            i = i + 1;
        }
        assert(s.take(s.len() as int) =~= s);
        self.user_info = kept;
        proof {
            lemma_unfinished(s);
            if has_email(self.pending(), stop_email()) {
                let k = choose|k: int| 0 <= k < self.pending().len() && self.pending()[k].email == stop_email();
                let m = choose|m: int| 0 <= m < s.len() && s[m] == self.pending()[k];
            }
        }
    }
}

/// The entries of `unfinished(s)` are the unfinished entries of `s`, and
/// unique addresses stay unique.
pub proof fn lemma_unfinished(s: Seq<UserView>)
    ensures
        unfinished(s).len() <= s.len(),
        forall|i: int| 0 <= i < unfinished(s).len()
            ==> !(#[trigger] unfinished(s)[i]).finish && s.contains(unfinished(s)[i]),
        forall|i: int| 0 <= i < s.len() && !(#[trigger] s[i]).finish ==> unfinished(s).contains(s[i]),
        unique_emails(s) ==> unique_emails(unfinished(s)),
    decreases s.len(),
{
    if s.len() > 0 {
        let p = s.drop_last();
        lemma_unfinished(p);
        assert forall|i: int| 0 <= i < unfinished(s).len()
            implies !(#[trigger] unfinished(s)[i]).finish && s.contains(unfinished(s)[i]) by {
            if i < unfinished(p).len() {
                assert(unfinished(s)[i] == unfinished(p)[i]);
                let k = choose|k: int| 0 <= k < p.len() && p[k] == unfinished(p)[i];
                assert(s[k] == p[k]);
            } else {
                assert(s[s.len() - 1] == unfinished(s)[i]);
            }
        }
        assert forall|i: int| 0 <= i < s.len() && !(#[trigger] s[i]).finish implies unfinished(s).contains(s[i]) by {
            if i < p.len() {
                assert(p[i] == s[i]);
                let k = choose|k: int| 0 <= k < unfinished(p).len() && unfinished(p)[k] == p[i];
                assert(unfinished(s)[k] == unfinished(p)[k]);
            } else {
                assert(unfinished(s)[unfinished(s).len() - 1] == s[i]);
            }
        }
        if unique_emails(s) {
            assert(unique_emails(p)) by {
                assert forall|i: int, j: int| 0 <= i < p.len() && 0 <= j < p.len() && i != j
                    implies p[i].email != p[j].email by {
                    assert(s[i] == p[i] && s[j] == p[j]);
                }
            }
            assert forall|i: int, j: int| 0 <= i < unfinished(s).len() && 0 <= j < unfinished(s).len() && i != j
                implies unfinished(s)[i].email != unfinished(s)[j].email by {
                let q = unfinished(p);
                let last = s.len() - 1;
                if i < q.len() && j < q.len() {
                    assert(unfinished(s)[i] == q[i] && unfinished(s)[j] == q[j]);
                } else if i < q.len() {
                    assert(unfinished(s)[i] == q[i]);
                    let k = choose|k: int| 0 <= k < p.len() && p[k] == q[i];
                    assert(s[k] == p[k]);
                    assert(unfinished(s)[j] == s[last]);
                } else if j < q.len() {
                    assert(unfinished(s)[j] == q[j]);
                    let k = choose|k: int| 0 <= k < p.len() && p[k] == q[j];
                    assert(s[k] == p[k]);
                    assert(unfinished(s)[i] == s[last]);
                }
            }
        }
    }
}

/// Upserting keeps addresses unique.
pub proof fn lemma_upsert_unique(s: Seq<UserView>, u: UserView)
    requires
        unique_emails(s),
    ensures
        unique_emails(upsert(s, u)),
        has_email(upsert(s, u), u.email),
        upsert(s, u)[index_of(upsert(s, u), u.email)] == u,
        forall|e: Seq<char>| e != u.email ==> (has_email(upsert(s, u), e) == has_email(s, e)),
        forall|e: Seq<char>| #![auto] e != u.email && has_email(s, e)
            ==> upsert(s, u)[index_of(upsert(s, u), e)] == s[index_of(s, e)],
{
    let t = upsert(s, u);
    if has_email(s, u.email) {
        let k = index_of(s, u.email);
        assert(t[k].email == u.email);
    } else {
        assert(t[s.len() as int].email == u.email);
    }
    assert forall|e: Seq<char>| e != u.email implies (has_email(t, e) == has_email(s, e)) by {
        if has_email(s, e) {
            let j = index_of(s, e);
            assert(t[j].email == e);
        }
        if has_email(t, e) {
            let j = index_of(t, e);
            assert(s[j].email == e);
        }
    }
    assert forall|e: Seq<char>| #![auto] e != u.email && has_email(s, e)
        implies t[index_of(t, e)] == s[index_of(s, e)] by {
        let j = index_of(s, e);
        assert(t[j].email == e);
    }
}

/// Upserting a batch keeps addresses unique.
pub proof fn lemma_upsert_all_unique(s: Seq<UserView>, b: Seq<UserView>)
    requires
        unique_emails(s),
    ensures
        unique_emails(upsert_all(s, b)),
    decreases b.len(),
{
    if b.len() > 0 {
        lemma_upsert_all_unique(s, b.drop_last());
        lemma_upsert_unique(upsert_all(s, b.drop_last()), b.last());
    }
}

/// Last write wins: after any run of upserts under one address, the entry
/// stored for it is the last submission, whole.
pub proof fn lemma_last_write_wins(s: Seq<UserView>, b: Seq<UserView>, e: Seq<char>)
    requires
        unique_emails(s),
        b.len() > 0,
        forall|i: int| 0 <= i < b.len() ==> (#[trigger] b[i]).email == e,
    ensures
        has_email(upsert_all(s, b), e),
        upsert_all(s, b)[index_of(upsert_all(s, b), e)] == b.last(),
{
    lemma_upsert_all_unique(s, b.drop_last());
    lemma_upsert_unique(upsert_all(s, b.drop_last()), b.last());
}

/// Horizon rule: when the top-ranked entry's target lies beyond the horizon
/// and some entry's target lies within it, the pick is not the top-ranked
/// entry but the highest-ranked entry within the horizon: it is within, and
/// it ranks above every other entry within.
pub proof fn lemma_horizon_rule(s: Seq<UserView>, now: int, top: int, m: int, k: int)
    requires
        0 <= top < s.len(),
        forall|j: int| 0 <= j < s.len() ==> !#[trigger] outranks(s, j, top),
        !within_horizon(s[top], now),
        0 <= m < s.len(),
        within_horizon(s[m], now),
        is_choice(s, now, k),
    ensures
        k != top,
        within_horizon(s[k], now),
        forall|j: int| 0 <= j < s.len() && j != k && within_horizon(#[trigger] s[j], now) ==> outranks(s, k, j),
{
    assert(any_within(s, now));
}

} // verus!
