//! The user projection: each user's latest profile and the user's events in
//! LSN order, as the write-ahead log describes them; listing users by id and
//! a user's events newest first.
use vstd::prelude::*;
use crate::model::{UserEvent, UserEventView, UserProfile, UserProfileView, WalPayload, WalRecord};
use crate::order::{chars_lt, lemma_lex_irreflexive, lemma_lex_transitive, lemma_lex_trichotomy, lex_le, lex_lt};
use crate::sorting::{insert_by_key, lemma_insert_by_key_at};
use crate::text::{chars_eq, chars_of};
use crate::util::{shard_index, shard_of};

verus! {

/// Whether `user_id` may name a user: 1 to 160 characters, each an ASCII
/// letter or digit or one of `-`, `_`, `:` and `.`.
pub open spec fn safe_user_id(user_id: Seq<char>) -> bool {
    &&& 0 < user_id.len() <= 160
    &&& forall|i: int| 0 <= i < user_id.len() ==> user_id_char(#[trigger] user_id[i])
}

pub open spec fn user_id_char(c: char) -> bool {
    ||| ('a' <= c && c <= 'z')
    ||| ('A' <= c && c <= 'Z')
    ||| ('0' <= c && c <= '9')
    ||| c == '-'
    ||| c == '_'
    ||| c == ':'
    ||| c == '.'
}

pub fn ensure_safe_user_id(user_id: &str) -> (b: bool)
    ensures
        b == safe_user_id(user_id@),
{
    let v = chars_of(user_id);
    if v.len() == 0 || v.len() > 160 {
        return false;
    }
    let mut i: usize = 0;
    while i < v.len()
        invariant
            i <= v@.len(),
            v@ == user_id@,
            forall|j: int| 0 <= j < i ==> user_id_char(#[trigger] user_id@[j]),
        decreases v@.len() - i,
    {
        let c = v[i];
        let ok = ('a' <= c && c <= 'z') || ('A' <= c && c <= 'Z') || ('0' <= c && c <= '9') || c == '-' || c
            == '_' || c == ':' || c == '.';
        if !ok {
            return false;
        }
        i = i + 1;
    }
    true
}

/// The projection as values: profiles by user id, and each user's events in
/// LSN order.
pub struct UserProjectionView {
    pub profiles: Map<Seq<char>, UserProfileView>,
    pub events: Map<Seq<char>, Seq<UserEventView>>,
}

pub open spec fn event_lsn(e: UserEventView) -> u64 {
    e.lsn
}

pub open spec fn has_event_lsn(list: Seq<UserEventView>, lsn: u64) -> bool {
    exists|i: int| 0 <= i < list.len() && #[trigger] list[i].lsn == lsn
}

pub open spec fn events_of(v: UserProjectionView, user_id: Seq<char>) -> Seq<UserEventView> {
    if v.events.contains_key(user_id) {
        v.events[user_id]
    } else {
        Seq::empty()
    }
}

/// The projection after one log entry: an upsert replaces the user's profile;
/// a published event joins the user's events in LSN order, unless an event of
/// that LSN is already there.
pub open spec fn apply_user_entry(v: UserProjectionView, w: WalRecord) -> UserProjectionView {
    match w.payload {
        WalPayload::UserUpserted { user } => UserProjectionView {
            profiles: v.profiles.insert(user.user_id@, user.into_profile_spec(w.lsn)@),
            ..v
        },
        WalPayload::UserEventPublished { event } => {
            let e = event.into_event_spec(w.lsn)@;
            let list = events_of(v, e.user_id);
            if has_event_lsn(list, e.lsn) {
                v
            } else {
                UserProjectionView {
                    events: v.events.insert(e.user_id, insert_by_key(list, e, |x: UserEventView| event_lsn(x))),
                    ..v
                }
            }
        },
        _ => v,
    }
}

/// The projection that `log` describes.
pub open spec fn user_state(log: Seq<WalRecord>) -> UserProjectionView
    decreases log.len(),
{
    if log.len() == 0 {
        UserProjectionView { profiles: Map::empty(), events: Map::empty() }
    } else {
        apply_user_entry(user_state(log.drop_last()), log.last())
    }
}

pub open spec fn profile_views(s: Seq<UserProfile>) -> Seq<UserProfileView> {
    s.map_values(|p: UserProfile| p@)
}

pub open spec fn event_views(s: Seq<UserEvent>) -> Seq<UserEventView> {
    s.map_values(|e: UserEvent| e@)
}

/// `s` lists `m` in user id order, each user once.
pub open spec fn profiles_hold(s: Seq<UserProfile>, m: Map<Seq<char>, UserProfileView>) -> bool {
    &&& forall|i: int, j: int| 0 <= i < j < s.len() ==> lex_lt(s[i].user_id@, s[j].user_id@)
    &&& forall|i: int| 0 <= i < s.len() ==> m.contains_key(#[trigger] s[i].user_id@) && m[s[i].user_id@] == s[i]@
    &&& forall|k: Seq<char>| m.contains_key(k) ==> exists|i: int| 0 <= i < s.len() && #[trigger] s[i].user_id@ == k
}

pub open spec fn lsn_increasing(s: Seq<UserEventView>) -> bool {
    forall|i: int, j: int| 0 <= i < j < s.len() ==> s[i].lsn < s[j].lsn
}

/// `s` holds each user's event list of `m` once, each list in increasing
/// LSN order.
pub open spec fn events_hold(s: Seq<(String, Vec<UserEvent>)>, m: Map<Seq<char>, Seq<UserEventView>>) -> bool {
    &&& forall|i: int, j: int| 0 <= i < j < s.len() ==> (#[trigger] s[i]).0@ != (#[trigger] s[j]).0@
    &&& forall|i: int|
        0 <= i < s.len() ==> m.contains_key((#[trigger] s[i]).0@) && m[s[i].0@] == event_views(s[i].1@)
    &&& forall|k: Seq<char>| m.contains_key(k) ==> exists|i: int| 0 <= i < s.len() && (#[trigger] s[i]).0@ == k
    &&& forall|k: Seq<char>| m.contains_key(k) ==> lsn_increasing(#[trigger] m[k])
}

/// The user projection.
pub struct UserProjection {
    profiles: Vec<UserProfile>,
    events: Vec<(String, Vec<UserEvent>)>,
    state: Ghost<UserProjectionView>,
}

impl View for UserProjection {
    type V = UserProjectionView;

    closed spec fn view(&self) -> UserProjectionView {
        self.state@
    }
}

fn id_lt(a: &String, b: &String) -> (r: bool)
    ensures
        r == lex_lt(a@, b@),
{
    let x = chars_of(a.as_str());
    let y = chars_of(b.as_str());
    chars_lt(x.as_slice(), y.as_slice())
}

fn id_eq(a: &String, b: &String) -> (r: bool)
    ensures
        r == (a@ == b@),
{
    let x = chars_of(a.as_str());
    let y = chars_of(b.as_str());
    chars_eq(x.as_slice(), y.as_slice())
}

impl UserProjection {
    pub closed spec fn wf(&self) -> bool {
        &&& profiles_hold(self.profiles@, self.state@.profiles)
        &&& events_hold(self.events@, self.state@.events)
    }

    /// The profiles in user id order.
    pub closed spec fn profile_list(&self) -> Seq<UserProfileView> {
        profile_views(self.profiles@)
    }

    /// The profile list is the profiles of the view, in user id order.
    pub proof fn lemma_profile_list(&self)
        requires
            self.wf(),
        ensures
            forall|i: int, j: int|
                0 <= i < j < self.profile_list().len() ==> lex_lt(
                    self.profile_list()[i].user_id,
                    self.profile_list()[j].user_id,
                ),
            forall|i: int|
                0 <= i < self.profile_list().len() ==> self@.profiles.contains_key(
                    #[trigger] self.profile_list()[i].user_id,
                ) && self@.profiles[self.profile_list()[i].user_id] == self.profile_list()[i],
            forall|k: Seq<char>|
                self@.profiles.contains_key(k) ==> exists|i: int|
                    0 <= i < self.profile_list().len() && #[trigger] self.profile_list()[i].user_id == k,
    {
        assert forall|k: Seq<char>| self@.profiles.contains_key(k) implies exists|i: int|
            0 <= i < self.profile_list().len() && #[trigger] self.profile_list()[i].user_id == k by {
            let i = choose|i: int| 0 <= i < self.profiles@.len() && #[trigger] self.profiles@[i].user_id@ == k;
            assert(self.profile_list()[i].user_id == k);
        }
    }

    /// An empty projection.
    pub fn new() -> (p: UserProjection)
        ensures
            p.wf(),
            p@ == (UserProjectionView { profiles: Map::empty(), events: Map::empty() }),
    {
        UserProjection {
            profiles: Vec::new(),
            events: Vec::new(),
            state: Ghost(UserProjectionView { profiles: Map::empty(), events: Map::empty() }),
        }
    }

    fn upsert_profile(&mut self, rec: UserProfile)
        requires
            old(self).wf(),
        ensures
            final(self).wf(),
            final(self)@ == (UserProjectionView {
                profiles: old(self)@.profiles.insert(rec.user_id@, rec@),
                ..old(self)@
            }),
    {
        let ghost s = self.profiles@;
        let ghost m = self.state@.profiles;
        let ghost key = rec.user_id@;
        let n = self.profiles.len();
        let mut i: usize = 0;
        while i < n && id_lt(&self.profiles[i].user_id, &rec.user_id)
            invariant
                n == s.len(),
                self.profiles@ == s,
                key == rec.user_id@,
                i <= n,
                forall|j: int| 0 <= j < i ==> lex_lt(#[trigger] s[j].user_id@, key),
            decreases n - i,
        {
            i = i + 1;
        }
        let ghost m2 = m.insert(key, rec@);
        if i < n && id_eq(&self.profiles[i].user_id, &rec.user_id) {
            self.profiles.set(i, rec);
            proof {
                let t = self.profiles@;
                assert forall|a: int, b: int| 0 <= a < b < t.len() implies lex_lt(t[a].user_id@, t[b].user_id@) by {
                    assert(lex_lt(s[a].user_id@, s[b].user_id@));
                }
                assert forall|j: int| 0 <= j < t.len() implies m2.contains_key(#[trigger] t[j].user_id@) && m2[t[j].user_id@] == t[j]@ by {
                    if j != i {
                        assert(t[j] == s[j]);
                        if j < i {
                            assert(lex_lt(s[j].user_id@, s[i as int].user_id@));
                        } else {
                            assert(lex_lt(s[i as int].user_id@, s[j].user_id@));
                        }
                        if s[j].user_id@ == key {
                            lemma_lex_irreflexive(key);
                        }
                    }
                }
                assert forall|p: Seq<char>| m2.contains_key(p) implies exists|j: int| 0 <= j < t.len() && #[trigger] t[j].user_id@ == p by {
                    if p == key {
                        assert(t[i as int].user_id@ == p);
                    } else {
                        let j = choose|j: int| 0 <= j < s.len() && #[trigger] s[j].user_id@ == p;
                        assert(t[j].user_id@ == p);
                    }
                }
            }
        } else {
            proof {
                if i < n {
                    lemma_lex_trichotomy(s[i as int].user_id@, key);
                }
            }
            self.profiles.insert(i, rec);
            proof {
                let t = self.profiles@;
                assert forall|j: int| i <= j < s.len() implies lex_lt(key, #[trigger] s[j].user_id@) by {
                    if j > i {
                        assert(lex_lt(s[i as int].user_id@, s[j].user_id@));
                        lemma_lex_transitive(key, s[i as int].user_id@, s[j].user_id@);
                    }
                }
                assert forall|a: int, b: int| 0 <= a < b < t.len() implies lex_lt(t[a].user_id@, t[b].user_id@) by {
                    if b < i {
                        assert(t[a] == s[a] && t[b] == s[b]);
                    } else if b == i {
                        assert(t[a] == s[a]);
                    } else if a == i {
                        assert(t[b] == s[b - 1]);
                    } else if a < i {
                        assert(t[a] == s[a] && t[b] == s[b - 1]);
                        lemma_lex_transitive(s[a].user_id@, key, s[b - 1].user_id@);
                    } else {
                        assert(t[a] == s[a - 1] && t[b] == s[b - 1]);
                    }
                }
                assert forall|j: int| 0 <= j < t.len() implies m2.contains_key(#[trigger] t[j].user_id@) && m2[t[j].user_id@] == t[j]@ by {
                    if j < i {
                        assert(t[j] == s[j]);
                        if s[j].user_id@ == key {
                            lemma_lex_irreflexive(key);
                        }
                    } else if j > i {
                        assert(t[j] == s[j - 1]);
                        if s[j - 1].user_id@ == key {
                            lemma_lex_irreflexive(key);
                        }
                    }
                }
                assert forall|p: Seq<char>| m2.contains_key(p) implies exists|j: int| 0 <= j < t.len() && #[trigger] t[j].user_id@ == p by {
                    if p == key {
                        assert(t[i as int].user_id@ == p);
                    } else {
                        let j = choose|j: int| 0 <= j < s.len() && #[trigger] s[j].user_id@ == p;
                        if j < i {
                            assert(t[j].user_id@ == p);
                        } else {
                            assert(t[j + 1].user_id@ == p);
                        }
                    }
                }
            }
        }
        self.state = Ghost(UserProjectionView { profiles: m2, ..self.state@ });
    }
}


impl UserProjection {
    fn find_user_events(&self, user_id: &String) -> (r: Option<usize>)
        requires
            self.wf(),
        ensures
            match r {
                Some(i) => i < self.events@.len() && self.events@[i as int].0@ == user_id@,
                None => !self@.events.contains_key(user_id@),
            },
    {
        let mut i: usize = 0;
        while i < self.events.len()
            invariant
                i <= self.events@.len(),
                forall|j: int| 0 <= j < i ==> (#[trigger] self.events@[j]).0@ != user_id@,
            decreases self.events@.len() - i,
        {
            if id_eq(&self.events[i].0, user_id) {
                return Some(i);
            }
            i = i + 1;
        }
        None
    }

    fn add_event(&mut self, e: UserEvent)
        requires
            old(self).wf(),
        ensures
            final(self).wf(),
            final(self)@ == ({
                let v = old(self)@;
                let list = events_of(v, e.user_id@);
                if has_event_lsn(list, e.lsn) {
                    v
                } else {
                    UserProjectionView {
                        events: v.events.insert(e.user_id@, insert_by_key(list, e@, |x: UserEventView| event_lsn(x))),
                        ..v
                    }
                }
            }),
    {
        let ghost key = |x: UserEventView| event_lsn(x);
        let ghost v = self.state@;
        let ghost s = self.events@;
        let ghost uid = e.user_id@;
        let ghost ev = e@;
        match self.find_user_events(&e.user_id) {
            None => {
                let ghost list = events_of(v, uid);
                assert(list =~= Seq::<UserEventView>::empty());
                assert(insert_by_key(list, ev, key) =~= seq![ev]);
                let mut one: Vec<UserEvent> = Vec::new();
                let name = e.user_id.clone();
                one.push(e);
                assert(event_views(one@) =~= seq![ev]);
                self.events.push((name, one));
                let ghost m2 = v.events.insert(uid, seq![ev]);
                self.state = Ghost(UserProjectionView { events: m2, ..v });
                proof {
                    let t = self.events@;
                    let n = s.len() as int;
                    assert forall|a: int, b: int| 0 <= a < b < t.len() implies (#[trigger] t[a]).0@ != (#[trigger] t[b]).0@ by {
                        if b == n {
                            assert(v.events.contains_key(s[a].0@));
                        } else {
                            assert(s[a].0@ != s[b].0@);
                        }
                    }
                    assert forall|j: int| 0 <= j < t.len() implies m2.contains_key((#[trigger] t[j]).0@) && m2[t[j].0@] == event_views(t[j].1@) by {
                        if j < n {
                            assert(v.events.contains_key(s[j].0@));
                            assert(s[j].0@ != uid);
                        }
                    }
                    assert forall|k: Seq<char>| m2.contains_key(k) implies exists|j: int| 0 <= j < t.len() && (#[trigger] t[j]).0@ == k by {
                        if k == uid {
                            assert(t[n].0@ == k);
                        } else {
                            let j = choose|j: int| 0 <= j < s.len() && (#[trigger] s[j]).0@ == k;
                            assert(t[j].0@ == k);
                        }
                    }
                    assert forall|k: Seq<char>| m2.contains_key(k) implies lsn_increasing(#[trigger] m2[k]) by {
                        if k != uid {
                            assert(lsn_increasing(v.events[k]));
                        }
                    }
                }
            },
            Some(i) => {
                let ghost list = events_of(v, uid);
                assert(v.events.contains_key(uid));
                assert(list == event_views(s[i as int].1@));
                let n = self.events[i].1.len();
                let mut j: usize = 0;
                while j < n
                    invariant
                        n == self.events@[i as int].1@.len(),
                        self.events@ == s,
                        i < s.len(),
                        list == event_views(s[i as int].1@),
                        self.wf(),
                        self.state@ == v,
                        ev == e@,
                        list == events_of(v, e.user_id@),
                        j <= n,
                        forall|k: int| 0 <= k < j ==> (#[trigger] list[k]).lsn != ev.lsn,
                    decreases n - j,
                {
                    assert(list[j as int] == self.events@[i as int].1@[j as int]@);
                    if self.events[i].1[j].lsn == e.lsn {
                        assert(list[j as int].lsn == ev.lsn);
                        assert(has_event_lsn(list, ev.lsn));
                        return;
                    }
                    j = j + 1;
                }
                assert(!has_event_lsn(list, ev.lsn));
                let mut entry = self.events.remove(i);
                let mut p: usize = entry.1.len();
                while p > 0 && entry.1[p - 1].lsn > e.lsn
                    invariant
                        p <= entry.1@.len(),
                        event_views(entry.1@) == list,
                        forall|k: int| p <= k < list.len() ==> key(#[trigger] list[k]) > ev.lsn,
                        key == (|x: UserEventView| event_lsn(x)),
                        ev == e@,
                    decreases p,
                {
                    assert(list[p - 1] == entry.1@[p - 1]@);
                    p = p - 1;
                }
                proof {
                    lemma_insert_by_key_at(list, ev, key, p as int);
                }
                entry.1.insert(p, e);
                let ghost new_list = insert_by_key(list, ev, key);
                assert(event_views(entry.1@) =~= list.take(p as int).push(ev) + list.skip(p as int));
                let ghost r = self.events@;
                self.events.push(entry);
                let ghost m2 = v.events.insert(uid, new_list);
                self.state = Ghost(UserProjectionView { events: m2, ..v });
                proof {
                    let t = self.events@;
                    let nn = r.len() as int;
                    assert(r == s.remove(i as int));
                    assert forall|a: int, b: int| 0 <= a < b < t.len() implies (#[trigger] t[a]).0@ != (#[trigger] t[b]).0@ by {
                        let sa = if a < i { a } else { a + 1 };
                        if b == nn {
                            assert(t[a] == s[sa]);
                            assert(s[sa].0@ != s[i as int].0@);
                        } else {
                            let sb = if b < i { b } else { b + 1 };
                            assert(t[a] == s[sa] && t[b] == s[sb]);
                            assert(s[sa].0@ != s[sb].0@);
                        }
                    }
                    assert forall|jj: int| 0 <= jj < t.len() implies m2.contains_key((#[trigger] t[jj]).0@) && m2[t[jj].0@] == event_views(t[jj].1@) by {
                        if jj < nn {
                            let sj = if jj < i { jj } else { jj + 1 };
                            assert(t[jj] == s[sj]);
                            assert(v.events.contains_key(s[sj].0@));
                            assert(s[sj].0@ != s[i as int].0@);
                        }
                    }
                    assert forall|k: Seq<char>| m2.contains_key(k) implies exists|jj: int| 0 <= jj < t.len() && (#[trigger] t[jj]).0@ == k by {
                        if k == uid {
                            assert(t[nn].0@ == k);
                        } else {
                            let sj = choose|sj: int| 0 <= sj < s.len() && (#[trigger] s[sj]).0@ == k;
                            assert(sj != i);
                            let jj = if sj < i { sj } else { sj - 1 };
                            assert(t[jj] == s[sj]);
                        }
                    }
                    assert forall|k: Seq<char>| m2.contains_key(k) implies lsn_increasing(#[trigger] m2[k]) by {
                        if k != uid {
                            assert(lsn_increasing(v.events[k]));
                        } else {
                            assert(lsn_increasing(list));
                            let nl = list.take(p as int).push(ev) + list.skip(p as int);
                            assert(nl == new_list);
                            assert forall|a: int, b: int| 0 <= a < b < nl.len() implies nl[a].lsn < nl[b].lsn by {
                                if a < p && b < p {
                                    assert(nl[a] == list[a] && nl[b] == list[b]);
                                } else if a < p && b == p {
                                    assert(nl[a] == list[a]);
                                    if p > 0 {
                                        assert(list[a].lsn <= list[p - 1].lsn);
                                        assert(list[p - 1].lsn <= ev.lsn);
                                    }
                                    assert(list[a].lsn != ev.lsn);
                                } else if a < p {
                                    assert(nl[a] == list[a] && nl[b] == list[b - 1]);
                                } else if a == p {
                                    assert(nl[b] == list[b - 1]);
                                } else {
                                    assert(nl[a] == list[a - 1] && nl[b] == list[b - 1]);
                                }
                            }
                        }
                    }
                }
            },
        }
    }
}


/// A page of users.
pub struct ListUsersResponse {
    pub users: Vec<UserProfile>,
    pub next_after_user_id: Option<String>,
    pub has_more: bool,
}

/// Whether a profile is listed: after `after` in id order, and on `shard`
/// where one is asked for.
pub open spec fn user_listed(p: UserProfileView, after: Option<Seq<char>>, shard: Option<usize>, shard_count: nat) -> bool {
    &&& !(after is Some && lex_le(p.user_id, after->Some_0))
    &&& !(shard is Some && shard_of(p.user_id, shard_count) != shard->Some_0 as nat)
}

pub open spec fn listed_users(
    list: Seq<UserProfileView>,
    after: Option<Seq<char>>,
    shard: Option<usize>,
    shard_count: nat,
) -> Seq<UserProfileView> {
    list.filter(|p: UserProfileView| user_listed(p, after, shard, shard_count))
}

/// At most `limit` items of `s`, from its start.
pub open spec fn first_n<T>(s: Seq<T>, limit: nat) -> Seq<T> {
    if s.len() > limit {
        s.take(limit as int)
    } else {
        s
    }
}

/// Whether an event is before `before`, where that is given.
pub open spec fn event_before(e: UserEventView, before_lsn: Option<u64>) -> bool {
    before_lsn is None || e.lsn < before_lsn->Some_0
}

/// A user's events newest first, those before `before_lsn`, at most `limit`.
pub open spec fn listed_events(list: Seq<UserEventView>, before_lsn: Option<u64>, limit: nat) -> Seq<UserEventView> {
    first_n(list.reverse().filter(|e: UserEventView| event_before(e, before_lsn)), limit)
}

proof fn lemma_filter_step<T>(s: Seq<T>, k: int, pred: spec_fn(T) -> bool)
    requires
        0 <= k < s.len(),
    ensures
        s.take(k + 1).filter(pred) == if pred(s[k]) {
            s.take(k).filter(pred).push(s[k])
        } else {
            s.take(k).filter(pred)
        },
{
    reveal(Seq::filter);
    assert(s.take(k + 1).drop_last() =~= s.take(k));
    assert(s.take(k + 1).last() == s[k]);
}

proof fn lemma_filter_prefix<T>(s: Seq<T>, k: int, pred: spec_fn(T) -> bool)
    requires
        0 <= k <= s.len(),
    ensures
        s.filter(pred) == s.take(k).filter(pred) + s.skip(k).filter(pred),
{
    Seq::filter_distributes_over_add(s.take(k), s.skip(k), pred);
    assert(s.take(k) + s.skip(k) =~= s);
}

impl UserProjection {
    /// Applies one log entry.
    pub fn apply_wal_record(&mut self, record: &WalRecord)
        requires
            old(self).wf(),
        ensures
            final(self).wf(),
            final(self)@ == apply_user_entry(old(self)@, *record),
    {
        match &record.payload {
            WalPayload::UserUpserted { user } => {
                let profile = user.duplicate().into_profile(record.lsn);
                assert(profile@ == user.into_profile_spec(record.lsn)@);
                self.upsert_profile(profile);
            },
            WalPayload::UserEventPublished { event } => {
                let e = event.duplicate().into_event(record.lsn);
                assert(e@ == event.into_event_spec(record.lsn)@);
                self.add_event(e);
            },
            _ => {},
        }
    }

    /// The projection that the log describes.
    pub fn from_wal_records(records: &Vec<WalRecord>) -> (p: UserProjection)
        ensures
            p.wf(),
            p@ == user_state(records@),
    {
        let mut p = UserProjection::new();
        let mut i: usize = 0;
        assert(records@.take(0) =~= Seq::<WalRecord>::empty());
        while i < records.len()
            invariant
                i <= records@.len(),
                p.wf(),
                p@ == user_state(records@.take(i as int)),
            decreases records@.len() - i,
        {
            proof {
                assert(records@.take(i + 1).drop_last() =~= records@.take(i as int));
                assert(records@.take(i + 1).last() == records@[i as int]);
            }
            p.apply_wal_record(&records[i]);
            i = i + 1;
        }
        assert(records@.take(i as int) =~= records@);
        p
    }

    /// The profile of `user_id`.
    pub fn get_user(&self, user_id: &str) -> (r: Option<UserProfile>)
        requires
            self.wf(),
        ensures
            match r {
                Some(p) => self@.profiles.contains_key(user_id@) && p@ == self@.profiles[user_id@],
                None => !self@.profiles.contains_key(user_id@),
            },
    {
        let id = chars_of(user_id);
        let mut i: usize = 0;
        while i < self.profiles.len()
            invariant
                i <= self.profiles@.len(),
                self.wf(),
                id@ == user_id@,
                forall|j: int| 0 <= j < i ==> (#[trigger] self.profiles@[j]).user_id@ != user_id@,
            decreases self.profiles@.len() - i,
        {
            let c = chars_of(self.profiles[i].user_id.as_str());
            if chars_eq(c.as_slice(), id.as_slice()) {
                return Some(self.profiles[i].duplicate());
            }
            i = i + 1;
        }
        None
    }

    /// A page of users in id order: those after `after_user_id` and, where a
    /// shard is asked for, on that shard among `shard_count`; at most `limit`,
    /// with whether more are left and the id to continue after.
    pub fn list_users(
        &self,
        after_user_id: Option<&str>,
        shard: Option<usize>,
        shard_count: usize,
        limit: usize,
    ) -> (r: ListUsersResponse)
        requires
            self.wf(),
        ensures
            ({
                let after = match after_user_id {
                    Some(a) => Some(a@),
                    None => None,
                };
                let all = listed_users(self.profile_list(), after, shard, shard_count as nat);
                &&& profile_views(r.users@) == first_n(all, limit as nat)
                &&& r.has_more == (all.len() > limit)
                &&& crate::model::opt_str_view(r.next_after_user_id) == if r.users@.len() == 0 {
                    None::<Seq<char>>
                } else {
                    Some(r.users@.last().user_id@)
                }
            }),
    {
        let ghost after = match after_user_id {
            Some(a) => Some(a@),
            None => None,
        };
        let ghost list = self.profile_list();
        let ghost pred = |p: UserProfileView| user_listed(p, after, shard, shard_count as nat);
        let after_chars: Option<Vec<char>> = match after_user_id {
            Some(a) => Some(chars_of(a)),
            None => None,
        };
        let mut users: Vec<UserProfile> = Vec::new();
        let mut i: usize = 0;
        assert(list.take(0) =~= Seq::<UserProfileView>::empty());
        assert(profile_views(users@) =~= Seq::<UserProfileView>::empty());
        proof {
            reveal_with_fuel(Seq::<_>::filter, 1);
        }
        while i < self.profiles.len()
            invariant
                i <= self.profiles@.len(),
                list == profile_views(self.profiles@),
                pred == (|p: UserProfileView| user_listed(p, after, shard, shard_count as nat)),
                after == match after_user_id {
                    Some(a) => Some(a@),
                    None => None::<Seq<char>>,
                },
                match after_chars {
                    Some(v) => after_user_id is Some && v@ == after_user_id->Some_0@,
                    None => after_user_id is None,
                },
                profile_views(users@) == list.take(i as int).filter(pred),
                users@.len() <= limit,
            decreases self.profiles@.len() - i,
        {
            proof {
                lemma_filter_step(list, i as int, pred);
            }
            let p = &self.profiles[i];
            let mut keep = true;
            match &after_chars {
                Some(a) => {
                    let id = chars_of(p.user_id.as_str());
                    if chars_lt(id.as_slice(), a.as_slice()) || chars_eq(id.as_slice(), a.as_slice()) {
                        keep = false;
                    }
                },
                None => {},
            }
            if keep {
                match shard {
                    Some(sh) => {
                        if shard_index(p.user_id.as_str(), shard_count) != sh {
                            keep = false;
                        }
                    },
                    None => {},
                }
            }
            assert(keep == pred(list[i as int]));
            if keep {
                let ghost before = users@;
                users.push(p.duplicate());
                assert(profile_views(users@) =~= profile_views(before).push(list[i as int]));
                if users.len() > limit {
                    proof {
                        lemma_filter_prefix(list, i + 1, pred);
                        let all = list.filter(pred);
                        assert(all.take(limit as int) =~= profile_views(users@).take(limit as int));
                    }
                    users.truncate(limit);
                    let next = if users.len() > 0 {
                        Some(users[users.len() - 1].user_id.clone())
                    } else {
                        None
                    };
                    return ListUsersResponse { users, next_after_user_id: next, has_more: true };
                }
            }
            i = i + 1;
        }
        assert(list.take(i as int) =~= list);
        let next = if users.len() > 0 {
            Some(users[users.len() - 1].user_id.clone())
        } else {
            None
        };
        ListUsersResponse { users, next_after_user_id: next, has_more: false }
    }

    /// The events of `user_id` newest first: those before `before_lsn`, at
    /// most `limit`.
    pub fn list_events(&self, user_id: &str, before_lsn: Option<u64>, limit: usize) -> (r: Vec<UserEvent>)
        requires
            self.wf(),
        ensures
            event_views(r@) == listed_events(events_of(self@, user_id@), before_lsn, limit as nat),
    {
        let name = crate::text::owned(user_id);
        let ghost pred = |e: UserEventView| event_before(e, before_lsn);
        let mut out: Vec<UserEvent> = Vec::new();
        match self.find_user_events(&name) {
            None => {
                proof {
                    reveal_with_fuel(Seq::<_>::filter, 1);
                    assert(events_of(self@, user_id@) =~= Seq::<UserEventView>::empty());
                    assert(events_of(self@, user_id@).reverse() =~= Seq::<UserEventView>::empty());
                }
                assert(event_views(out@) =~= Seq::<UserEventView>::empty());
                out
            },
            Some(i) => {
                let list = &self.events[i].1;
                let ghost all = event_views(list@);
                let ghost rev = all.reverse();
                assert(all == events_of(self@, user_id@));
                let n = list.len();
                let mut k: usize = 0;
                assert(rev.take(0) =~= Seq::<UserEventView>::empty());
                assert(event_views(out@) =~= Seq::<UserEventView>::empty());
                proof {
                    reveal_with_fuel(Seq::<_>::filter, 1);
                }
                if limit == 0 {
                    proof {
                        assert(first_n(rev.filter(pred), 0) =~= Seq::<UserEventView>::empty());
                    }
                    return out;
                }
                while k < n
                    invariant
                        n == list@.len(),
                        all == event_views(list@),
                        all == events_of(self@, user_id@),
                        rev == all.reverse(),
                        pred == (|e: UserEventView| event_before(e, before_lsn)),
                        k <= n,
                        limit > 0,
                        event_views(out@) == rev.take(k as int).filter(pred),
                        out@.len() < limit,
                    decreases n - k,
                {
                    proof {
                        lemma_filter_step(rev, k as int, pred);
                        assert(rev[k as int] == all[n - 1 - k]);
                    }
                    let e = &list[n - 1 - k];
                    let keep = match before_lsn {
                        Some(b) => e.lsn < b,
                        None => true,
                    };
                    assert(keep == pred(rev[k as int]));
                    if keep {
                        let ghost before = out@;
                        out.push(e.duplicate());
                        assert(event_views(out@) =~= event_views(before).push(rev[k as int]));
                        if out.len() == limit {
                            proof {
                                lemma_filter_prefix(rev, k + 1, pred);
                                let f = rev.filter(pred);
                                if f.len() > limit {
                                    assert(f.take(limit as int) =~= event_views(out@));
                                } else {
                                    assert(f =~= event_views(out@) + rev.skip(k + 1).filter(pred));
                                    assert(rev.skip(k + 1).filter(pred).len() == 0);
                                    assert(f =~= event_views(out@));
                                }
                            }
                            return out;
                        }
                    }
                    k = k + 1;
                }
                assert(rev.take(k as int) =~= rev);
                out
            },
        }
    }
}

/// The profile an upsert of `user_id` writes at `now`: the display name
/// trimmed (none where blank), the metadata (an empty object for null), the
/// creation time kept from the existing profile (else now), at
/// `users/{user_id}`.
pub fn user_profile_draft(
    user_id: &str,
    client_mutation_id: Option<String>,
    display_name: Option<String>,
    metadata: crate::json::JsonValue,
    existing_created_at_ms: Option<u64>,
    now: u64,
) -> (d: crate::model::UserProfileDraft)
    ensures
        d.user_id@ == user_id@,
        d.client_mutation_id == client_mutation_id,
        match display_name {
            Some(n) => if crate::text::trim(n@).len() > 0 {
                d.display_name matches Some(x) && x@ == crate::text::trim(n@)
            } else {
                d.display_name is None
            },
            None => d.display_name is None,
        },
        d.metadata@ == match metadata@ {
            crate::json::JsonView::Null => crate::json::JsonView::Object(Seq::empty()),
            m => m,
        },
        d.created_at_ms == match existing_created_at_ms {
            Some(c) => c,
            None => now,
        },
        d.updated_at_ms == now,
        d.path@ == "users/"@ + user_id@,
{
    let name = match display_name {
        Some(n) => {
            let t = crate::text::trim_string(n.as_str());
            if chars_of(t.as_str()).len() > 0 {
                Some(t)
            } else {
                None
            }
        },
        None => None,
    };
    let meta = match metadata {
        crate::json::JsonValue::Null => {
            let members: Vec<(String, crate::json::JsonValue)> = Vec::new();
            let r = crate::json::JsonValue::Object(members);
            assert(r@->Object_0 =~= Seq::<(Seq<char>, crate::json::JsonView)>::empty());
            r
        },
        m => m,
    };
    crate::model::UserProfileDraft {
        user_id: crate::text::owned(user_id),
        client_mutation_id,
        display_name: name,
        metadata: meta,
        created_at_ms: match existing_created_at_ms {
            Some(c) => c,
            None => now,
        },
        updated_at_ms: now,
        path: crate::text::cat2("users/", user_id),
    }
}

} // verus!
