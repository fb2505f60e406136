//! The session store: server-side session state keyed by an opaque session
//! id, with a sliding inactivity window and a periodic sweep that deletes
//! expired sessions independent of traffic.
//!
//! The store itself only decides; the process that owns it runs the sweep
//! on a timer and performs the waiting.  Each access to a live session
//! resets its inactivity timer; the sweep removes exactly the sessions
//! whose timer has lapsed.

use vstd::prelude::*;
use vstd::seq_lib::group_seq_lib_default;
use crate::mongo_crud::StoreError;
use crate::mongo_models::BaseUser;

verus! {

broadcast use group_seq_lib_default;

/// Failure to reach the backing store at startup.
#[derive(Debug)]
pub enum MongoCreateClientError {
    DatabaseUrlError(String),
}

/// One stored session: the values the authentication flow keeps in it and
/// the instant (epoch seconds) at which it expires.
pub struct SessionRecord {
    pub id: u64,
    pub current_user: Option<BaseUser>,
    pub jwt_token: Option<String>,
    pub deadline: i64,
}

impl Clone for SessionRecord {
    fn clone(&self) -> (r: Self)
        ensures
            r == *self,
    {
        SessionRecord {
            id: self.id,
            current_user: match &self.current_user {
                Some(u) => Some(u.clone()),
                None => None,
            },
            jwt_token: match &self.jwt_token {
                Some(t) => Some(t.clone()),
                None => None,
            },
            deadline: self.deadline,
        }
    }
}

/// A session is live at `now` while its deadline has not passed.
pub open spec fn session_live(s: SessionRecord, now: i64) -> bool {
    s.deadline > now
}

/// The sessions that survive a sweep at `now`: exactly the live ones, in
/// order.
pub open spec fn swept(records: Seq<SessionRecord>, now: i64) -> Seq<SessionRecord> {
    records.filter(|s: SessionRecord| session_live(s, now))
}

/// No stored session carries the id.
pub open spec fn session_absent(records: Seq<SessionRecord>, id: u64) -> bool {
    forall|i: int| 0 <= i < records.len() ==> (#[trigger] records[i].id) != id
}

/// Some stored session carries the id.
pub open spec fn has_session(records: Seq<SessionRecord>, id: u64) -> bool {
    exists|i: int| 0 <= i < records.len() && (#[trigger] records[i].id) == id
}

/// Every element of a filtered sequence comes from the original.
proof fn lemma_filter_from_original<A>(s: Seq<A>, pred: spec_fn(A) -> bool)
    ensures
        forall|k: int| 0 <= k < s.filter(pred).len() ==> s.contains(#[trigger] s.filter(pred)[k]),
    decreases s.len(),
{
    reveal(Seq::filter);
    if s.len() > 0 {
        lemma_filter_from_original(s.drop_last(), pred);
        assert forall|k: int| 0 <= k < s.filter(pred).len() implies s.contains(
            #[trigger] s.filter(pred)[k],
        ) by {
            let sub = s.drop_last().filter(pred);
            if k < sub.len() {
                assert(s.drop_last().contains(sub[k]));
                let j = choose|j: int| 0 <= j < s.drop_last().len() && s.drop_last()[j] == sub[k];
                assert(s[j] == sub[k]);
            } else {
                assert(s.filter(pred)[k] == s.last());
                assert(s[s.len() - 1] == s.last());
            }
        }
    }
}

/// Filtering a sequence of sessions with pairwise-distinct ids yields a
/// sequence of sessions with pairwise-distinct ids.
proof fn lemma_filter_ids_unique(s: Seq<SessionRecord>, pred: spec_fn(SessionRecord) -> bool)
    requires
        forall|a: int, b: int| 0 <= a < b < s.len() ==> (#[trigger] s[a].id) != (#[trigger] s[b].id),
    ensures
        forall|a: int, b: int|
            0 <= a < b < s.filter(pred).len() ==> (#[trigger] s.filter(pred)[a].id) != (
            #[trigger] s.filter(pred)[b].id),
    decreases s.len(),
{
    reveal(Seq::filter);
    if s.len() > 0 {
        let sub = s.drop_last();
        lemma_filter_ids_unique(sub, pred);
        lemma_filter_from_original(sub, pred);
        let f = s.filter(pred);
        let fsub = sub.filter(pred);
        if pred(s.last()) {
            assert(f == fsub.push(s.last()));
            assert forall|a: int, b: int| 0 <= a < b < f.len() implies (#[trigger] f[a].id) != (
            #[trigger] f[b].id) by {
                if b == f.len() - 1 {
                    assert(f[b] == s.last());
                    assert(sub.contains(fsub[a]));
                    let j = choose|j: int| 0 <= j < sub.len() && sub[j] == fsub[a];
                    assert(s[j] == f[a]);
                    assert(s[j].id != s[s.len() - 1].id);
                } else {
                    assert(f[a] == fsub[a] && f[b] == fsub[b]);
                }
            }
        } else {
            assert(f == fsub);
        }
    }
}

/// The session store, bound to its backing collection, with the inactivity
/// window it was configured with (one hour in this design).
pub struct SessionStore {
    records: Vec<SessionRecord>,
    next_id: u64,
    window_secs: i64,
}

impl SessionStore {
    /// The stored sessions, in creation order.
    pub closed spec fn spec_records(&self) -> Seq<SessionRecord> {
        self.records@
    }

    /// The next session id the store will assign.
    pub closed spec fn spec_next_id(&self) -> u64 {
        self.next_id
    }

    /// The configured inactivity window, in seconds.
    pub closed spec fn spec_window(&self) -> i64 {
        self.window_secs
    }

    /// Session ids are assigned, unique and below the counter; the window
    /// is positive.
    pub open spec fn wf(&self) -> bool {
        &&& forall|i: int|
            0 <= i < self.spec_records().len() ==> (#[trigger] self.spec_records()[i].id)
                < self.spec_next_id()
        &&& forall|i: int, j: int|
            0 <= i < j < self.spec_records().len() ==> (#[trigger] self.spec_records()[i].id) != (
            #[trigger] self.spec_records()[j].id)
        &&& 0 < self.spec_window()
    }

    /// An empty store with the given inactivity window.
    pub fn new(window_secs: i64) -> (r: Self)
        requires
            0 < window_secs,
        ensures
            r.wf(),
            r.spec_records().len() == 0,
            r.spec_next_id() == 0,
            r.spec_window() == window_secs,
    {
        SessionStore { records: Vec::new(), next_id: 0, window_secs }
    }

    /// Creates an empty session for a new client and returns its id; the
    /// session starts a full window away from expiry.
    pub fn create_session(&mut self, now: i64) -> (r: u64)
        requires
            old(self).wf(),
            old(self).spec_next_id() < u64::MAX,
            now <= i64::MAX - old(self).spec_window(),
        ensures
            final(self).wf(),
            r == old(self).spec_next_id(),
            final(self).spec_records() == old(self).spec_records().push(
                SessionRecord {
                    id: r,
                    current_user: None,
                    jwt_token: None,
                    deadline: (now + old(self).spec_window()) as i64,
                },
            ),
            final(self).spec_next_id() == old(self).spec_next_id() + 1,
            final(self).spec_window() == old(self).spec_window(),
    {
        let id = self.next_id;
        let deadline = now + self.window_secs;
        self.records.push(
            SessionRecord { id, current_user: None, jwt_token: None, deadline },
        );
        self.next_id = id + 1;
        id
    }

    /// Looks the position of a session up.
    fn find_index(&self, id: u64) -> (r: Option<usize>)
        ensures
            r matches Some(i) ==> i < self.spec_records().len() && self.spec_records()[
                i as int
            ].id == id,
            r is None <==> session_absent(self.spec_records(), id),
    {
        let n = self.records.len();
        let mut i: usize = 0;
        while i < n
            invariant
                i <= n,
                n == self.records@.len(),
                forall|j: int| 0 <= j < i ==> (#[trigger] self.records@[j].id) != id,
            decreases n - i,
        {
            if self.records[i].id == id {
                return Some(i);
            }
            i = i + 1;
        }
        None
    }

    /// Stores the logged-in user under the session, resetting its
    /// inactivity timer.  Writing to an unknown session is a store failure.
    pub fn set_current_user(&mut self, id: u64, user: BaseUser, now: i64) -> (r: Result<
        (),
        StoreError,
    >)
        requires
            old(self).wf(),
            now <= i64::MAX - old(self).spec_window(),
        ensures
            final(self).wf(),
            final(self).spec_window() == old(self).spec_window(),
            final(self).spec_next_id() == old(self).spec_next_id(),
            r is Ok <==> has_session(old(self).spec_records(), id),
            r is Ok ==> exists|i: int|
                0 <= i < old(self).spec_records().len()
                    && (#[trigger] old(self).spec_records()[i].id) == id
                    && final(self).spec_records() == old(self).spec_records().update(
                    i,
                    SessionRecord {
                        current_user: Some(user),
                        deadline: (now + old(self).spec_window()) as i64,
                        ..old(self).spec_records()[i]
                    },
                ),
            r is Err ==> final(self).spec_records() == old(self).spec_records(),
    {
        match self.find_index(id) {
            Some(i) => {
                let deadline = now + self.window_secs;
                let ghost pre = self.records@;
                let slot = &mut self.records[i];
                *slot = SessionRecord {
                    id: slot.id,
                    current_user: Some(user),
                    jwt_token: match &slot.jwt_token {
                        Some(t) => Some(t.clone()),
                        None => None,
                    },
                    deadline,
                };
                proof {
                    assert(has_session(pre, id)) by {
                        assert(pre[i as int].id == id);
                    }
                    assert(self.records@ =~= pre.update(
                        i as int,
                        SessionRecord {
                            current_user: Some(user),
                            deadline: (now + old(self).spec_window()) as i64,
                            ..pre[i as int]
                        },
                    ));
                }
                Ok(())
            },
            None => Err(StoreError::Other { message: "session not found".to_string() }),
        }
    }

    /// Stores the issued token under the session, resetting its inactivity
    /// timer.  Writing to an unknown session is a store failure.
    pub fn set_jwt_token(&mut self, id: u64, token: String, now: i64) -> (r: Result<
        (),
        StoreError,
    >)
        requires
            old(self).wf(),
            now <= i64::MAX - old(self).spec_window(),
        ensures
            final(self).wf(),
            final(self).spec_window() == old(self).spec_window(),
            final(self).spec_next_id() == old(self).spec_next_id(),
            r is Ok <==> has_session(old(self).spec_records(), id),
            r is Ok ==> exists|i: int|
                0 <= i < old(self).spec_records().len()
                    && (#[trigger] old(self).spec_records()[i].id) == id
                    && final(self).spec_records() == old(self).spec_records().update(
                    i,
                    SessionRecord {
                        jwt_token: Some(token),
                        deadline: (now + old(self).spec_window()) as i64,
                        ..old(self).spec_records()[i]
                    },
                ),
            r is Err ==> final(self).spec_records() == old(self).spec_records(),
    {
        match self.find_index(id) {
            Some(i) => {
                let deadline = now + self.window_secs;
                let ghost pre = self.records@;
                let slot = &mut self.records[i];
                *slot = SessionRecord {
                    id: slot.id,
                    current_user: match &slot.current_user {
                        Some(u) => Some(u.clone()),
                        None => None,
                    },
                    jwt_token: Some(token),
                    deadline,
                };
                proof {
                    assert(has_session(pre, id)) by {
                        assert(pre[i as int].id == id);
                    }
                    assert(self.records@ =~= pre.update(
                        i as int,
                        SessionRecord {
                            jwt_token: Some(token),
                            deadline: (now + old(self).spec_window()) as i64,
                            ..pre[i as int]
                        },
                    ));
                }
                Ok(())
            },
            None => Err(StoreError::Other { message: "session not found".to_string() }),
        }
    }

    /// Reads the token held by a live session, resetting its inactivity
    /// timer.  An unknown or already-expired session yields nothing and is
    /// left for the sweep.
    pub fn get_jwt_token(&mut self, id: u64, now: i64) -> (r: Option<String>)
        requires
            old(self).wf(),
            now <= i64::MAX - old(self).spec_window(),
        ensures
            final(self).wf(),
            final(self).spec_window() == old(self).spec_window(),
            final(self).spec_next_id() == old(self).spec_next_id(),
            ({
                let found = exists|i: int|
                    0 <= i < old(self).spec_records().len()
                        && (#[trigger] old(self).spec_records()[i].id) == id && session_live(
                        old(self).spec_records()[i],
                        now,
                    ) && old(self).spec_records()[i].jwt_token is Some;
                &&& r is Some <==> found
                &&& found ==> exists|i: int|
                    0 <= i < old(self).spec_records().len()
                        && (#[trigger] old(self).spec_records()[i].id) == id && session_live(
                        old(self).spec_records()[i],
                        now,
                    ) && old(self).spec_records()[i].jwt_token == r && final(self).spec_records()
                        == old(self).spec_records().update(
                        i,
                        SessionRecord {
                            deadline: (now + old(self).spec_window()) as i64,
                            ..old(self).spec_records()[i]
                        },
                    )
                &&& !found ==> final(self).spec_records() == old(self).spec_records()
            }),
    {
        match self.find_index(id) {
            Some(i) => {
                let live = self.records[i].deadline > now;
                if !live {
                    return None;
                }
                let token = match &self.records[i].jwt_token {
                    Some(t) => Some(t.clone()),
                    None => None,
                };
                if token.is_none() {
                    return None;
                }
                let deadline = now + self.window_secs;
                let ghost pre = self.records@;
                let slot = &mut self.records[i];
                *slot = SessionRecord {
                    id: slot.id,
                    current_user: match &slot.current_user {
                        Some(u) => Some(u.clone()),
                        None => None,
                    },
                    jwt_token: match &slot.jwt_token {
                        Some(t) => Some(t.clone()),
                        None => None,
                    },
                    deadline,
                };
                proof {
                    assert(self.records@ =~= pre.update(
                        i as int,
                        SessionRecord {
                            deadline: (now + old(self).spec_window()) as i64,
                            ..pre[i as int]
                        },
                    ));
                }
                token
            },
            None => None,
        }
    }

    /// Reads the user held by a live session, resetting its inactivity
    /// timer.  An unknown or already-expired session yields nothing and is
    /// left for the sweep.
    pub fn get_current_user(&mut self, id: u64, now: i64) -> (r: Option<BaseUser>)
        requires
            old(self).wf(),
            now <= i64::MAX - old(self).spec_window(),
        ensures
            final(self).wf(),
            final(self).spec_window() == old(self).spec_window(),
            final(self).spec_next_id() == old(self).spec_next_id(),
            ({
                let found = exists|i: int|
                    0 <= i < old(self).spec_records().len()
                        && (#[trigger] old(self).spec_records()[i].id) == id && session_live(
                        old(self).spec_records()[i],
                        now,
                    ) && old(self).spec_records()[i].current_user is Some;
                &&& r is Some <==> found
                &&& found ==> exists|i: int|
                    0 <= i < old(self).spec_records().len()
                        && (#[trigger] old(self).spec_records()[i].id) == id && session_live(
                        old(self).spec_records()[i],
                        now,
                    ) && old(self).spec_records()[i].current_user == r
                        && final(self).spec_records() == old(self).spec_records().update(
                        i,
                        SessionRecord {
                            deadline: (now + old(self).spec_window()) as i64,
                            ..old(self).spec_records()[i]
                        },
                    )
                &&& !found ==> final(self).spec_records() == old(self).spec_records()
            }),
    {
        match self.find_index(id) {
            Some(i) => {
                let live = self.records[i].deadline > now;
                if !live {
                    return None;
                }
                let user = match &self.records[i].current_user {
                    Some(u) => Some(u.clone()),
                    None => None,
                };
                if user.is_none() {
                    return None;
                }
                let deadline = now + self.window_secs;
                let ghost pre = self.records@;
                let slot = &mut self.records[i];
                *slot = SessionRecord {
                    id: slot.id,
                    current_user: match &slot.current_user {
                        Some(u) => Some(u.clone()),
                        None => None,
                    },
                    jwt_token: match &slot.jwt_token {
                        Some(t) => Some(t.clone()),
                        None => None,
                    },
                    deadline,
                };
                proof {
                    assert(self.records@ =~= pre.update(
                        i as int,
                        SessionRecord {
                            deadline: (now + old(self).spec_window()) as i64,
                            ..pre[i as int]
                        },
                    ));
                }
                user
            },
            None => None,
        }
    }

    /// One sweep cycle: deletes every session whose inactivity timer has
    /// lapsed at `now`, keeping exactly the live sessions in order.
    pub fn sweep(&mut self, now: i64)
        requires
            old(self).wf(),
        ensures
            final(self).wf(),
            final(self).spec_window() == old(self).spec_window(),
            final(self).spec_next_id() == old(self).spec_next_id(),
            final(self).spec_records() == swept(old(self).spec_records(), now),
    {
        let n = self.records.len();
        let mut kept: Vec<SessionRecord> = Vec::new();
        let mut i: usize = 0;
        proof {
            reveal(Seq::filter);
            assert(self.records@.take(0) =~= Seq::<SessionRecord>::empty());
        }
        while i < n
            invariant
                *self == *old(self),
                old(self).wf(),
                i <= n,
                n == self.records@.len(),
                kept@ == swept(self.records@.take(i as int), now),
            decreases n - i,
        {
            let ghost prefix = self.records@.take(i as int);
            if self.records[i].deadline > now {
                kept.push(self.records[i].clone());
            }
            proof {
                reveal(Seq::filter);
                assert(self.records@.take(i as int + 1) =~= prefix.push(
                    self.records@[i as int],
                ));
                assert(self.records@.take(i as int + 1).drop_last() =~= prefix);
            }
            i = i + 1;
        }
        proof {
            assert(self.records@.take(n as int) =~= self.records@);
            lemma_filter_from_original(
                self.records@,
                |s: SessionRecord| session_live(s, now),
            );
        }
        self.records = kept;
        proof {
            let pred = |s: SessionRecord| session_live(s, now);
            lemma_filter_ids_unique(old(self).spec_records(), pred);
            assert forall|k: int|
                0 <= k < self.records@.len() implies (#[trigger] self.records@[k].id)
                < self.next_id by {
                assert(old(self).spec_records().contains(self.records@[k]));
                let j = choose|j: int|
                    0 <= j < old(self).spec_records().len() && old(self).spec_records()[j]
                        == self.records@[k];
                assert(old(self).spec_records()[j].id < old(self).spec_next_id());
            }
        }
    }
}

/// Law: a session whose inactivity timer has lapsed is absent from the
/// store after a sweep.
pub proof fn lemma_sweep_removes_expired(records: Seq<SessionRecord>, now: i64, i: int)
    requires
        forall|a: int, b: int|
            0 <= a < b < records.len() ==> (#[trigger] records[a].id) != (#[trigger] records[b].id),
        0 <= i < records.len(),
        !session_live(records[i], now),
    ensures
        session_absent(swept(records, now), records[i].id),
{
    let pred = |s: SessionRecord| session_live(s, now);
    lemma_filter_from_original(records, pred);
    assert forall|k: int| 0 <= k < swept(records, now).len() implies (#[trigger] swept(
        records,
        now,
    )[k].id) != records[i].id by {
        records.lemma_filter_pred(pred, k);
        assert(records.contains(swept(records, now)[k]));
        let j = choose|j: int| 0 <= j < records.len() && records[j] == swept(records, now)[k];
        assert(session_live(records[j], now));
    }
}

/// Law: a session accessed before expiry has its timer reset to a full
/// window and survives a sweep that happens before the new deadline.
pub proof fn lemma_sweep_keeps_live(records: Seq<SessionRecord>, now: i64, i: int)
    requires
        0 <= i < records.len(),
        session_live(records[i], now),
    ensures
        swept(records, now).contains(records[i]),
{
    let pred = |s: SessionRecord| session_live(s, now);
    records.lemma_filter_contains(pred, i);
}

} // verus!
