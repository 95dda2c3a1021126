//! Admission control for one ceremony shard: participants wait in a queue,
//! at most one of them is active at a time, and idle ones are evicted.
use vstd::prelude::*;

verus! {

/// Where a participant stands.
#[derive(Clone, Copy, Debug, PartialEq, Eq, Structural)]
pub enum SessionState {
    Waiting,
    Active,
    Completed,
    Failed,
}

/// A participant in the lobby, by its verified identity.
#[derive(Clone, Copy, Debug, PartialEq, Eq, Structural)]
pub struct Session {
    pub id: u64,
    pub state: SessionState,
    /// When the session last entered the queue.
    pub entered: u64,
    pub last_activity: u64,
}

/// Why the lobby refused an event.
#[derive(Clone, Copy, Debug, PartialEq, Eq, Structural)]
pub enum LobbyError {
    /// The participant already holds a session.
    AlreadyInLobby,
    /// The participant holds no session.
    UnknownSession,
    /// The participant holds no active session.
    NotActive,
    /// The participant has contributed already, and the ceremony accepts one
    /// contribution per participant.
    AlreadyContributed,
}

/// The sessions of one shard, in the order in which they entered.
pub struct Lobby {
    pub sessions: Vec<Session>,
    /// A session idle for longer than this is evicted by a sweep.
    pub timeout: u64,
    /// Whether a session that aborts or fails goes back to the queue rather
    /// than leaving the lobby.
    pub requeue: bool,
}

/// Some session belongs to `id`.
pub open spec fn has_id(s: Seq<Session>, id: u64) -> bool {
    exists|i: int| 0 <= i < s.len() && (#[trigger] s[i]).id == id
}

/// The session of `id` holds the slot.
pub open spec fn is_active_id(s: Seq<Session>, id: u64) -> bool {
    exists|i: int| 0 <= i < s.len() && (#[trigger] s[i]).id == id && s[i].state == SessionState::Active
}

/// Some session holds the slot.
pub open spec fn has_active(s: Seq<Session>) -> bool {
    exists|i: int| 0 <= i < s.len() && (#[trigger] s[i]).state == SessionState::Active
}

/// No two sessions are active.
pub open spec fn single_active(s: Seq<Session>) -> bool {
    forall|i: int, j: int|
        0 <= i < s.len() && 0 <= j < s.len() && (#[trigger] s[i]).state == SessionState::Active
            && (#[trigger] s[j]).state == SessionState::Active ==> i == j
}

/// No participant holds two sessions.
pub open spec fn unique_ids(s: Seq<Session>) -> bool {
    forall|i: int, j: int|
        0 <= i < s.len() && 0 <= j < s.len() && (#[trigger] s[i]).id == (#[trigger] s[j]).id ==> i
            == j
}

/// Sessions in a lobby are waiting or active.
pub open spec fn pending(s: Seq<Session>) -> bool {
    forall|i: int|
        0 <= i < s.len() ==> (#[trigger] s[i]).state == SessionState::Waiting || s[i].state
            == SessionState::Active
}

/// Unique participants, at most one active, and none finished.
pub open spec fn sessions_wf(s: Seq<Session>) -> bool {
    unique_ids(s) && single_active(s) && pending(s)
}

/// The position of the session of `id`.
pub open spec fn index_of(s: Seq<Session>, id: u64) -> int {
    choose|i: int| 0 <= i < s.len() && s[i].id == id
}

/// `a` comes before `b` in the queue, or is `b`: it entered earlier, or at
/// the same time with an identity no larger.
pub open spec fn in_line_before(a: Session, b: Session) -> bool {
    a.entered < b.entered || (a.entered == b.entered && a.id <= b.id)
}

/// The session at `i` is the first in the queue.
pub open spec fn first_in_line(s: Seq<Session>, i: int) -> bool {
    forall|j: int| 0 <= j < s.len() ==> in_line_before(s[i], #[trigger] s[j])
}

/// A session idle for longer than `timeout` at time `now`.
pub open spec fn expired(s: Session, now: u64, timeout: u64) -> bool {
    now as int - s.last_activity as int > timeout as int
}

/// The sessions after the one at `i` leaves, and, if `requeue`, enters again
/// at the back of the queue.
pub open spec fn leave(s: Seq<Session>, i: int, requeue: bool, now: u64) -> Seq<Session> {
    if requeue {
        s.remove(i).push(
            Session { id: s[i].id, state: SessionState::Waiting, entered: now, last_activity: now },
        )
    } else {
        s.remove(i)
    }
}

proof fn lemma_remove_wf(s: Seq<Session>, i: int)
    requires
        sessions_wf(s),
        0 <= i < s.len(),
    ensures
        sessions_wf(s.remove(i)),
        !has_id(s.remove(i), s[i].id),
        s[i].state == SessionState::Active ==> !has_active(s.remove(i)),
{
    let r = s.remove(i);
    assert forall|a: int, b: int|
        0 <= a < r.len() && 0 <= b < r.len() && (#[trigger] r[a]).id == (#[trigger] r[b]).id implies a
        == b by {
        let a2 = if a < i { a } else { a + 1 };
        let b2 = if b < i { b } else { b + 1 };
        assert(r[a] == s[a2] && r[b] == s[b2]);
    }
    assert forall|a: int, b: int|
        0 <= a < r.len() && 0 <= b < r.len() && (#[trigger] r[a]).state == SessionState::Active
            && (#[trigger] r[b]).state == SessionState::Active implies a == b by {
        let a2 = if a < i { a } else { a + 1 };
        let b2 = if b < i { b } else { b + 1 };
        assert(r[a] == s[a2] && r[b] == s[b2]);
    }
    assert forall|a: int| 0 <= a < r.len() implies (#[trigger] r[a]).state == SessionState::Waiting
        || r[a].state == SessionState::Active by {
        let a2 = if a < i { a } else { a + 1 };
        assert(r[a] == s[a2]);
    }
    if has_id(r, s[i].id) {
        let a = choose|a: int| 0 <= a < r.len() && (#[trigger] r[a]).id == s[i].id;
        let a2 = if a < i { a } else { a + 1 };
        assert(r[a] == s[a2]);
    }
    if s[i].state == SessionState::Active && has_active(r) {
        let a = choose|a: int| 0 <= a < r.len() && (#[trigger] r[a]).state == SessionState::Active;
        let a2 = if a < i { a } else { a + 1 };
        assert(r[a] == s[a2]);
    }
}

proof fn lemma_push_wf(s: Seq<Session>, x: Session)
    requires
        sessions_wf(s),
        !has_id(s, x.id),
        x.state == SessionState::Waiting || (x.state == SessionState::Active && !has_active(s)),
    ensures
        sessions_wf(s.push(x)),
{
    let r = s.push(x);
    assert forall|a: int, b: int|
        0 <= a < r.len() && 0 <= b < r.len() && (#[trigger] r[a]).id == (#[trigger] r[b]).id implies a
        == b by {
        if a < s.len() && b == s.len() {
            assert(s[a].id == x.id);
        }
        if b < s.len() && a == s.len() {
            assert(s[b].id == x.id);
        }
    }
    assert forall|a: int, b: int|
        0 <= a < r.len() && 0 <= b < r.len() && (#[trigger] r[a]).state == SessionState::Active
            && (#[trigger] r[b]).state == SessionState::Active implies a == b by {
        if a < s.len() && b == s.len() {
            assert(s[a].state == SessionState::Active);
        }
        if b < s.len() && a == s.len() {
            assert(s[b].state == SessionState::Active);
        }
    }
}

/// The sessions that a sweep at `now` keeps.
pub open spec fn live(now: u64, timeout: u64) -> spec_fn(Session) -> bool {
    |x: Session| !expired(x, now, timeout)
}

impl Lobby {
    /// The sessions are well formed.
    pub open spec fn wf(&self) -> bool {
        sessions_wf(self.sessions@)
    }

    /// An empty lobby.
    pub fn new(timeout: u64, requeue: bool) -> (r: Lobby)
        ensures
            r.wf(),
            r.sessions@ == Seq::<Session>::empty(),
            r.timeout == timeout,
            r.requeue == requeue,
    {
        Lobby { sessions: Vec::new(), timeout, requeue }
    }

    /// The position of the session of `id`, if there is one.
    pub fn find(&self, id: u64) -> (r: Option<usize>)
        requires
            self.wf(),
        ensures
            r is None <==> !has_id(self.sessions@, id),
            r matches Some(i) ==> i == index_of(self.sessions@, id) && i < self.sessions@.len()
                && self.sessions@[i as int].id == id,
    {
        let mut i: usize = 0;
        while i < self.sessions.len()
            invariant
                self.wf(),
                i <= self.sessions@.len(),
                forall|j: int| 0 <= j < i ==> (#[trigger] self.sessions@[j]).id != id,
            decreases self.sessions@.len() - i,
        {
            if self.sessions[i].id == id {
                proof {
                    let s = self.sessions@;
                    assert(s[i as int].id == id);
                    let k = index_of(s, id);
                    assert(s[k].id == s[i as int].id);
                }
                return Some(i);
            }
            i = i + 1;
        }
        None
    }

    /// Whether the session of `id` holds the slot.
    pub fn is_active(&self, id: u64) -> (r: bool)
        requires
            self.wf(),
        ensures
            r == is_active_id(self.sessions@, id),
    {
        match self.find(id) {
            None => false,
            Some(i) => {
                proof {
                    let s = self.sessions@;
                    if is_active_id(s, id) {
                        let k = choose|k: int|
                            0 <= k < s.len() && (#[trigger] s[k]).id == id && s[k].state
                                == SessionState::Active;
                        assert(s[k].id == s[i as int].id);
                    }
                }
                self.sessions[i].state == SessionState::Active
            },
        }
    }

    /// Whether a session is active.
    pub fn slot_taken(&self) -> (r: bool)
        ensures
            r == has_active(self.sessions@),
    {
        let mut i: usize = 0;
        while i < self.sessions.len()
            invariant
                i <= self.sessions@.len(),
                forall|j: int| 0 <= j < i ==> (#[trigger] self.sessions@[j]).state != SessionState::Active,
            decreases self.sessions@.len() - i,
        {
            if self.sessions[i].state == SessionState::Active {
                return true;
            }
            i = i + 1;
        }
        false
    }

    /// A verified participant enters the queue, at its back.
    pub fn enter(&mut self, id: u64, now: u64) -> (r: Result<(), LobbyError>)
        requires
            old(self).wf(),
        ensures
            final(self).wf(),
            final(self).timeout == old(self).timeout,
            final(self).requeue == old(self).requeue,
            r is Err <==> has_id(old(self).sessions@, id),
            r is Err ==> r == Err::<(), LobbyError>(LobbyError::AlreadyInLobby) && final(self).sessions@
                == old(self).sessions@,
            r is Ok ==> final(self).sessions@ == old(self).sessions@.push(
                Session { id, state: SessionState::Waiting, entered: now, last_activity: now },
            ),
    {
        if self.find(id).is_some() {
            return Err(LobbyError::AlreadyInLobby);
        }
        let x = Session { id, state: SessionState::Waiting, entered: now, last_activity: now };
        proof {
            lemma_push_wf(self.sessions@, x);
        }
        self.sessions.push(x);
        Ok(())
    }

    /// The participant shows it is still there.
    pub fn ping(&mut self, id: u64, now: u64) -> (r: Result<(), LobbyError>)
        requires
            old(self).wf(),
        ensures
            final(self).wf(),
            final(self).timeout == old(self).timeout,
            final(self).requeue == old(self).requeue,
            r is Err <==> !has_id(old(self).sessions@, id),
            r is Err ==> r == Err::<(), LobbyError>(LobbyError::UnknownSession) && final(self).sessions@
                == old(self).sessions@,
            r is Ok ==> final(self).sessions@ == old(self).sessions@.update(
                index_of(old(self).sessions@, id),
                Session { last_activity: now, ..old(self).sessions@[index_of(old(self).sessions@, id)] },
            ),
    {
        match self.find(id) {
            None => Err(LobbyError::UnknownSession),
            Some(i) => {
                let x = Session { last_activity: now, ..self.sessions[i] };
                let ghost s = self.sessions@;
                self.sessions.set(i, x);
                proof {
                    let r = self.sessions@;
                    assert forall|a: int, b: int|
                        0 <= a < r.len() && 0 <= b < r.len() && (#[trigger] r[a]).id == (
                        #[trigger] r[b]).id implies a == b by {
                        assert(r[a].id == s[a].id && r[b].id == s[b].id);
                    }
                    assert forall|a: int, b: int|
                        0 <= a < r.len() && 0 <= b < r.len() && (#[trigger] r[a]).state
                            == SessionState::Active && (#[trigger] r[b]).state
                            == SessionState::Active implies a == b by {
                        assert(r[a].state == s[a].state && r[b].state == s[b].state);
                    }
                    assert forall|a: int| 0 <= a < r.len() implies (#[trigger] r[a]).state
                        == SessionState::Waiting || r[a].state == SessionState::Active by {
                        assert(r[a].state == s[a].state);
                    }
                }
                Ok(())
            },
        }
    }

    /// When no session is active and one waits, the one that entered the
    /// queue first, the smaller identity first among equal times, becomes
    /// active; returns its identity.
    pub fn promote(&mut self, now: u64) -> (r: Option<u64>)
        requires
            old(self).wf(),
        ensures
            final(self).wf(),
            final(self).timeout == old(self).timeout,
            final(self).requeue == old(self).requeue,
            r is Some <==> !has_active(old(self).sessions@) && old(self).sessions@.len() > 0,
            r is None ==> final(self).sessions@ == old(self).sessions@,
            r matches Some(id) ==> exists|i: int|
                0 <= i < old(self).sessions@.len() && old(self).sessions@[i].id == id && first_in_line(
                    old(self).sessions@,
                    i,
                ) && final(self).sessions@ == old(self).sessions@.update(
                    i,
                    Session { state: SessionState::Active, last_activity: now, ..old(self).sessions@[i] },
                ),
    {
        if self.sessions.len() == 0 || self.slot_taken() {
            return None;
        }
        let mut m: usize = 0;
        let mut j: usize = 1;
        while j < self.sessions.len()
            invariant
                1 <= j <= self.sessions@.len(),
                m < j,
                forall|k: int| 0 <= k < j ==> in_line_before(self.sessions@[m as int], #[trigger] self.sessions@[k]),
            decreases self.sessions@.len() - j,
        {
            let a = self.sessions[j];
            let b = self.sessions[m];
            if a.entered < b.entered || (a.entered == b.entered && a.id < b.id) {
                m = j;
            }
            j = j + 1;
        }
        let x = Session { state: SessionState::Active, last_activity: now, ..self.sessions[m] };
        let id = x.id;
        let ghost s = self.sessions@;
        self.sessions.set(m, x);
        proof {
            let r = self.sessions@;
            let mi = m as int;
            assert forall|a: int, b: int|
                0 <= a < r.len() && 0 <= b < r.len() && (#[trigger] r[a]).id == (#[trigger] r[b]).id implies a
                == b by {
                assert(r[a].id == s[a].id && r[b].id == s[b].id);
            }
            assert forall|a: int, b: int|
                0 <= a < r.len() && 0 <= b < r.len() && (#[trigger] r[a]).state
                    == SessionState::Active && (#[trigger] r[b]).state
                    == SessionState::Active implies a == b by {
                if a != mi {
                    assert(r[a] == s[a]);
                }
                if b != mi {
                    assert(r[b] == s[b]);
                }
            }
            assert forall|a: int| 0 <= a < r.len() implies (#[trigger] r[a]).state
                == SessionState::Waiting || r[a].state == SessionState::Active by {
                if a != mi {
                    assert(r[a] == s[a]);
                }
            }
            assert(s[mi].id == id && first_in_line(s, mi));
        }
        Some(id)
    }

    /// The active session of `id` leaves the slot: with `requeue` set it goes
    /// back to the end of the queue, else it leaves the lobby.
    fn release(&mut self, id: u64, requeue: bool, now: u64) -> (r: Result<(), LobbyError>)
        requires
            old(self).wf(),
        ensures
            final(self).wf(),
            final(self).timeout == old(self).timeout,
            final(self).requeue == old(self).requeue,
            r is Err <==> !is_active_id(old(self).sessions@, id),
            r is Err ==> r == Err::<(), LobbyError>(LobbyError::NotActive) && final(self).sessions@
                == old(self).sessions@,
            r is Ok ==> final(self).sessions@ == leave(
                old(self).sessions@,
                index_of(old(self).sessions@, id),
                requeue,
                now,
            ),
            r is Ok ==> !has_active(final(self).sessions@),
    {
        match self.find(id) {
            None => Err(LobbyError::NotActive),
            Some(i) => {
                if self.sessions[i].state != SessionState::Active {
                    proof {
                        let s = self.sessions@;
                        if is_active_id(s, id) {
                            let k = choose|k: int|
                                0 <= k < s.len() && (#[trigger] s[k]).id == id && s[k].state
                                    == SessionState::Active;
                            assert(s[k].id == s[i as int].id);
                        }
                    }
                    return Err(LobbyError::NotActive);
                }
                let ghost s = self.sessions@;
                proof {
                    lemma_remove_wf(s, i as int);
                }
                self.sessions.remove(i);
                if requeue {
                    let x = Session { id, state: SessionState::Waiting, entered: now, last_activity: now };
                    proof {
                        lemma_push_wf(self.sessions@, x);
                        let r = self.sessions@.push(x);
                        if has_active(r) {
                            let a = choose|a: int|
                                0 <= a < r.len() && (#[trigger] r[a]).state == SessionState::Active;
                            assert(a < self.sessions@.len());
                            assert(r[a] == self.sessions@[a]);
                        }
                    }
                    self.sessions.push(x);
                }
                Ok(())
            },
        }
    }

    /// The active participant gives up its slot; it goes back to the queue or
    /// leaves, by the lobby's policy.
    pub fn abort(&mut self, id: u64, now: u64) -> (r: Result<(), LobbyError>)
        requires
            old(self).wf(),
        ensures
            final(self).wf(),
            final(self).timeout == old(self).timeout,
            final(self).requeue == old(self).requeue,
            r is Err <==> !is_active_id(old(self).sessions@, id),
            r is Err ==> r == Err::<(), LobbyError>(LobbyError::NotActive) && final(self).sessions@
                == old(self).sessions@,
            r is Ok ==> final(self).sessions@ == leave(
                old(self).sessions@,
                index_of(old(self).sessions@, id),
                old(self).requeue,
                now,
            ),
            r is Ok ==> !has_active(final(self).sessions@),
    {
        let requeue = self.requeue;
        self.release(id, requeue, now)
    }

    /// The active participant's submission was judged: an accepted one
    /// completes and leaves; a rejected one fails and goes back to the queue
    /// or leaves, by the lobby's policy.
    pub fn finish(&mut self, id: u64, accepted: bool, now: u64) -> (r: Result<SessionState, LobbyError>)
        requires
            old(self).wf(),
        ensures
            final(self).wf(),
            final(self).timeout == old(self).timeout,
            final(self).requeue == old(self).requeue,
            r is Err <==> !is_active_id(old(self).sessions@, id),
            r is Err ==> r == Err::<SessionState, LobbyError>(LobbyError::NotActive)
                && final(self).sessions@ == old(self).sessions@,
            r is Ok ==> r == Ok::<SessionState, LobbyError>(
                if accepted {
                    SessionState::Completed
                } else {
                    SessionState::Failed
                },
            ) && final(self).sessions@ == leave(
                old(self).sessions@,
                index_of(old(self).sessions@, id),
                !accepted && old(self).requeue,
                now,
            ),
            r is Ok ==> !has_active(final(self).sessions@),
    {
        let requeue = !accepted && self.requeue;
        match self.release(id, requeue, now) {
            Err(e) => Err(e),
            Ok(()) => Ok(
                if accepted {
                    SessionState::Completed
                } else {
                    SessionState::Failed
                },
            ),
        }
    }
    /// Evicts every session, waiting or active, idle for longer than the
    /// timeout; the others keep their order.
    pub fn sweep(&mut self, now: u64)
        requires
            old(self).wf(),
        ensures
            final(self).wf(),
            final(self).timeout == old(self).timeout,
            final(self).requeue == old(self).requeue,
            final(self).sessions@ == old(self).sessions@.filter(live(now, old(self).timeout)),
    {
        let ghost s = self.sessions@;
        let timeout = self.timeout;
        let mut kept: Vec<Session> = Vec::new();
        let mut i: usize = 0;
        while i < self.sessions.len()
            invariant
                self.sessions@ == s,
                self.timeout == timeout,
                sessions_wf(s),
                i <= s.len(),
                kept@ == s.subrange(0, i as int).filter(live(now, timeout)),
                sessions_wf(kept@),
                forall|k: int|
                    0 <= k < kept@.len() ==> exists|j: int| 0 <= j < i && s[j] == #[trigger] kept@[k],
            decreases s.len() - i,
        {
            let x = self.sessions[i];
            proof {
                assert(s.subrange(0, i + 1) =~= s.subrange(0, i as int).push(x));
                s.subrange(0, i as int).lemma_filter_push(x, live(now, timeout));
                assert(live(now, timeout)(x) == !(now > x.last_activity && now - x.last_activity
                    > timeout));
                assert(s.subrange(0, i + 1).filter(live(now, timeout)) == if live(now, timeout)(x) {
                    s.subrange(0, i as int).filter(live(now, timeout)).push(x)
                } else {
                    s.subrange(0, i as int).filter(live(now, timeout))
                });
            }
            if !(now > x.last_activity && now - x.last_activity > timeout) {
                proof {
                    if has_id(kept@, x.id) {
                        let k = choose|k: int| 0 <= k < kept@.len() && (#[trigger] kept@[k]).id == x.id;
                        let j = choose|j: int| 0 <= j < i && s[j] == #[trigger] kept@[k];
                        assert(s[j].id == s[i as int].id);
                    }
                    if x.state == SessionState::Active && has_active(kept@) {
                        let k = choose|k: int|
                            0 <= k < kept@.len() && (#[trigger] kept@[k]).state == SessionState::Active;
                        let j = choose|j: int| 0 <= j < i && s[j] == #[trigger] kept@[k];
                        assert(s[j].state == SessionState::Active);
                    }
                    assert(s[i as int].state == SessionState::Waiting || s[i as int].state
                        == SessionState::Active);
                    lemma_push_wf(kept@, x);
                }
                kept.push(x);
                proof {
                    assert forall|k: int| 0 <= k < kept@.len() implies exists|j: int|
                        0 <= j < i + 1 && s[j] == #[trigger] kept@[k] by {
                        if k == kept@.len() - 1 {
                            assert(s[i as int] == kept@[k]);
                        } else {
                            let j = choose|j: int| 0 <= j < i && s[j] == #[trigger] kept@[k];
                            assert(s[j] == kept@[k]);
                        }
                    }
                }
            }
            i = i + 1;
        }
        proof {
            assert(s.subrange(0, s.len() as int) =~= s);
        }
        self.sessions = kept;
    }
}

/// In a well-formed lobby, which every event keeps well formed, no two
/// sessions are active at once.
pub proof fn lemma_at_most_one_active(l: &Lobby, i: int, j: int)
    requires
        l.wf(),
        0 <= i < l.sessions@.len(),
        0 <= j < l.sessions@.len(),
        l.sessions@[i].state == SessionState::Active,
        l.sessions@[j].state == SessionState::Active,
    ensures
        i == j,
{
}

} // verus!
