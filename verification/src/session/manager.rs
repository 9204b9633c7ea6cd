use vstd::prelude::*;
use crate::protocol::message::AdbMessage;
use crate::protocol::handshake::{HandshakeManager, HandshakeHandler, HandshakeError, HandshakeStateSpec};
use crate::text::{str_eq, to_owned_string, push_str};

verus! {

/// Where an ADB session stands.
#[derive(Debug, Clone, Copy, PartialEq, Eq, Structural)]
pub enum SessionState {
    Created,
    Handshaking,
    Connected,
    Failed,
    Closed,
}

/// What is reported of a session; times in milliseconds.
#[derive(Debug, Clone)]
pub struct SessionInfo {
    pub session_id: String,
    pub client_id: String,
    pub device_id: String,
    pub state: SessionState,
    pub created_at_ms: u64,
    pub last_activity_ms: u64,
    pub timeout_ms: u64,
}

/// Counts of the sessions of a manager.
#[derive(Debug, Clone, Copy, PartialEq, Eq, Structural)]
pub struct SessionManagerStats {
    pub active_sessions: usize,
    pub connected_sessions: usize,
    pub handshaking_sessions: usize,
    pub max_concurrent_sessions: usize,
    pub session_timeout_ms: u64,
    pub total_sessions_created: usize,
}

/// Why a session request was refused.
#[derive(Debug)]
pub enum SessionError {
    /// As many sessions as allowed are open.
    TooManySessions { max: usize },
    /// The client has a session on the device already.
    SessionExists { client_id: String, device_id: String },
    /// The session is not in the state the request needs.
    InvalidState { state: SessionState },
    /// The handshake refused the message.
    Handshake(HandshakeError),
}

/// One client's ADB session with a device.
pub struct AdbSession {
    pub session_id: String,
    pub client_id: String,
    pub device_id: String,
    pub state: SessionState,
    pub handshake: HandshakeManager,
    pub created_at_ms: u64,
    pub last_activity_ms: u64,
    pub timeout_ms: u64,
}

/// The session state a handshake state leads to.
pub open spec fn after_handshake(hs: HandshakeStateSpec, current: SessionState) -> SessionState {
    match hs {
        HandshakeStateSpec::Connected { .. } => SessionState::Connected,
        HandshakeStateSpec::Failed(_) => SessionState::Failed,
        _ => current,
    }
}

impl AdbSession {
    /// A created session, with a handshake announcing `system_identity`.
    pub fn new(
        session_id: String,
        client_id: String,
        device_id: String,
        system_identity: String,
        timeout_ms: u64,
        now_ms: u64,
    ) -> (r: Self)
        ensures
            r.session_id == session_id,
            r.client_id == client_id,
            r.device_id == device_id,
            r.state == SessionState::Created,
            r.handshake.spec_state() == HandshakeStateSpec::WaitingForConnect,
            r.created_at_ms == now_ms,
            r.last_activity_ms == now_ms,
            r.timeout_ms == timeout_ms,
    {
        let handler = HandshakeHandler::new(system_identity);
        AdbSession {
            session_id,
            client_id,
            device_id,
            state: SessionState::Created,
            handshake: HandshakeManager::new(handler),
            created_at_ms: now_ms,
            last_activity_ms: now_ms,
            timeout_ms,
        }
    }

    /// Starts the handshake of a created session at `now_ms`.
    pub fn start_handshake(&mut self, now_ms: u64) -> (r: Result<(), SessionError>)
        ensures
            old(self).state != SessionState::Created ==> (r matches Err(SessionError::InvalidState { state }) && state == old(self).state)
                && final(self).state == old(self).state
                && final(self).last_activity_ms == old(self).last_activity_ms,
            old(self).state == SessionState::Created ==> r is Ok
                && final(self).state == SessionState::Handshaking
                && final(self).handshake.spec_state() == HandshakeStateSpec::WaitingForConnect
                && final(self).last_activity_ms == now_ms,
            final(self).created_at_ms == old(self).created_at_ms,
            final(self).timeout_ms == old(self).timeout_ms,
    {
        if self.state != SessionState::Created {
            return Err(SessionError::InvalidState { state: self.state });
        }
        self.state = SessionState::Handshaking;
        self.handshake.start();
        self.last_activity_ms = now_ms;
        Ok(())
    }

    /// Hands a message to the handshake of a handshaking session at
    /// `now_ms`; the session is connected or failed when the handshake is.
    pub fn process_handshake_message(&mut self, message: &AdbMessage, now_ms: u64) -> (r: Result<Option<AdbMessage>, SessionError>)
        ensures
            final(self).created_at_ms == old(self).created_at_ms,
            final(self).timeout_ms == old(self).timeout_ms,
            old(self).state != SessionState::Handshaking ==> (r matches Err(SessionError::InvalidState { state }) && state == old(self).state)
                && final(self).state == old(self).state,
            old(self).state == SessionState::Handshaking ==> {
                &&& final(self).last_activity_ms == now_ms
                &&& final(self).state == after_handshake(final(self).handshake.spec_state(), old(self).state)
                &&& (r matches Err(e) ==> e is Handshake)
            },
    {
        if self.state != SessionState::Handshaking {
            return Err(SessionError::InvalidState { state: self.state });
        }
        self.last_activity_ms = now_ms;
        let response = self.handshake.process_message(message);
        if self.handshake.is_completed() {
            self.state = SessionState::Connected;
        } else if self.handshake.is_failed() {
            self.state = SessionState::Failed;
        }
        match response {
            Ok(m) => Ok(m),
            Err(e) => Err(SessionError::Handshake(e)),
        }
    }

    /// Whether messages may be sent: only on a connected session.
    pub fn check_can_send(&self) -> (r: Result<(), SessionError>)
        ensures
            self.state == SessionState::Connected <==> r is Ok,
            r matches Err(SessionError::InvalidState { state }) ==> state == self.state,
            r matches Err(e) ==> e is InvalidState,
    {
        if self.state != SessionState::Connected {
            return Err(SessionError::InvalidState { state: self.state });
        }
        Ok(())
    }

    /// Where the session stands.
    pub fn get_state(&self) -> (r: SessionState)
        ensures
            r == self.state,
    {
        self.state
    }

    /// Whether the session has outlived its timeout at `now_ms`.
    pub fn is_expired(&self, now_ms: u64) -> (r: bool)
        ensures
            r == (now_ms >= self.created_at_ms && now_ms - self.created_at_ms > self.timeout_ms),
    {
        now_ms >= self.created_at_ms && now_ms - self.created_at_ms > self.timeout_ms
    }

    /// What is reported of the session.
    pub fn get_info(&self) -> (r: SessionInfo)
        ensures
            r.session_id@ == self.session_id@,
            r.client_id@ == self.client_id@,
            r.device_id@ == self.device_id@,
            r.state == self.state,
            r.created_at_ms == self.created_at_ms,
            r.last_activity_ms == self.last_activity_ms,
            r.timeout_ms == self.timeout_ms,
    {
        SessionInfo {
            session_id: to_owned_string(self.session_id.as_str()),
            client_id: to_owned_string(self.client_id.as_str()),
            device_id: to_owned_string(self.device_id.as_str()),
            state: self.state,
            created_at_ms: self.created_at_ms,
            last_activity_ms: self.last_activity_ms,
            timeout_ms: self.timeout_ms,
        }
    }

    /// Closes the session.
    pub fn shutdown(&mut self)
        ensures
            final(self).state == SessionState::Closed,
            final(self).session_id == old(self).session_id,
            final(self).client_id == old(self).client_id,
            final(self).device_id == old(self).device_id,
            final(self).created_at_ms == old(self).created_at_ms,
            final(self).last_activity_ms == old(self).last_activity_ms,
            final(self).timeout_ms == old(self).timeout_ms,
    {
        self.state = SessionState::Closed;
    }
}

/// Whether session `s` has outlived its timeout at `now`.
pub open spec fn expired_at(s: AdbSession, now: u64) -> bool {
    now >= s.created_at_ms && now - s.created_at_ms > s.timeout_ms
}

/// The id of the session of `client` on `device`: "client:device".
pub open spec fn session_key(client: Seq<char>, device: Seq<char>) -> Seq<char> {
    client + ":"@ + device
}

/// No two sessions of `s` share an id.
pub open spec fn session_ids_distinct(s: Seq<AdbSession>) -> bool {
    forall|a: int, b: int| 0 <= a < b < s.len() ==> #[trigger] s[a].session_id@ != #[trigger] s[b].session_id@
}

/// Keeping some sessions keeps their ids distinct; each kept session is
/// one of the originals.
#[verifier::spinoff_prover]
proof fn lemma_filter_keeps_ids_distinct(s: Seq<AdbSession>, pred: spec_fn(AdbSession) -> bool)
    requires
        session_ids_distinct(s),
    ensures
        session_ids_distinct(s.filter(pred)),
        forall|i: int| 0 <= i < s.filter(pred).len() ==> exists|j: int| 0 <= j < s.len() && #[trigger] s.filter(pred)[i] == s[j],
    decreases s.len(),
{
    reveal(Seq::filter);
    if s.len() > 0 {
        let d = s.drop_last();
        assert(session_ids_distinct(d)) by {
            assert forall|a: int, b: int| 0 <= a < b < d.len() implies #[trigger] d[a].session_id@ != #[trigger] d[b].session_id@ by {
                assert(d[a] == s[a] && d[b] == s[b]);
            }
        }
        lemma_filter_keeps_ids_distinct(d, pred);
        let fd = d.filter(pred);
        assert forall|i: int| 0 <= i < fd.len() implies exists|j: int| 0 <= j < s.len() && #[trigger] fd[i] == s[j] by {
            let j = choose|j: int| 0 <= j < d.len() && fd[i] == d[j];
            assert(fd[i] == s[j]);
        }
        if pred(s.last()) {
            let f = fd.push(s.last());
            assert(s.filter(pred) == f);
            assert forall|a: int, b: int| 0 <= a < b < f.len() implies #[trigger] f[a].session_id@ != #[trigger] f[b].session_id@ by {
                if b == f.len() - 1 {
                    assert(f[b] == s[s.len() - 1]);
                    assert(f[a] == fd[a]);
                    let j = choose|j: int| 0 <= j < d.len() && fd[a] == d[j];
                    assert(f[a] == s[j]);
                    assert(s[j].session_id@ != s[s.len() - 1].session_id@);
                } else {
                    assert(f[a] == fd[a] && f[b] == fd[b]);
                }
            }
            assert forall|i: int| 0 <= i < f.len() implies exists|j: int| 0 <= j < s.len() && #[trigger] f[i] == s[j] by {
                if i == f.len() - 1 {
                    assert(f[i] == s[s.len() - 1]);
                } else {
                    assert(f[i] == fd[i]);
                }
            }
        } else {
            assert(s.filter(pred) == fd);
        }
    }
}

/// The ADB sessions of all clients, at most one per client and device.
pub struct AdbSessionManager {
    pub sessions: Vec<AdbSession>,
    pub session_timeout_ms: u64,
    pub max_concurrent_sessions: usize,
}

impl AdbSessionManager {
    /// No two sessions share an id.
    pub open spec fn wf(&self) -> bool {
        session_ids_distinct(self.sessions@)
    }

    /// No sessions; five-minute timeout; at most 100 sessions.
    pub fn new() -> (r: Self)
        ensures
            r.wf(),
            r.sessions@.len() == 0,
            r.session_timeout_ms == 300_000,
            r.max_concurrent_sessions == 100,
    {
        AdbSessionManager { sessions: Vec::new(), session_timeout_ms: 300_000, max_concurrent_sessions: 100 }
    }

    /// No sessions, with the given timeout and limit.
    pub fn with_config(session_timeout_ms: u64, max_concurrent_sessions: usize) -> (r: Self)
        ensures
            r.wf(),
            r.sessions@.len() == 0,
            r.session_timeout_ms == session_timeout_ms,
            r.max_concurrent_sessions == max_concurrent_sessions,
    {
        AdbSessionManager { sessions: Vec::new(), session_timeout_ms, max_concurrent_sessions }
    }

    /// The position of session `id`, if any.
    fn position(&self, id: &str) -> (r: Option<usize>)
        ensures
            match r {
                Some(i) => i < self.sessions@.len() && self.sessions@[i as int].session_id@ == id@,
                None => forall|j: int| 0 <= j < self.sessions@.len() ==> self.sessions@[j].session_id@ != id@,
            },
    {
        let mut i: usize = 0;
        while i < self.sessions.len()
            invariant
                i <= self.sessions@.len(),
                forall|j: int| 0 <= j < i ==> self.sessions@[j].session_id@ != id@,
            decreases self.sessions@.len() - i,
        {
            if str_eq(self.sessions[i].session_id.as_str(), id) {
                return Some(i);
            }
            i = i + 1;
        }
        None
    }

    /// The id a new session of `client_id` on `device_id` gets, unless the
    /// limit is reached or the pair has a session. The caller then acquires
    /// the device and adds the session with `add_session`.
    pub fn plan_session(&self, client_id: &str, device_id: &str) -> (r: Result<String, SessionError>)
        ensures
            self.sessions@.len() >= self.max_concurrent_sessions ==>
                (r matches Err(SessionError::TooManySessions { max }) && max == self.max_concurrent_sessions),
            self.sessions@.len() < self.max_concurrent_sessions ==> {
                if exists|j: int| 0 <= j < self.sessions@.len() && self.sessions@[j].session_id@ == session_key(client_id@, device_id@) {
                    r matches Err(SessionError::SessionExists { client_id: c, device_id: d }) && c@ == client_id@ && d@ == device_id@
                } else {
                    r matches Ok(id) && id@ == session_key(client_id@, device_id@)
                }
            },
    {
        if self.sessions.len() >= self.max_concurrent_sessions {
            return Err(SessionError::TooManySessions { max: self.max_concurrent_sessions });
        }
        let mut id = to_owned_string(client_id);
        push_str(&mut id, ":");
        push_str(&mut id, device_id);
        if self.position(id.as_str()).is_some() {
            return Err(SessionError::SessionExists {
                client_id: to_owned_string(client_id),
                device_id: to_owned_string(device_id),
            });
        }
        Ok(id)
    }

    /// Adds a session; ids stay distinct when its id is new (as
    /// `plan_session` hands out).
    pub fn add_session(&mut self, session: AdbSession)
        ensures
            old(self).wf() && (forall|j: int| 0 <= j < old(self).sessions@.len() ==> old(self).sessions@[j].session_id@ != session.session_id@)
                ==> final(self).wf(),
            final(self).sessions@ == old(self).sessions@.push(session),
            final(self).session_timeout_ms == old(self).session_timeout_ms,
            final(self).max_concurrent_sessions == old(self).max_concurrent_sessions,
    {
        self.sessions.push(session);
    }

    /// Removes session `id`, closed, and hands it back (the caller then
    /// releases its device).
    pub fn remove_session(&mut self, id: &str) -> (r: Option<AdbSession>)
        ensures
            old(self).wf() ==> final(self).wf(),
            final(self).session_timeout_ms == old(self).session_timeout_ms,
            final(self).max_concurrent_sessions == old(self).max_concurrent_sessions,
            match r {
                Some(s) => exists|i: int| 0 <= i < old(self).sessions@.len()
                    && old(self).sessions@[i].session_id@ == id@
                    && final(self).sessions@ == old(self).sessions@.remove(i)
                    && s.state == SessionState::Closed
                    && s.session_id == old(self).sessions@[i].session_id,
                None => final(self).sessions@ == old(self).sessions@
                    && forall|j: int| 0 <= j < old(self).sessions@.len() ==> old(self).sessions@[j].session_id@ != id@,
            },
    {
        match self.position(id) {
            Some(i) => {
                let ghost before = self.sessions@;
                let mut s = self.sessions.remove(i);
                proof {
                    if old(self).wf() {
                        assert forall|a: int, b: int| 0 <= a < b < self.sessions@.len() implies
                            #[trigger] self.sessions@[a].session_id@ != #[trigger] self.sessions@[b].session_id@ by {
                            let oa = if a < i { a } else { a + 1 };
                            let ob = if b < i { b } else { b + 1 };
                            assert(self.sessions@[a] == before[oa]);
                            assert(self.sessions@[b] == before[ob]);
                        }
                    }
                }
                s.shutdown();
                assert(before[i as int].session_id@ == id@);
                Some(s)
            },
            None => None,
        }
    }

    /// The session with id `id`, if any.
    pub fn get_session(&self, id: &str) -> (r: Option<&AdbSession>)
        ensures
            match r {
                Some(s) => exists|i: int| 0 <= i < self.sessions@.len() && self.sessions@[i] == *s && s.session_id@ == id@,
                None => forall|j: int| 0 <= j < self.sessions@.len() ==> self.sessions@[j].session_id@ != id@,
            },
    {
        match self.position(id) {
            Some(i) => {
                let s = &self.sessions[i];
                assert(self.sessions@[i as int] == *s);
                Some(s)
            },
            None => None,
        }
    }

    /// All sessions, in the order they were added.
    pub fn get_all_sessions(&self) -> (r: &Vec<AdbSession>)
        ensures
            r@ == self.sessions@,
    {
        &self.sessions
    }

    /// The ids of the sessions expired at `now_ms`, in order.
    pub fn expired_sessions(&self, now_ms: u64) -> (r: Vec<String>)
        ensures
            r@.map_values(|x: String| x@) == self.sessions@.filter(|x: AdbSession| expired_at(x, now_ms))
                .map_values(|x: AdbSession| x.session_id@),
    {
        let ghost pred = |x: AdbSession| expired_at(x, now_ms);
        let ghost all = self.sessions@;
        let mut out: Vec<String> = Vec::new();
        let mut i: usize = 0;
        proof {
            assert(all.take(0) =~= Seq::<AdbSession>::empty());
            reveal(Seq::filter);
        }
        while i < self.sessions.len()
            invariant
                i <= all.len(),
                all == self.sessions@,
                pred == (|x: AdbSession| expired_at(x, now_ms)),
                out@.map_values(|x: String| x@) == all.take(i as int).filter(pred).map_values(|x: AdbSession| x.session_id@),
            decreases all.len() - i,
        {
            proof {
                assert(all.take(i + 1) =~= all.take(i as int).push(all[i as int]));
                all.take(i as int).lemma_filter_push(all[i as int], pred);
            }
            if self.sessions[i].is_expired(now_ms) {
                assert(pred(all[i as int]));
                let ghost prev = out@;
                out.push(to_owned_string(self.sessions[i].session_id.as_str()));
                proof {
                    assert(out@.map_values(|x: String| x@) =~= prev.map_values(|x: String| x@).push(all[i as int].session_id@));
                    assert(out@.map_values(|x: String| x@) =~= all.take(i + 1).filter(pred).map_values(|x: AdbSession| x.session_id@));
                }
            } else {
                assert(!pred(all[i as int]));
                assert(out@.map_values(|x: String| x@) =~= all.take(i + 1).filter(pred).map_values(|x: AdbSession| x.session_id@));
            }
            i = i + 1;
        }
        assert(all.take(all.len() as int) =~= all);
        out
    }

    /// Removes the sessions expired at `now_ms` and says how many went.
    pub fn cleanup_expired_sessions(&mut self, now_ms: u64) -> (r: usize)
        ensures
            old(self).wf() ==> final(self).wf(),
            final(self).sessions@ == old(self).sessions@.filter(|x: AdbSession| !expired_at(x, now_ms)),
            r == old(self).sessions@.len() - final(self).sessions@.len(),
            final(self).session_timeout_ms == old(self).session_timeout_ms,
            final(self).max_concurrent_sessions == old(self).max_concurrent_sessions,
    {
        let ghost orig = self.sessions@;
        let ghost pred = |x: AdbSession| !expired_at(x, now_ms);
        let n0 = self.sessions.len();
        let mut i: usize = 0;
        let ghost mut p: int = 0;
        proof {
            assert(orig.take(0) =~= Seq::<AdbSession>::empty());
            reveal(Seq::filter);
            assert(orig.take(0).filter(pred) + orig.skip(0) =~= orig);
        }
        while i < self.sessions.len()
            invariant
                0 <= p <= orig.len(),
                pred == (|x: AdbSession| !expired_at(x, now_ms)),
                n0 == orig.len(),
                self.session_timeout_ms == old(self).session_timeout_ms,
                self.max_concurrent_sessions == old(self).max_concurrent_sessions,
                i == orig.take(p).filter(pred).len(),
                self.sessions@ == orig.take(p).filter(pred) + orig.skip(p),
            decreases orig.len() - p,
        {
            proof {
                assert(self.sessions@[i as int] == orig[p]);
                assert(orig.take(p + 1) =~= orig.take(p).push(orig[p]));
                orig.take(p).lemma_filter_push(orig[p], pred);
            }
            if self.sessions[i].is_expired(now_ms) {
                self.sessions.remove(i);
                proof {
                    assert(self.sessions@ =~= orig.take(p + 1).filter(pred) + orig.skip(p + 1));
                }
            } else {
                proof {
                    assert(self.sessions@ =~= orig.take(p + 1).filter(pred) + orig.skip(p + 1));
                }
                i = i + 1;
            }
            proof {
                p = p + 1;
            }
        }
        proof {
            assert(orig.take(p) =~= orig) by {
                assert(self.sessions@.len() == i);
            }
            assert(self.sessions@ =~= orig.filter(pred));
            orig.lemma_filter_len(pred);
            if old(self).wf() {
                lemma_filter_keeps_ids_distinct(orig, pred);
            }
        }
        n0 - self.sessions.len()
    }

    /// Counts of the sessions by state.
    pub fn get_stats(&self) -> (r: SessionManagerStats)
        ensures
            r.active_sessions == self.sessions@.len(),
            r.connected_sessions == self.sessions@.filter(|s: AdbSession| s.state == SessionState::Connected).len(),
            r.handshaking_sessions == self.sessions@.filter(|s: AdbSession| s.state == SessionState::Handshaking).len(),
            r.max_concurrent_sessions == self.max_concurrent_sessions,
            r.session_timeout_ms == self.session_timeout_ms,
            r.total_sessions_created == self.sessions@.len(),
    {
        let ghost conn = |s: AdbSession| s.state == SessionState::Connected;
        let ghost hand = |s: AdbSession| s.state == SessionState::Handshaking;
        let ghost all = self.sessions@;
        let mut connected: usize = 0;
        let mut handshaking: usize = 0;
        let mut i: usize = 0;
        proof {
            assert(all.take(0) =~= Seq::<AdbSession>::empty());
            reveal(Seq::filter);
        }
        while i < self.sessions.len()
            invariant
                i <= all.len(),
                all == self.sessions@,
                conn == (|s: AdbSession| s.state == SessionState::Connected),
                hand == (|s: AdbSession| s.state == SessionState::Handshaking),
                connected == all.take(i as int).filter(conn).len(),
                handshaking == all.take(i as int).filter(hand).len(),
                connected <= i,
                handshaking <= i,
            decreases all.len() - i,
        {
            proof {
                assert(all.take(i + 1) =~= all.take(i as int).push(all[i as int]));
                all.take(i as int).lemma_filter_push(all[i as int], conn);
                all.take(i as int).lemma_filter_push(all[i as int], hand);
            }
            match self.sessions[i].state {
                SessionState::Connected => {
                    connected = connected + 1;
                },
                SessionState::Handshaking => {
                    handshaking = handshaking + 1;
                },
                _ => {},
            }
            i = i + 1;
        }
        assert(all.take(all.len() as int) =~= all);
        SessionManagerStats {
            active_sessions: self.sessions.len(),
            connected_sessions: connected,
            handshaking_sessions: handshaking,
            max_concurrent_sessions: self.max_concurrent_sessions,
            session_timeout_ms: self.session_timeout_ms,
            total_sessions_created: self.sessions.len(),
        }
    }
}

} // verus!
