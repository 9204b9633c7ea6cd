use vstd::prelude::*;
use crate::protocol::error::ProtocolError;
use crate::server::state::wrap_add;
use crate::text::{str_eq, to_owned_string, push_str};

verus! {

/// Settings of connection heartbeats; times in milliseconds.
#[derive(Debug, Clone, Copy, PartialEq, Eq, Structural)]
pub struct HeartbeatConfig {
    pub ping_interval_ms: u64,
    pub pong_timeout_ms: u64,
    /// Missed pongs in a row after which a connection is dead.
    pub max_missed_pongs: u32,
    pub auto_ping_enabled: bool,
    pub check_interval_ms: u64,
}

impl Default for HeartbeatConfig {
    /// A ping every 30 s, 10 s to answer, dead after 3 misses, pings on,
    /// checks every 5 s.
    fn default() -> (r: Self)
        ensures
            r == (HeartbeatConfig {
                ping_interval_ms: 30_000,
                pong_timeout_ms: 10_000,
                max_missed_pongs: 3,
                auto_ping_enabled: true,
                check_interval_ms: 5_000,
            }),
    {
        HeartbeatConfig {
            ping_interval_ms: 30_000,
            pong_timeout_ms: 10_000,
            max_missed_pongs: 3,
            auto_ping_enabled: true,
            check_interval_ms: 5_000,
        }
    }
}

/// How a monitored connection fares.
#[derive(Debug, Clone, PartialEq, Eq)]
pub enum ConnectionStatus {
    Healthy,
    /// A ping went out at `sent_at_ms` and awaits its pong.
    PingPending { sent_at_ms: u64 },
    /// Pongs were missed.
    Degraded { missed_count: u32 },
    Dead { reason: String },
}

/// The model of a `ConnectionStatus`.
pub enum StatusView {
    Healthy,
    PingPending { sent_at_ms: u64 },
    Degraded { missed_count: u32 },
    Dead { reason: Seq<char> },
}

impl View for ConnectionStatus {
    type V = StatusView;

    open spec fn view(&self) -> StatusView {
        match self {
            ConnectionStatus::Healthy => StatusView::Healthy,
            ConnectionStatus::PingPending { sent_at_ms } => StatusView::PingPending { sent_at_ms: *sent_at_ms },
            ConnectionStatus::Degraded { missed_count } => StatusView::Degraded { missed_count: *missed_count },
            ConnectionStatus::Dead { reason } => StatusView::Dead { reason: reason@ },
        }
    }
}

/// One monitored connection; counts wrap around as in release builds.
#[derive(Debug)]
pub struct HeartbeatSession {
    pub session_id: String,
    pub last_ping_sent_ms: Option<u64>,
    pub last_pong_received_ms: Option<u64>,
    pub missed_pongs: u32,
    pub status: ConnectionStatus,
    pub pings_sent: u64,
    pub pongs_received: u64,
    pub timeouts: u64,
}

/// The model of a `HeartbeatSession`.
pub struct SessionView {
    pub id: Seq<char>,
    pub last_ping_sent_ms: Option<u64>,
    pub last_pong_received_ms: Option<u64>,
    pub missed_pongs: u32,
    pub status: StatusView,
    pub pings_sent: u64,
    pub pongs_received: u64,
    pub timeouts: u64,
}

impl View for HeartbeatSession {
    type V = SessionView;

    open spec fn view(&self) -> SessionView {
        SessionView {
            id: self.session_id@,
            last_ping_sent_ms: self.last_ping_sent_ms,
            last_pong_received_ms: self.last_pong_received_ms,
            missed_pongs: self.missed_pongs,
            status: self.status@,
            pings_sent: self.pings_sent,
            pongs_received: self.pongs_received,
            timeouts: self.timeouts,
        }
    }
}

/// The models of a list of sessions.
pub open spec fn sessions_view(s: Seq<HeartbeatSession>) -> Seq<SessionView> {
    s.map_values(|x: HeartbeatSession| x@)
}

/// What one health check does to a session at `now`: a ping unanswered
/// past the timeout is a missed pong; enough misses in a row, or a dead
/// connection, remove it (`None`); fewer mark it degraded.
pub open spec fn session_after_check(s: SessionView, now: u64, cfg: HeartbeatConfig) -> Option<SessionView> {
    match s.status {
        StatusView::PingPending { sent_at_ms } => if now >= sent_at_ms && now - sent_at_ms > cfg.pong_timeout_ms {
            if s.missed_pongs + 1 >= cfg.max_missed_pongs {
                None
            } else {
                Some(SessionView {
                    status: StatusView::Degraded { missed_count: (s.missed_pongs + 1) as u32 },
                    missed_pongs: (s.missed_pongs + 1) as u32,
                    timeouts: wrap_add(s.timeouts, 1),
                    ..s
                })
            }
        } else {
            Some(s)
        },
        StatusView::Dead { .. } => None,
        _ => Some(s),
    }
}

/// The sessions after a health check at `now`, in the same order.
pub open spec fn sessions_after_check(s: Seq<SessionView>, now: u64, cfg: HeartbeatConfig) -> Seq<SessionView>
    decreases s.len(),
{
    if s.len() == 0 {
        Seq::empty()
    } else {
        let rest = sessions_after_check(s.drop_last(), now, cfg);
        match session_after_check(s.last(), now, cfg) {
            Some(v) => rest.push(v),
            None => rest,
        }
    }
}

/// The position of the session `id`, if any.
pub open spec fn session_index(s: Seq<SessionView>, id: Seq<char>) -> Option<int> {
    if exists|i: int| 0 <= i < s.len() && s[i].id == id {
        Some(choose|i: int| 0 <= i < s.len() && s[i].id == id && forall|j: int| 0 <= j < i ==> s[j].id != id)
    } else {
        None
    }
}

/// A session just added at `now`: healthy, as if a pong just came.
pub open spec fn fresh_session(id: Seq<char>, now: u64) -> SessionView {
    SessionView {
        id,
        last_ping_sent_ms: None,
        last_pong_received_ms: Some(now),
        missed_pongs: 0,
        status: StatusView::Healthy,
        pings_sent: 0,
        pongs_received: 0,
        timeouts: 0,
    }
}

/// What a pong at `now` does to a session.
pub open spec fn session_after_pong(s: SessionView, now: u64) -> SessionView {
    SessionView {
        last_pong_received_ms: Some(now),
        missed_pongs: 0,
        pongs_received: wrap_add(s.pongs_received, 1),
        status: if s.status is PingPending { StatusView::Healthy } else { s.status },
        ..s
    }
}

/// A session after a ping went out at `now`.
fn pinged(s: HeartbeatSession, now: u64) -> (r: HeartbeatSession)
    ensures
        r@ == (SessionView {
            last_ping_sent_ms: Some(now),
            status: StatusView::PingPending { sent_at_ms: now },
            pings_sent: wrap_add(s@.pings_sent, 1),
            ..s@
        }),
        r.missed_pongs == s.missed_pongs,
{
    let mut s = s;
    s.last_ping_sent_ms = Some(now);
    s.status = ConnectionStatus::PingPending { sent_at_ms: now };
    s.pings_sent = s.pings_sent.wrapping_add(1);
    s
}

/// A session whose ping could not be sent.
fn dead(s: HeartbeatSession, error: String) -> (r: HeartbeatSession)
    ensures
        r@ == (SessionView { status: StatusView::Dead { reason: "Failed to send ping: "@ + error@ }, ..s@ }),
        r.missed_pongs == s.missed_pongs,
{
    let mut s = s;
    let mut reason = to_owned_string("Failed to send ping: ");
    push_str(&mut reason, error.as_str());
    s.status = ConnectionStatus::Dead { reason };
    s
}

/// Watches client connections with pings and pongs.
#[derive(Debug)]
pub struct HeartbeatManager {
    pub config: HeartbeatConfig,
    pub sessions: Vec<HeartbeatSession>,
}

impl HeartbeatManager {
    /// The models of the monitored sessions.
    pub open spec fn spec_sessions(&self) -> Seq<SessionView> {
        sessions_view(self.sessions@)
    }

    /// Each session is watched once, and has missed fewer pongs in a row
    /// than make it dead (or none at all).
    pub open spec fn wf(&self) -> bool {
        &&& forall|i: int| 0 <= i < self.sessions@.len() ==>
            #[trigger] self.sessions@[i].missed_pongs == 0 || self.sessions@[i].missed_pongs < self.config.max_missed_pongs
        &&& forall|i: int, j: int| 0 <= i < j < self.sessions@.len() ==>
            #[trigger] self.sessions@[i].session_id@ != #[trigger] self.sessions@[j].session_id@
    }

    /// A manager watching nothing.
    pub fn new(config: HeartbeatConfig) -> (r: Self)
        ensures
            r.wf(),
            r.config == config,
            r.spec_sessions().len() == 0,
    {
        let r = HeartbeatManager { config, sessions: Vec::new() };
        assert(r.spec_sessions() =~= Seq::<SessionView>::empty());
        r
    }

    /// The position of session `id`.
    fn position(&self, id: &str) -> (r: Option<usize>)
        ensures
            match r {
                Some(i) => session_index(self.spec_sessions(), id@) == Some(i as int) && i < self.sessions@.len(),
                None => session_index(self.spec_sessions(), id@) is None,
            },
    {
        let ghost v = self.spec_sessions();
        let mut i: usize = 0;
        while i < self.sessions.len()
            invariant
                i <= self.sessions@.len(),
                v == sessions_view(self.sessions@),
                forall|j: int| 0 <= j < i ==> v[j].id != id@,
            decreases self.sessions@.len() - i,
        {
            if str_eq(self.sessions[i].session_id.as_str(), id) {
                proof {
                    assert(v[i as int].id == id@);
                    let w = choose|k: int| 0 <= k < v.len() && v[k].id == id@ && forall|j: int| 0 <= j < k ==> v[j].id != id@;
                    if w < i {
                        assert(v[w].id != id@);
                    } else if w > i {
                        assert(v[i as int].id != id@);
                    }
                }
                return Some(i);
            }
            i = i + 1;
        }
        None
    }

    /// Starts watching session `id` at `now_ms` (replacing an earlier
    /// watch of the same id).
    pub fn add_session(&mut self, id: &str, now_ms: u64)
        requires
            old(self).wf(),
        ensures
            final(self).wf(),
            final(self).config == old(self).config,
            final(self).spec_sessions() == match session_index(old(self).spec_sessions(), id@) {
                Some(i) => old(self).spec_sessions().update(i, fresh_session(id@, now_ms)),
                None => old(self).spec_sessions().push(fresh_session(id@, now_ms)),
            },
    {
        let fresh = HeartbeatSession {
            session_id: to_owned_string(id),
            last_ping_sent_ms: None,
            last_pong_received_ms: Some(now_ms),
            missed_pongs: 0,
            status: ConnectionStatus::Healthy,
            pings_sent: 0,
            pongs_received: 0,
            timeouts: 0,
        };
        match self.position(id) {
            Some(i) => {
                let _ = self.sessions.remove(i);
                self.sessions.insert(i, fresh);
                proof {
                    assert(self.spec_sessions() =~= old(self).spec_sessions().update(i as int, fresh_session(id@, now_ms)));
                    assert(old(self).spec_sessions()[i as int].id == old(self).sessions@[i as int].session_id@);
                    assert forall|a: int, b: int| 0 <= a < b < self.sessions@.len() implies
                        #[trigger] self.sessions@[a].session_id@ != #[trigger] self.sessions@[b].session_id@ by {
                        assert(self.sessions@[a].session_id@ == old(self).sessions@[a].session_id@);
                        assert(self.sessions@[b].session_id@ == old(self).sessions@[b].session_id@);
                    }
                }
            },
            None => {
                self.sessions.push(fresh);
                proof {
                    assert(self.spec_sessions() =~= old(self).spec_sessions().push(fresh_session(id@, now_ms)));
                    assert forall|a: int, b: int| 0 <= a < b < self.sessions@.len() implies
                        #[trigger] self.sessions@[a].session_id@ != #[trigger] self.sessions@[b].session_id@ by {
                        if b == self.sessions@.len() - 1 {
                            assert(old(self).spec_sessions()[a].id == old(self).sessions@[a].session_id@);
                            assert(self.sessions@[a] == old(self).sessions@[a]);
                        } else {
                            assert(self.sessions@[a] == old(self).sessions@[a]);
                            assert(self.sessions@[b] == old(self).sessions@[b]);
                        }
                    }
                }
            },
        }
    }

    /// Stops watching session `id`.
    pub fn remove_session(&mut self, id: &str)
        requires
            old(self).wf(),
        ensures
            final(self).wf(),
            final(self).config == old(self).config,
            final(self).spec_sessions() == match session_index(old(self).spec_sessions(), id@) {
                Some(i) => old(self).spec_sessions().remove(i),
                None => old(self).spec_sessions(),
            },
    {
        match self.position(id) {
            Some(i) => {
                let _ = self.sessions.remove(i);
                proof {
                    assert(self.spec_sessions() =~= old(self).spec_sessions().remove(i as int));
                    assert forall|k: int| 0 <= k < self.sessions@.len() implies
                        #[trigger] self.sessions@[k].missed_pongs == 0 || self.sessions@[k].missed_pongs < self.config.max_missed_pongs by {
                        if k < i {
                            assert(self.sessions@[k] == old(self).sessions@[k]);
                        } else {
                            assert(self.sessions@[k] == old(self).sessions@[k + 1]);
                        }
                    }
                }
            },
            None => {},
        }
    }

    /// A pong from session `id` at `now_ms`: the misses are forgiven and a
    /// pending ping is answered. A pong from an unknown session is ignored.
    pub fn handle_pong(&mut self, id: &str, now_ms: u64)
        requires
            old(self).wf(),
        ensures
            final(self).wf(),
            final(self).config == old(self).config,
            final(self).spec_sessions() == match session_index(old(self).spec_sessions(), id@) {
                Some(i) => old(self).spec_sessions().update(i, session_after_pong(old(self).spec_sessions()[i], now_ms)),
                None => old(self).spec_sessions(),
            },
    {
        match self.position(id) {
            Some(i) => {
                let mut s = self.sessions.remove(i);
                s.last_pong_received_ms = Some(now_ms);
                s.missed_pongs = 0;
                s.pongs_received = s.pongs_received.wrapping_add(1);
                match s.status {
                    ConnectionStatus::PingPending { .. } => {
                        s.status = ConnectionStatus::Healthy;
                    },
                    _ => {},
                }
                self.sessions.insert(i, s);
                proof {
                    assert(self.spec_sessions() =~= old(self).spec_sessions().update(i as int, session_after_pong(old(self).spec_sessions()[i as int], now_ms)));
                    assert forall|k: int| 0 <= k < self.sessions@.len() implies
                        #[trigger] self.sessions@[k].missed_pongs == 0 || self.sessions@[k].missed_pongs < self.config.max_missed_pongs by {
                        if k != i {
                            assert(self.sessions@[k] == old(self).sessions@[k]);
                        }
                    }
                    assert forall|a: int, b: int| 0 <= a < b < self.sessions@.len() implies
                        #[trigger] self.sessions@[a].session_id@ != #[trigger] self.sessions@[b].session_id@ by {
                        assert(self.sessions@[a].session_id@ == old(self).sessions@[a].session_id@);
                        assert(self.sessions@[b].session_id@ == old(self).sessions@[b].session_id@);
                    }
                }
            },
            None => {},
        }
    }

    /// Records a ping to session `id` at `now_ms`: delivered, it is
    /// pending; not delivered (`send_error`), the connection is dead.
    /// Refused for an unknown session.
    pub fn record_ping(&mut self, id: &str, now_ms: u64, send_error: Option<String>) -> (r: Result<(), ProtocolError>)
        requires
            old(self).wf(),
        ensures
            final(self).wf(),
            final(self).config == old(self).config,
            match session_index(old(self).spec_sessions(), id@) {
                None => (r matches Err(ProtocolError::SessionNotFound { session_id }) && session_id@ == id@)
                    && final(self).spec_sessions() == old(self).spec_sessions(),
                Some(i) => {
                    let s = old(self).spec_sessions()[i];
                    match send_error {
                        None => r is Ok && final(self).spec_sessions() == old(self).spec_sessions().update(i, SessionView {
                            last_ping_sent_ms: Some(now_ms),
                            status: StatusView::PingPending { sent_at_ms: now_ms },
                            pings_sent: wrap_add(s.pings_sent, 1),
                            ..s
                        }),
                        Some(e) => r == Err::<(), ProtocolError>(ProtocolError::ConnectionClosed)
                            && final(self).spec_sessions() == old(self).spec_sessions().update(i, SessionView {
                                status: StatusView::Dead { reason: "Failed to send ping: "@ + e@ },
                                ..s
                            }),
                    }
                },
            },
    {
        match self.position(id) {
            None => Err(ProtocolError::SessionNotFound { session_id: to_owned_string(id) }),
            Some(i) => {
                let ghost before = self.sessions@;
                let s = self.sessions.remove(i);
                proof {
                    assert forall|k: int| 0 <= k < self.sessions@.len() implies
                        #[trigger] self.sessions@[k].missed_pongs == 0 || self.sessions@[k].missed_pongs < self.config.max_missed_pongs by {
                        if k < i {
                            assert(self.sessions@[k] == before[k]);
                        } else {
                            assert(self.sessions@[k] == before[k + 1]);
                        }
                    }
                    assert(sessions_view(self.sessions@) =~= sessions_view(before).remove(i as int));
                    assert forall|a: int, b: int| 0 <= a < b < self.sessions@.len() implies
                        #[trigger] self.sessions@[a].session_id@ != #[trigger] self.sessions@[b].session_id@ by {
                        let oa = if a < i { a } else { a + 1 };
                        let ob = if b < i { b } else { b + 1 };
                        assert(self.sessions@[a] == before[oa]);
                        assert(self.sessions@[b] == before[ob]);
                    }
                    assert forall|k: int| 0 <= k < self.sessions@.len() implies
                        #[trigger] self.sessions@[k].session_id@ != s.session_id@ by {
                        let ok = if k < i { k } else { k + 1 };
                        assert(self.sessions@[k] == before[ok]);
                        assert(before[i as int] == s);
                    }
                }
                match send_error {
                    None => {
                        let ghost sid = s.session_id@;
                        let s = pinged(s, now_ms);
                        assert(s@.id == sid);
                        let ghost sv = s@;
                        self.put_back(i, s);
                        assert(self.spec_sessions() =~= sessions_view(before).update(i as int, sv));
                        Ok(())
                    },
                    Some(e) => {
                        let ghost sid = s.session_id@;
                        let s = dead(s, e);
                        assert(s@.id == sid);
                        let ghost sv = s@;
                        self.put_back(i, s);
                        assert(self.spec_sessions() =~= sessions_view(before).update(i as int, sv));
                        Err(ProtocolError::ConnectionClosed)
                    },
                }
            },
        }
    }

    /// Puts session `s` back at `i`, where it was taken out.
    fn put_back(&mut self, i: usize, s: HeartbeatSession)
        requires
            i <= old(self).sessions@.len(),
            forall|k: int| 0 <= k < old(self).sessions@.len() ==>
                #[trigger] old(self).sessions@[k].missed_pongs == 0 || old(self).sessions@[k].missed_pongs < old(self).config.max_missed_pongs,
            s.missed_pongs == 0 || s.missed_pongs < old(self).config.max_missed_pongs,
            forall|a: int, b: int| 0 <= a < b < old(self).sessions@.len() ==>
                #[trigger] old(self).sessions@[a].session_id@ != #[trigger] old(self).sessions@[b].session_id@,
            forall|k: int| 0 <= k < old(self).sessions@.len() ==> #[trigger] old(self).sessions@[k].session_id@ != s.session_id@,
        ensures
            final(self).wf(),
            final(self).config == old(self).config,
            final(self).sessions@ == old(self).sessions@.insert(i as int, s),
            final(self).spec_sessions() == old(self).spec_sessions().insert(i as int, s@),
    {
        self.sessions.insert(i, s);
        proof {
            assert(self.spec_sessions() =~= old(self).spec_sessions().insert(i as int, s@));
            assert forall|k: int| 0 <= k < self.sessions@.len() implies
                #[trigger] self.sessions@[k].missed_pongs == 0 || self.sessions@[k].missed_pongs < self.config.max_missed_pongs by {
                if k < i {
                    assert(self.sessions@[k] == old(self).sessions@[k]);
                } else if k > i {
                    assert(self.sessions@[k] == old(self).sessions@[k - 1]);
                }
            }
            assert forall|a: int, b: int| 0 <= a < b < self.sessions@.len() implies
                #[trigger] self.sessions@[a].session_id@ != #[trigger] self.sessions@[b].session_id@ by {
                if a < i {
                    assert(self.sessions@[a] == old(self).sessions@[a]);
                } else if a > i {
                    assert(self.sessions@[a] == old(self).sessions@[a - 1]);
                }
                if b < i {
                    assert(self.sessions@[b] == old(self).sessions@[b]);
                } else if b > i {
                    assert(self.sessions@[b] == old(self).sessions@[b - 1]);
                }
            }
        }
    }

    /// The sessions to ping now: the healthy ones, in order.
    pub fn sessions_to_ping(&self) -> (r: Vec<String>)
        ensures
            r@.map_values(|s: String| s@) == self.spec_sessions().filter(|s: SessionView| s.status is Healthy).map_values(|s: SessionView| s.id),
    {
        let ghost v = self.spec_sessions();
        let ghost pred = |s: SessionView| s.status is Healthy;
        let mut out: Vec<String> = Vec::new();
        let mut i: usize = 0;
        proof {
            assert(v.take(0) =~= Seq::<SessionView>::empty());
            reveal(Seq::filter);
        }
        while i < self.sessions.len()
            invariant
                i <= self.sessions@.len(),
                v == sessions_view(self.sessions@),
                pred == (|s: SessionView| s.status is Healthy),
                out@.map_values(|s: String| s@) == v.take(i as int).filter(pred).map_values(|s: SessionView| s.id),
            decreases self.sessions@.len() - i,
        {
            proof {
                assert(v.take(i + 1) =~= v.take(i as int).push(v[i as int]));
                v.take(i as int).lemma_filter_push(v[i as int], pred);
            }
            let healthy = match self.sessions[i].status {
                ConnectionStatus::Healthy => true,
                _ => false,
            };
            if healthy {
                assert(pred(v[i as int]));
                let ghost prev = out@;
                out.push(to_owned_string(self.sessions[i].session_id.as_str()));
                proof {
                    assert(out@.map_values(|s: String| s@) =~= prev.map_values(|s: String| s@).push(v[i as int].id));
                    assert(out@.map_values(|s: String| s@) =~= v.take(i + 1).filter(pred).map_values(|s: SessionView| s.id));
                }
            } else {
                assert(!pred(v[i as int]));
                assert(out@.map_values(|s: String| s@) =~= v.take(i + 1).filter(pred).map_values(|s: SessionView| s.id));
            }
            i = i + 1;
        }
        assert(v.take(v.len() as int) =~= v);
        out
    }

    /// One health check at `now_ms`, as `sessions_after_check` says: pings
    /// unanswered past the timeout count as missed pongs, degrading the
    /// session or, after too many in a row, removing it; dead sessions are
    /// removed.
    pub fn check_connection_health(&mut self, now_ms: u64)
        requires
            old(self).wf(),
        ensures
            final(self).wf(),
            final(self).config == old(self).config,
            final(self).spec_sessions() == sessions_after_check(old(self).spec_sessions(), now_ms, old(self).config),
    {
        let ghost orig = self.spec_sessions();
        let mut rest: Vec<HeartbeatSession> = Vec::new();
        std::mem::swap(&mut rest, &mut self.sessions);
        let mut kept: Vec<HeartbeatSession> = Vec::new();
        let ghost mut done: int = 0;
        proof {
            assert(sessions_view(rest@) =~= orig);
            assert(orig.take(0) =~= Seq::<SessionView>::empty());
            assert(sessions_view(kept@) =~= sessions_after_check(orig.take(0), now_ms, self.config));
        }
        while rest.len() > 0
            invariant
                0 <= done <= orig.len(),
                sessions_view(rest@) == orig.skip(done),
                sessions_view(kept@) == sessions_after_check(orig.take(done), now_ms, self.config),
                self.config == old(self).config,
                forall|i: int| 0 <= i < rest@.len() ==>
                    #[trigger] rest@[i].missed_pongs == 0 || rest@[i].missed_pongs < self.config.max_missed_pongs,
                forall|i: int| 0 <= i < kept@.len() ==>
                    #[trigger] kept@[i].missed_pongs == 0 || kept@[i].missed_pongs < self.config.max_missed_pongs,
                forall|a: int, b: int| 0 <= a < b < rest@.len() ==>
                    #[trigger] rest@[a].session_id@ != #[trigger] rest@[b].session_id@,
                forall|a: int, b: int| 0 <= a < b < kept@.len() ==>
                    #[trigger] kept@[a].session_id@ != #[trigger] kept@[b].session_id@,
                forall|a: int, b: int| 0 <= a < kept@.len() && 0 <= b < rest@.len() ==>
                    #[trigger] kept@[a].session_id@ != #[trigger] rest@[b].session_id@,
            decreases rest@.len(),
        {
            let ghost before_rest = rest@;
            let mut s = rest.remove(0);
            proof {
                assert(before_rest[0] == s);
                assert(sessions_view(before_rest).len() == orig.len() - done);
                assert(orig[done] == s@) by {
                    assert(sessions_view(before_rest)[0] == orig.skip(done)[0]);
                }
                assert forall|k: int| 0 <= k < rest@.len() implies sessions_view(rest@)[k] == orig.skip(done + 1)[k] by {
                    assert(rest@[k] == before_rest[k + 1]);
                    assert(sessions_view(before_rest)[k + 1] == orig.skip(done)[k + 1]);
                }
                assert(sessions_view(rest@) =~= orig.skip(done + 1));
                assert(orig.take(done + 1).drop_last() =~= orig.take(done));
                assert(orig.take(done + 1).last() == orig[done]);
                assert forall|i: int| 0 <= i < rest@.len() implies
                    #[trigger] rest@[i].missed_pongs == 0 || rest@[i].missed_pongs < self.config.max_missed_pongs by {
                    assert(rest@[i] == before_rest[i + 1]);
                }
                assert forall|a: int, b: int| 0 <= a < b < rest@.len() implies
                    #[trigger] rest@[a].session_id@ != #[trigger] rest@[b].session_id@ by {
                    assert(rest@[a] == before_rest[a + 1]);
                    assert(rest@[b] == before_rest[b + 1]);
                }
                assert forall|a: int, b: int| 0 <= a < kept@.len() && 0 <= b < rest@.len() implies
                    #[trigger] kept@[a].session_id@ != #[trigger] rest@[b].session_id@ by {
                    assert(rest@[b] == before_rest[b + 1]);
                }
                assert forall|b: int| 0 <= b < rest@.len() implies #[trigger] rest@[b].session_id@ != s.session_id@ by {
                    assert(rest@[b] == before_rest[b + 1]);
                    assert(before_rest[0].session_id@ != before_rest[b + 1].session_id@);
                }
                assert forall|a: int| 0 <= a < kept@.len() implies #[trigger] kept@[a].session_id@ != s.session_id@ by {
                    assert(kept@[a].session_id@ != before_rest[0].session_id@);
                }
            }
            let ghost sid = s.session_id@;
            let ghost sv = s@;
            let keep = match s.status {
                ConnectionStatus::PingPending { sent_at_ms } => {
                    if now_ms >= sent_at_ms && now_ms - sent_at_ms > self.config.pong_timeout_ms {
                        let missed = s.missed_pongs + 1;
                        if missed >= self.config.max_missed_pongs {
                            false
                        } else {
                            s.status = ConnectionStatus::Degraded { missed_count: missed };
                            s.missed_pongs = missed;
                            s.timeouts = s.timeouts.wrapping_add(1);
                            true
                        }
                    } else {
                        true
                    }
                },
                ConnectionStatus::Dead { .. } => false,
                _ => true,
            };
            if keep {
                let ghost prev = kept@;
                assert(s.session_id@ == sid);
                kept.push(s);
                proof {
                    assert forall|a: int, b: int| 0 <= a < b < kept@.len() implies
                        #[trigger] kept@[a].session_id@ != #[trigger] kept@[b].session_id@ by {
                        if b == kept@.len() - 1 {
                            assert(kept@[a] == prev[a]);
                        } else {
                            assert(kept@[a] == prev[a]);
                            assert(kept@[b] == prev[b]);
                        }
                    }
                    assert forall|a: int, b: int| 0 <= a < kept@.len() && 0 <= b < rest@.len() implies
                        #[trigger] kept@[a].session_id@ != #[trigger] rest@[b].session_id@ by {
                        if a < kept@.len() - 1 {
                            assert(kept@[a] == prev[a]);
                        }
                    }
                    assert(session_after_check(sv, now_ms, self.config) == Some(kept@.last()@));
                    assert(sessions_view(kept@) =~= sessions_view(prev).push(kept@.last()@));
                }
            } else {
                proof {
                    assert(session_after_check(sv, now_ms, self.config) is None);
                }
            }
            proof {
                done = done + 1;
            }
        }
        proof {
            assert(orig.take(done) =~= orig) by {
                assert(orig.skip(done).len() == 0);
            }
        }
        self.sessions = kept;
    }

    /// The status of session `id`, if watched.
    pub fn get_session_status(&self, id: &str) -> (r: Option<&ConnectionStatus>)
        ensures
            match session_index(self.spec_sessions(), id@) {
                Some(i) => r matches Some(st) && st@ == self.spec_sessions()[i].status,
                None => r is None,
            },
    {
        match self.position(id) {
            Some(i) => Some(&self.sessions[i].status),
            None => None,
        }
    }
}


/// A pong answers a pending ping: the session is healthy again and its
/// misses are forgiven; a degraded session keeps its status but its misses
/// are forgiven too.
pub proof fn lemma_pong_heals(s: SessionView, now: u64)
    ensures
        session_after_pong(s, now).missed_pongs == 0,
        s.status is PingPending ==> session_after_pong(s, now).status is Healthy,
        !(s.status is PingPending) ==> session_after_pong(s, now).status == s.status,
        session_after_pong(s, now).id == s.id,
{
}
} // verus!
