use vstd::prelude::*;
use crate::protocol::error::ProtocolError;
use crate::server::state::{ServerState, ServerStats, wrap_add, wrap_dec};
use crate::text::{str_eq, to_owned_string, dec_chars, lemma_dec_chars_injective};

verus! {

/// A managed client connection.
#[derive(Debug)]
pub struct ConnectionRecord {
    pub session_id: String,
    pub connection_id: String,
    /// When the connection was accepted, in milliseconds.
    pub established_at_ms: u64,
    /// When the connection was last active, in milliseconds.
    pub last_activity_ms: u64,
}

/// Counters of the connection manager; ages in milliseconds.
#[derive(Debug, Clone, Copy, PartialEq, Eq, Structural)]
pub struct ConnectionManagerStats {
    pub active_connections: usize,
    pub total_connections: u64,
    pub avg_connection_age_ms: u64,
    pub oldest_connection_age_ms: u64,
}

/// `now - then`, or zero when `then` is later.
pub open spec fn age(now: u64, then: u64) -> u64 {
    if now >= then { (now - then) as u64 } else { 0 }
}

/// The summed ages of the connections at `now`.
pub open spec fn total_age(conns: Seq<ConnectionRecord>, now: u64) -> nat
    decreases conns.len(),
{
    if conns.len() == 0 {
        0
    } else {
        total_age(conns.drop_last(), now) + (age(now, conns.last().established_at_ms) as nat)
    }
}

/// The greatest age of the connections at `now` (zero when there are none).
pub open spec fn oldest_age(conns: Seq<ConnectionRecord>, now: u64) -> u64
    decreases conns.len(),
{
    if conns.len() == 0 {
        0
    } else {
        let rest = oldest_age(conns.drop_last(), now);
        let a = age(now, conns.last().established_at_ms);
        if a > rest { a } else { rest }
    }
}

/// The position of the connection of `session`, if any.
pub open spec fn connection_index(conns: Seq<ConnectionRecord>, session: Seq<char>) -> Option<int> {
    if exists|i: int| 0 <= i < conns.len() && conns[i].session_id@ == session {
        Some(choose|i: int| 0 <= i < conns.len() && conns[i].session_id@ == session
            && forall|j: int| 0 <= j < i ==> conns[j].session_id@ != session)
    } else {
        None
    }
}

/// Accepts, tracks and retires client connections.
#[derive(Debug)]
pub struct ConnectionManager {
    pub server_state: ServerState,
    pub connections: Vec<ConnectionRecord>,
}

impl ConnectionManager {
    /// The managed connections, oldest first.
    pub open spec fn spec_connections(&self) -> Seq<ConnectionRecord> {
        self.connections@
    }

    /// Each connection's session id was handed out by the session counter
    /// ("session-<k>" for some k below it), and no two connections share
    /// one.
    pub open spec fn wf(&self) -> bool {
        &&& forall|i: int| 0 <= i < self.connections@.len() ==> exists|k: u64|
            k < self.server_state.session_counter
                && #[trigger] self.connections@[i].session_id@ == "session-"@ + dec_chars(k as nat)
        &&& forall|i: int, j: int| 0 <= i < j < self.connections@.len() ==>
            #[trigger] self.connections@[i].session_id@ != #[trigger] self.connections@[j].session_id@
    }

    /// A manager with no connections.
    pub fn new(server_state: ServerState) -> (r: Self)
        ensures
            r.wf(),
            r.server_state == server_state,
            r.spec_connections().len() == 0,
    {
        ConnectionManager { server_state, connections: Vec::new() }
    }

    /// The managed connections, oldest first.
    pub fn connections(&self) -> (r: &Vec<ConnectionRecord>)
        ensures
            r@ == self.spec_connections(),
    {
        &self.connections
    }

    /// Accepts connection `connection_id` at `now_ms` under a new session
    /// id, unless the server is full.
    pub fn accept_connection(&mut self, connection_id: String, now_ms: u64) -> (r: Result<String, ProtocolError>)
        ensures
            old(self).wf() && old(self).server_state.session_counter < u64::MAX ==> final(self).wf(),
            final(self).server_state.config == old(self).server_state.config,
            old(self).spec_connections().len() >= old(self).server_state.config.max_connections ==> {
                &&& r == Err::<String, ProtocolError>(ProtocolError::MaxConnectionsExceeded {
                    count: old(self).spec_connections().len() as usize,
                    max: old(self).server_state.config.max_connections,
                })
                &&& final(self).spec_connections() == old(self).spec_connections()
                &&& final(self).server_state == old(self).server_state
            },
            old(self).spec_connections().len() < old(self).server_state.config.max_connections ==> {
                &&& r matches Ok(id) && id@ == "session-"@ + dec_chars(old(self).server_state.session_counter as nat)
                &&& final(self).server_state.session_counter == wrap_add(old(self).server_state.session_counter, 1)
                &&& final(self).server_state.stats == (ServerStats {
                    total_sessions: wrap_add(old(self).server_state.stats.total_sessions, 1),
                    active_sessions: wrap_add(old(self).server_state.stats.active_sessions, 1),
                    ..old(self).server_state.stats
                })
                &&& final(self).spec_connections().drop_last() == old(self).spec_connections()
                &&& final(self).spec_connections().len() == old(self).spec_connections().len() + 1
                &&& final(self).spec_connections().last().session_id@ == "session-"@ + dec_chars(old(self).server_state.session_counter as nat)
                &&& final(self).spec_connections().last().connection_id == connection_id
                &&& final(self).spec_connections().last().established_at_ms == now_ms
                &&& final(self).spec_connections().last().last_activity_ms == now_ms
            },
    {
        if self.connections.len() >= self.server_state.config.max_connections {
            return Err(ProtocolError::MaxConnectionsExceeded {
                count: self.connections.len(),
                max: self.server_state.config.max_connections,
            });
        }
        let ghost c = self.server_state.session_counter;
        let ghost before = self.connections@;
        let session_id = self.server_state.next_session_id();
        self.connections.push(ConnectionRecord {
            session_id: to_owned_string(session_id.as_str()),
            connection_id,
            established_at_ms: now_ms,
            last_activity_ms: now_ms,
        });
        self.server_state.stats.session_created();
        proof {
            if old(self).wf() && c < u64::MAX {
                let n = self.connections@.len() - 1;
                assert(self.connections@[n].session_id@ == "session-"@ + dec_chars(c as nat));
                assert forall|i: int| 0 <= i < self.connections@.len() implies exists|k: u64|
                    k < self.server_state.session_counter
                        && #[trigger] self.connections@[i].session_id@ == "session-"@ + dec_chars(k as nat) by {
                    if i < n {
                        assert(self.connections@[i] == before[i]);
                        let k = choose|k: u64| k < c && before[i].session_id@ == "session-"@ + dec_chars(k as nat);
                        assert(k < self.server_state.session_counter);
                    } else {
                        assert(c < self.server_state.session_counter);
                    }
                }
                assert forall|i: int, j: int| 0 <= i < j < self.connections@.len() implies
                    #[trigger] self.connections@[i].session_id@ != #[trigger] self.connections@[j].session_id@ by {
                    assert(self.connections@[i] == before[i]);
                    if j < n {
                        assert(self.connections@[j] == before[j]);
                    } else {
                        let k = choose|k: u64| k < c && before[i].session_id@ == "session-"@ + dec_chars(k as nat);
                        if self.connections@[i].session_id@ == self.connections@[j].session_id@ {
                            reveal_strlit("session-");
                            let a = "session-"@ + dec_chars(k as nat);
                            let b = "session-"@ + dec_chars(c as nat);
                            assert(a.skip(8) =~= dec_chars(k as nat));
                            assert(b.skip(8) =~= dec_chars(c as nat));
                            lemma_dec_chars_injective(k as nat, c as nat);
                        }
                    }
                }
            }
        }
        Ok(session_id)
    }

    /// The position of the connection of `session_id`.
    fn position(&self, session_id: &str) -> (r: Option<usize>)
        ensures
            match r {
                Some(i) => connection_index(self.spec_connections(), session_id@) == Some(i as int) && i < self.spec_connections().len(),
                None => connection_index(self.spec_connections(), session_id@) is None,
            },
    {
        let mut i: usize = 0;
        while i < self.connections.len()
            invariant
                i <= self.connections@.len(),
                forall|j: int| 0 <= j < i ==> self.connections@[j].session_id@ != session_id@,
            decreases self.connections@.len() - i,
        {
            if str_eq(self.connections[i].session_id.as_str(), session_id) {
                proof {
                    let c = self.connections@;
                    assert(exists|k: int| 0 <= k < c.len() && c[k].session_id@ == session_id@) by {
                        assert(c[i as int].session_id@ == session_id@);
                    }
                    let w = choose|k: int| 0 <= k < c.len() && c[k].session_id@ == session_id@
                        && forall|j: int| 0 <= j < k ==> c[j].session_id@ != session_id@;
                    if w < i {
                        assert(c[w].session_id@ != session_id@);
                    } else if w > i {
                        assert(c[i as int].session_id@ != session_id@);
                    }
                }
                return Some(i);
            }
            i = i + 1;
        }
        None
    }

    /// The connection of `session_id`; refused when it is not managed.
    pub fn get_session_info(&self, session_id: &str) -> (r: Result<&ConnectionRecord, ProtocolError>)
        ensures
            match connection_index(self.spec_connections(), session_id@) {
                Some(i) => r matches Ok(c) && *c == self.spec_connections()[i],
                None => r matches Err(ProtocolError::SessionNotFound { session_id: s }) && s@ == session_id@,
            },
    {
        match self.position(session_id) {
            Some(i) => Ok(&self.connections[i]),
            None => Err(ProtocolError::SessionNotFound { session_id: to_owned_string(session_id) }),
        }
    }

    /// Retires the connection of `session_id`, if managed; says whether it
    /// was.
    pub fn close_connection(&mut self, session_id: &str) -> (r: bool)
        ensures
            old(self).wf() ==> final(self).wf(),
            final(self).server_state.config == old(self).server_state.config,
            final(self).server_state.session_counter == old(self).server_state.session_counter,
            final(self).server_state.stream_counter == old(self).server_state.stream_counter,
            match connection_index(old(self).spec_connections(), session_id@) {
                Some(i) => r && final(self).spec_connections() == old(self).spec_connections().remove(i)
                    && final(self).server_state.stats == (ServerStats {
                        active_sessions: wrap_dec(old(self).server_state.stats.active_sessions),
                        ..old(self).server_state.stats
                    }),
                None => !r && final(self).spec_connections() == old(self).spec_connections()
                    && final(self).server_state.stats == old(self).server_state.stats,
            },
    {
        match self.position(session_id) {
            Some(i) => {
                let ghost before = self.connections@;
                let _ = self.connections.remove(i);
                self.server_state.stats.session_closed();
                proof {
                    if old(self).wf() {
                        assert forall|a: int| 0 <= a < self.connections@.len() implies exists|k: u64|
                            k < self.server_state.session_counter
                                && #[trigger] self.connections@[a].session_id@ == "session-"@ + dec_chars(k as nat) by {
                            let oa = if a < i { a } else { a + 1 };
                            assert(self.connections@[a] == before[oa]);
                        }
                        assert forall|a: int, b: int| 0 <= a < b < self.connections@.len() implies
                            #[trigger] self.connections@[a].session_id@ != #[trigger] self.connections@[b].session_id@ by {
                            let oa = if a < i { a } else { a + 1 };
                            let ob = if b < i { b } else { b + 1 };
                            assert(self.connections@[a] == before[oa]);
                            assert(self.connections@[b] == before[ob]);
                        }
                    }
                }
                true
            },
            None => false,
        }
    }

    /// Marks the connection of `session_id` active at `now_ms`.
    pub fn update_activity(&mut self, session_id: &str, now_ms: u64)
        ensures
            old(self).wf() ==> final(self).wf(),
            final(self).server_state == old(self).server_state,
            final(self).spec_connections().len() == old(self).spec_connections().len(),
            forall|j: int| 0 <= j < old(self).spec_connections().len() && connection_index(old(self).spec_connections(), session_id@) != Some(j)
                ==> final(self).spec_connections()[j] == old(self).spec_connections()[j],
            connection_index(old(self).spec_connections(), session_id@) matches Some(i) ==> {
                &&& final(self).spec_connections()[i].last_activity_ms == now_ms
                &&& final(self).spec_connections()[i].session_id == old(self).spec_connections()[i].session_id
                &&& final(self).spec_connections()[i].connection_id == old(self).spec_connections()[i].connection_id
                &&& final(self).spec_connections()[i].established_at_ms == old(self).spec_connections()[i].established_at_ms
            },
    {
        match self.position(session_id) {
            Some(i) => {
                let mut rec = self.connections.remove(i);
                rec.last_activity_ms = now_ms;
                self.connections.insert(i, rec);
                proof {
                    if old(self).wf() {
                        assert forall|a: int| 0 <= a < self.connections@.len() implies exists|k: u64|
                            k < self.server_state.session_counter
                                && #[trigger] self.connections@[a].session_id@ == "session-"@ + dec_chars(k as nat) by {
                            assert(self.connections@[a].session_id == old(self).connections@[a].session_id);
                        }
                        assert forall|a: int, b: int| 0 <= a < b < self.connections@.len() implies
                            #[trigger] self.connections@[a].session_id@ != #[trigger] self.connections@[b].session_id@ by {
                            assert(self.connections@[a].session_id == old(self).connections@[a].session_id);
                            assert(self.connections@[b].session_id == old(self).connections@[b].session_id);
                        }
                    }
                }
            },
            None => {},
        }
    }

    /// The sessions silent for longer than the connection timeout at
    /// `now_ms`, oldest first.
    pub fn inactive_sessions(&self, now_ms: u64) -> (r: Vec<String>)
        ensures
            r@.map_values(|s: String| s@) == self.spec_connections().filter(|c: ConnectionRecord|
                age(now_ms, c.last_activity_ms) > self.server_state.config.connection_timeout_ms).map_values(|c: ConnectionRecord| c.session_id@),
    {
        let ghost pred = |c: ConnectionRecord| age(now_ms, c.last_activity_ms) > self.server_state.config.connection_timeout_ms;
        let ghost conns = self.connections@;
        let mut out: Vec<String> = Vec::new();
        let mut i: usize = 0;
        proof {
            assert(conns.take(0) =~= Seq::<ConnectionRecord>::empty());
            reveal(Seq::filter);
        }
        while i < self.connections.len()
            invariant
                i <= conns.len(),
                conns == self.connections@,
                pred == (|c: ConnectionRecord| age(now_ms, c.last_activity_ms) > self.server_state.config.connection_timeout_ms),
                out@.map_values(|s: String| s@) == conns.take(i as int).filter(pred).map_values(|c: ConnectionRecord| c.session_id@),
            decreases conns.len() - i,
        {
            let c = &self.connections[i];
            let a: u64 = if now_ms >= c.last_activity_ms { now_ms - c.last_activity_ms } else { 0 };
            proof {
                assert(conns.take(i + 1) =~= conns.take(i as int).push(conns[i as int]));
                conns.take(i as int).lemma_filter_push(conns[i as int], pred);
            }
            if a > self.server_state.config.connection_timeout_ms {
                assert(pred(conns[i as int]));
                let ghost prev = out@;
                let sid = to_owned_string(c.session_id.as_str());
                out.push(sid);
                proof {
                    assert(out@.map_values(|s: String| s@) =~= prev.map_values(|s: String| s@).push(conns[i as int].session_id@));
                    assert(out@.map_values(|s: String| s@) =~= conns.take(i + 1).filter(pred).map_values(|c: ConnectionRecord| c.session_id@));
                }
            } else {
                assert(!pred(conns[i as int]));
                proof {
                    assert(out@.map_values(|s: String| s@) =~= conns.take(i + 1).filter(pred).map_values(|c: ConnectionRecord| c.session_id@));
                }
            }
            i = i + 1;
        }
        assert(conns.take(conns.len() as int) =~= conns);
        out
    }

    /// The counters at `now_ms`: connections now and ever, and the mean
    /// (rounded down) and greatest age of the current ones.
    pub fn stats(&self, now_ms: u64) -> (r: ConnectionManagerStats)
        ensures
            r.active_connections == self.spec_connections().len(),
            r.total_connections == self.server_state.stats.total_sessions,
            r.avg_connection_age_ms == (if self.spec_connections().len() == 0 { 0 } else {
                total_age(self.spec_connections(), now_ms) / self.spec_connections().len()
            }),
            r.oldest_connection_age_ms == oldest_age(self.spec_connections(), now_ms),
    {
        let n = self.connections.len();
        let mut total: u128 = 0;
        let mut oldest: u64 = 0;
        let mut i: usize = 0;
        while i < n
            invariant
                i <= n,
                n == self.connections@.len(),
                total == total_age(self.connections@.take(i as int), now_ms),
                total <= i * 0xffff_ffff_ffff_ffffu128,
                oldest == oldest_age(self.connections@.take(i as int), now_ms),
            decreases n - i,
        {
            let c = &self.connections[i];
            let a: u64 = if now_ms >= c.established_at_ms { now_ms - c.established_at_ms } else { 0 };
            proof {
                assert(self.connections@.take(i + 1).drop_last() =~= self.connections@.take(i as int));
                assert(self.connections@.take(i + 1).last() == self.connections@[i as int]);
                assert(i * 0xffff_ffff_ffff_ffffu128 + 0xffff_ffff_ffff_ffffu128 == (i + 1) * 0xffff_ffff_ffff_ffffu128) by (nonlinear_arith);
                assert((i + 1) * 0xffff_ffff_ffff_ffffu128 <= 0xffff_ffff_ffff_ffff_ffff_ffff_ffff_ffffu128) by (nonlinear_arith)
                    requires i < n, n <= usize::MAX;
            }
            total = total + a as u128;
            if a > oldest {
                oldest = a;
            }
            i = i + 1;
        }
        assert(self.connections@.take(n as int) =~= self.connections@);
        let avg: u64 = if n == 0 {
            0
        } else {
            proof {
                assert(total / (n as u128) <= 0xffff_ffff_ffff_ffffu128) by (nonlinear_arith)
                    requires total <= n * 0xffff_ffff_ffff_ffffu128, n > 0;
            }
            (total / (n as u128)) as u64
        };
        ConnectionManagerStats {
            active_connections: n,
            total_connections: self.server_state.stats.total_sessions,
            avg_connection_age_ms: avg,
            oldest_connection_age_ms: oldest,
        }
    }
}

} // verus!
