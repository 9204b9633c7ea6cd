use vstd::prelude::*;
use crate::protocol::message::{AdbMessage, MessageModel, built};
use crate::protocol::constants::{OPEN, OKAY, WRTE, CLSE};
use crate::text::{utf8_lossy, lossy_text};

verus! {

/// Where a multiplexed stream stands.
#[derive(Debug, Clone, Copy, PartialEq, Eq, Structural)]
pub enum StreamState {
    Opening,
    Connected,
    Closing,
    Closed,
}

/// What happens to streams, for observers.
#[derive(Debug, Clone)]
pub enum StreamEvent {
    StreamCreated { local_id: u32, service_name: String },
    StreamConnected { local_id: u32, remote_id: u32, service_name: String },
    StreamClosed { local_id: u32, remote_id: u32 },
    StreamError { local_id: u32, error: String },
}

/// Counts of the streams of a multiplexer.
#[derive(Debug, Clone, Copy, PartialEq, Eq, Structural)]
pub struct MultiplexerStats {
    pub active_streams: usize,
    pub connected_streams: usize,
    pub opening_streams: usize,
    pub max_concurrent_streams: usize,
    pub stream_timeout_ms: u64,
}

/// Why a stream request was refused.
#[derive(Debug, Clone, PartialEq, Eq)]
pub enum MuxError {
    TooManyStreams { max: usize },
    /// Another command than the one expected.
    UnexpectedCommand { expected: u32, got: u32 },
    StreamNotFound { local_id: u32 },
    NotConnected { local_id: u32 },
    NoRemoteId { local_id: u32 },
}

/// One stream of a session; times in milliseconds.
#[derive(Debug)]
pub struct AdbStream {
    pub local_id: u32,
    pub service_name: String,
    pub remote_id: Option<u32>,
    pub state: StreamState,
    pub created_at_ms: u64,
    pub last_activity_ms: u64,
    pub timeout_ms: u64,
}

impl AdbStream {
    /// Records the peer's id for the stream, which is then connected;
    /// refused when the stream has one already.
    pub fn set_remote_id(&mut self, remote_id: u32) -> (r: Result<(), String>)
        ensures
            old(self).remote_id is Some ==> (r matches Err(m) && m@ == "Remote ID already set"@) && *final(self) == *old(self),
            old(self).remote_id is None ==> r is Ok && *final(self) == (AdbStream {
                remote_id: Some(remote_id),
                state: StreamState::Connected,
                ..*old(self)
            }),
    {
        if self.remote_id.is_some() {
            return Err(crate::text::to_owned_string("Remote ID already set"));
        }
        self.remote_id = Some(remote_id);
        self.state = StreamState::Connected;
        Ok(())
    }

    /// The peer's id for the stream, if known.
    pub fn get_remote_id(&self) -> (r: Option<u32>)
        ensures
            r == self.remote_id,
    {
        self.remote_id
    }

    /// Where the stream stands.
    pub fn get_state(&self) -> (r: StreamState)
        ensures
            r == self.state,
    {
        self.state
    }
}

/// The position of the stream with local id `id`, if any.
pub open spec fn stream_pos(streams: Seq<AdbStream>, id: u32) -> Option<int> {
    if exists|i: int| 0 <= i < streams.len() && streams[i].local_id == id {
        Some(choose|i: int| 0 <= i < streams.len() && streams[i].local_id == id)
    } else {
        None
    }
}

/// The local id after `id`: ids wrap around and skip zero.
pub open spec fn next_id(id: u32) -> u32 {
    if id == u32::MAX { 1 } else { (id + 1) as u32 }
}

/// Many streams in one session, each with its own local id.
pub struct StreamMultiplexer {
    pub streams: Vec<AdbStream>,
    pub next_local_id: u32,
    pub max_concurrent_streams: usize,
    pub stream_timeout_ms: u64,
}

impl StreamMultiplexer {
    /// Local ids are unique and the next one is not zero.
    pub open spec fn wf(&self) -> bool {
        &&& self.next_local_id != 0
        &&& forall|i: int, j: int| 0 <= i < j < self.streams@.len() ==> self.streams@[i].local_id != self.streams@[j].local_id
    }

    /// No streams; at most 50; five-minute timeout; ids from 1.
    pub fn new() -> (r: Self)
        ensures
            r.wf(),
            r.streams@.len() == 0,
            r.next_local_id == 1,
            r.max_concurrent_streams == 50,
            r.stream_timeout_ms == 300_000,
    {
        StreamMultiplexer { streams: Vec::new(), next_local_id: 1, max_concurrent_streams: 50, stream_timeout_ms: 300_000 }
    }

    /// No streams, with the given limit and timeout.
    pub fn with_config(max_concurrent_streams: usize, stream_timeout_ms: u64) -> (r: Self)
        ensures
            r.wf(),
            r.streams@.len() == 0,
            r.next_local_id == 1,
            r.max_concurrent_streams == max_concurrent_streams,
            r.stream_timeout_ms == stream_timeout_ms,
    {
        StreamMultiplexer { streams: Vec::new(), next_local_id: 1, max_concurrent_streams, stream_timeout_ms }
    }

    /// The position of stream `id`.
    fn position(&self, id: u32) -> (r: Option<usize>)
        requires
            self.wf(),
        ensures
            match r {
                Some(i) => stream_pos(self.streams@, id) == Some(i as int) && i < self.streams@.len(),
                None => stream_pos(self.streams@, id) is None,
            },
    {
        let mut i: usize = 0;
        while i < self.streams.len()
            invariant
                i <= self.streams@.len(),
                self.wf(),
                forall|j: int| 0 <= j < i ==> self.streams@[j].local_id != id,
            decreases self.streams@.len() - i,
        {
            if self.streams[i].local_id == id {
                proof {
                    let s = self.streams@;
                    assert(s[i as int].local_id == id);
                    let w = choose|k: int| 0 <= k < s.len() && s[k].local_id == id;
                    if w != i {
                        if w < i {
                            assert(s[w].local_id != s[i as int].local_id);
                        } else {
                            assert(s[i as int].local_id != s[w].local_id);
                        }
                    }
                }
                return Some(i);
            }
            i = i + 1;
        }
        None
    }

    /// Puts `s` in the table: in place of the stream with its id, or last.
    fn insert_stream(&mut self, s: AdbStream)
        requires
            old(self).wf(),
        ensures
            final(self).wf(),
            final(self).next_local_id == old(self).next_local_id,
            final(self).max_concurrent_streams == old(self).max_concurrent_streams,
            final(self).stream_timeout_ms == old(self).stream_timeout_ms,
            final(self).streams@ == match stream_pos(old(self).streams@, s.local_id) {
                Some(i) => old(self).streams@.update(i, s),
                None => old(self).streams@.push(s),
            },
    {
        let ghost sv = s;
        match self.position(s.local_id) {
            Some(i) => {
                let _ = self.streams.remove(i);
                self.streams.insert(i, s);
                proof {
                    assert(self.streams@ =~= old(self).streams@.update(i as int, sv));
                    assert forall|a: int, b: int| 0 <= a < b < self.streams@.len() implies self.streams@[a].local_id != self.streams@[b].local_id by {
                        assert(self.streams@[a].local_id == old(self).streams@[a].local_id);
                        assert(self.streams@[b].local_id == old(self).streams@[b].local_id);
                    }
                }
            },
            None => {
                self.streams.push(s);
                proof {
                    assert forall|a: int, b: int| 0 <= a < b < self.streams@.len() implies self.streams@[a].local_id != self.streams@[b].local_id by {
                        if b == self.streams@.len() - 1 {
                            assert(self.streams@[a] == old(self).streams@[a]);
                        } else {
                            assert(self.streams@[a] == old(self).streams@[a]);
                            assert(self.streams@[b] == old(self).streams@[b]);
                        }
                    }
                }
            },
        }
    }

    /// Opens a stream for `service_name` at `now_ms` under the next local
    /// id, unless the limit is reached. The stream waits for its remote id.
    pub fn create_stream(&mut self, service_name: String, now_ms: u64) -> (r: Result<u32, MuxError>)
        requires
            old(self).wf(),
        ensures
            final(self).wf(),
            final(self).max_concurrent_streams == old(self).max_concurrent_streams,
            final(self).stream_timeout_ms == old(self).stream_timeout_ms,
            old(self).streams@.len() >= old(self).max_concurrent_streams ==>
                r == Err::<u32, MuxError>(MuxError::TooManyStreams { max: old(self).max_concurrent_streams })
                && final(self).streams@ == old(self).streams@
                && final(self).next_local_id == old(self).next_local_id,
            old(self).streams@.len() < old(self).max_concurrent_streams ==> {
                let id = old(self).next_local_id;
                &&& r == Ok::<u32, MuxError>(id)
                &&& final(self).next_local_id == next_id(id)
                &&& stream_pos(final(self).streams@, id) matches Some(i) && {
                    let s = final(self).streams@[i];
                    &&& s.service_name == service_name
                    &&& s.remote_id is None
                    &&& s.state == StreamState::Opening
                    &&& s.created_at_ms == now_ms
                    &&& s.last_activity_ms == now_ms
                    &&& s.timeout_ms == old(self).stream_timeout_ms
                }
                &&& forall|j: int| 0 <= j < old(self).streams@.len() && old(self).streams@[j].local_id != id
                    ==> final(self).streams@[j] == old(self).streams@[j]
                &&& final(self).streams@.len() == old(self).streams@.len() + (if stream_pos(old(self).streams@, id) is Some { 0int } else { 1int })
            },
    {
        if self.streams.len() >= self.max_concurrent_streams {
            return Err(MuxError::TooManyStreams { max: self.max_concurrent_streams });
        }
        let local_id = self.next_local_id;
        self.next_local_id = if self.next_local_id == u32::MAX { 1 } else { self.next_local_id + 1 };
        let s = AdbStream {
            local_id,
            service_name,
            remote_id: None,
            state: StreamState::Opening,
            created_at_ms: now_ms,
            last_activity_ms: now_ms,
            timeout_ms: self.stream_timeout_ms,
        };
        let ghost sv = s;
        self.insert_stream(s);
        proof {
            let k = match stream_pos(old(self).streams@, local_id) {
                Some(i) => i,
                None => old(self).streams@.len() as int,
            };
            assert(self.streams@[k] == sv);
            assert(self.streams@[k].local_id == local_id);
            let w = stream_pos(self.streams@, local_id)->0;
            if w != k {
                if w < k {
                    assert(self.streams@[w].local_id != self.streams@[k].local_id);
                } else {
                    assert(self.streams@[k].local_id != self.streams@[w].local_id);
                }
            }
        }
        Ok(local_id)
    }

    /// OPEN from the peer: a stream for the named service (its payload,
    /// read leniently as UTF-8), connected to the peer's id at once and
    /// acknowledged.
    pub fn process_open_message(&mut self, message: &AdbMessage, now_ms: u64) -> (r: Result<(u32, AdbMessage), MuxError>)
        requires
            old(self).wf(),
        ensures
            final(self).wf(),
            message@.command != OPEN ==> r == Err::<(u32, AdbMessage), MuxError>(MuxError::UnexpectedCommand { expected: OPEN, got: message@.command })
                && final(self).streams@ == old(self).streams@,
            message@.command == OPEN && old(self).streams@.len() >= old(self).max_concurrent_streams ==>
                r == Err::<(u32, AdbMessage), MuxError>(MuxError::TooManyStreams { max: old(self).max_concurrent_streams })
                && final(self).streams@ == old(self).streams@,
            message@.command == OPEN && old(self).streams@.len() < old(self).max_concurrent_streams ==> {
                let id = old(self).next_local_id;
                &&& r matches Ok((l, m)) && l == id && m@ == built(OKAY, id, message@.arg0, Seq::empty())
                &&& final(self).next_local_id == next_id(id)
                &&& stream_pos(final(self).streams@, id) matches Some(i) && {
                    let s = final(self).streams@[i];
                    &&& s.service_name@ == lossy_text(message@.data)
                    &&& s.remote_id == Some(message@.arg0)
                    &&& s.state == StreamState::Connected
                    &&& s.created_at_ms == now_ms
                    &&& s.last_activity_ms == now_ms
                }
            },
    {
        if message.command != OPEN {
            return Err(MuxError::UnexpectedCommand { expected: OPEN, got: message.command });
        }
        let remote_id = message.arg0;
        let service_name = utf8_lossy(message.data.as_slice());
        let local_id = match self.create_stream(service_name, now_ms) {
            Ok(id) => id,
            Err(e) => return Err(e),
        };
        let i = match self.position(local_id) {
            Some(i) => i,
            None => {
                proof {
                    assert(false);
                }
                return Err(MuxError::StreamNotFound { local_id });
            },
        };
        let ghost before = self.streams@;
        let mut s = self.streams.remove(i);
        s.remote_id = Some(remote_id);
        s.state = StreamState::Connected;
        s.last_activity_ms = now_ms;
        proof {
            assert forall|a: int, b: int| 0 <= a < b < self.streams@.len() implies self.streams@[a].local_id != self.streams@[b].local_id by {
                let oa = if a < i { a } else { a + 1 };
                let ob = if b < i { b } else { b + 1 };
                assert(self.streams@[a] == before[oa]);
                assert(self.streams@[b] == before[ob]);
            }
            assert forall|j: int| 0 <= j < self.streams@.len() implies self.streams@[j].local_id != local_id by {
                let oj = if j < i { j } else { j + 1 };
                assert(self.streams@[j] == before[oj]);
                if before[oj].local_id == local_id {
                    assert(before[i as int].local_id == local_id);
                }
            }
        }
        let ghost sv = s;
        self.insert_stream(s);
        proof {
            let k = (self.streams@.len() - 1) as int;
            assert(self.streams@[k] == sv);
            let w = stream_pos(self.streams@, local_id)->0;
            if w != k {
                if w < k {
                    assert(self.streams@[w].local_id != self.streams@[k].local_id);
                } else {
                    assert(self.streams@[k].local_id != self.streams@[w].local_id);
                }
            }
        }
        Ok((local_id, AdbMessage::new_okay(local_id, remote_id)))
    }

    /// Takes stream `id` out of the table, when it is there.
    fn take_stream(&mut self, id: u32) -> (r: Option<AdbStream>)
        requires
            old(self).wf(),
        ensures
            final(self).wf(),
            final(self).next_local_id == old(self).next_local_id,
            final(self).max_concurrent_streams == old(self).max_concurrent_streams,
            final(self).stream_timeout_ms == old(self).stream_timeout_ms,
            match stream_pos(old(self).streams@, id) {
                Some(i) => r == Some(old(self).streams@[i]) && final(self).streams@ == old(self).streams@.remove(i),
                None => r is None && final(self).streams@ == old(self).streams@,
            },
    {
        match self.position(id) {
            Some(i) => {
                let ghost before = self.streams@;
                let s = self.streams.remove(i);
                proof {
                    assert forall|a: int, b: int| 0 <= a < b < self.streams@.len() implies self.streams@[a].local_id != self.streams@[b].local_id by {
                        let oa = if a < i { a } else { a + 1 };
                        let ob = if b < i { b } else { b + 1 };
                        assert(self.streams@[a] == before[oa]);
                        assert(self.streams@[b] == before[ob]);
                    }
                }
                Some(s)
            },
            None => None,
        }
    }

    /// WRTE from the peer on stream `arg1`: the stream must be connected;
    /// its data is handed back for the stream's reader with the
    /// acknowledgment.
    pub fn process_write_message(&self, message: &AdbMessage) -> (r: Result<AdbMessage, MuxError>)
        requires
            self.wf(),
        ensures
            message@.command != WRTE ==> r == Err::<AdbMessage, MuxError>(MuxError::UnexpectedCommand { expected: WRTE, got: message@.command }),
            message@.command == WRTE ==> match stream_pos(self.streams@, message@.arg1) {
                None => r == Err::<AdbMessage, MuxError>(MuxError::StreamNotFound { local_id: message@.arg1 }),
                Some(i) => if self.streams@[i].state != StreamState::Connected {
                    r == Err::<AdbMessage, MuxError>(MuxError::NotConnected { local_id: message@.arg1 })
                } else {
                    r matches Ok(m) && m@ == built(OKAY, message@.arg1, message@.arg0, Seq::empty())
                },
            },
    {
        if message.command != WRTE {
            return Err(MuxError::UnexpectedCommand { expected: WRTE, got: message.command });
        }
        let local_id = message.arg1;
        match self.position(local_id) {
            None => Err(MuxError::StreamNotFound { local_id }),
            Some(i) => {
                if self.streams[i].state != StreamState::Connected {
                    return Err(MuxError::NotConnected { local_id });
                }
                Ok(AdbMessage::new_okay(local_id, message.arg0))
            },
        }
    }

    /// CLSE from the peer on stream `arg1`: a known stream is dropped and
    /// the close answered; an unknown one is ignored.
    pub fn process_close_message(&mut self, message: &AdbMessage) -> (r: Result<Option<AdbMessage>, MuxError>)
        requires
            old(self).wf(),
        ensures
            final(self).wf(),
            final(self).next_local_id == old(self).next_local_id,
            message@.command != CLSE ==> r == Err::<Option<AdbMessage>, MuxError>(MuxError::UnexpectedCommand { expected: CLSE, got: message@.command })
                && final(self).streams@ == old(self).streams@,
            message@.command == CLSE ==> match stream_pos(old(self).streams@, message@.arg1) {
                None => r matches Ok(None) && final(self).streams@ == old(self).streams@,
                Some(i) => (r matches Ok(Some(m)) && m@ == built(CLSE, message@.arg1, message@.arg0, Seq::empty()))
                    && final(self).streams@ == old(self).streams@.remove(i),
            },
    {
        if message.command != CLSE {
            return Err(MuxError::UnexpectedCommand { expected: CLSE, got: message.command });
        }
        match self.take_stream(message.arg1) {
            Some(_) => Ok(Some(AdbMessage::new_clse(message.arg1, message.arg0))),
            None => Ok(None),
        }
    }

    /// WRTE of `data` on stream `local_id` at `now_ms`: the stream must be
    /// connected to a remote id.
    pub fn send_stream_data(&mut self, local_id: u32, data: Vec<u8>, now_ms: u64) -> (r: Result<AdbMessage, MuxError>)
        requires
            old(self).wf(),
        ensures
            final(self).wf(),
            final(self).next_local_id == old(self).next_local_id,
            final(self).streams@.len() == old(self).streams@.len(),
            match stream_pos(old(self).streams@, local_id) {
                None => r == Err::<AdbMessage, MuxError>(MuxError::StreamNotFound { local_id }),
                Some(i) => if old(self).streams@[i].state != StreamState::Connected {
                    r == Err::<AdbMessage, MuxError>(MuxError::NotConnected { local_id })
                } else {
                    match old(self).streams@[i].remote_id {
                        None => r == Err::<AdbMessage, MuxError>(MuxError::NoRemoteId { local_id }),
                        Some(remote) => (r matches Ok(m) && m@ == built(WRTE, local_id, remote, data@))
                            && final(self).streams@[i].last_activity_ms == now_ms,
                    }
                },
            },
    {
        let i = match self.position(local_id) {
            None => return Err(MuxError::StreamNotFound { local_id }),
            Some(i) => i,
        };
        if self.streams[i].state != StreamState::Connected {
            return Err(MuxError::NotConnected { local_id });
        }
        let remote_id = match self.streams[i].remote_id {
            None => return Err(MuxError::NoRemoteId { local_id }),
            Some(r) => r,
        };
        let ghost before = self.streams@;
        let mut s = self.streams.remove(i);
        s.last_activity_ms = now_ms;
        self.streams.insert(i, s);
        proof {
            assert forall|a: int, b: int| 0 <= a < b < self.streams@.len() implies self.streams@[a].local_id != self.streams@[b].local_id by {
                assert(self.streams@[a].local_id == before[a].local_id);
                assert(self.streams@[b].local_id == before[b].local_id);
            }
        }
        Ok(AdbMessage::new_wrte(local_id, remote_id, data))
    }

    /// Closes stream `local_id` from this side: it is dropped, and a CLSE
    /// is due when it has a remote id.
    pub fn close_stream(&mut self, local_id: u32) -> (r: Option<AdbMessage>)
        requires
            old(self).wf(),
        ensures
            final(self).wf(),
            final(self).next_local_id == old(self).next_local_id,
            match stream_pos(old(self).streams@, local_id) {
                None => r is None && final(self).streams@ == old(self).streams@,
                Some(i) => final(self).streams@ == old(self).streams@.remove(i) && match old(self).streams@[i].remote_id {
                    Some(remote) => r matches Some(m) && m@ == built(CLSE, local_id, remote, Seq::empty()),
                    None => r is None,
                },
            },
    {
        match self.take_stream(local_id) {
            Some(s) => match s.remote_id {
                Some(remote) => Some(AdbMessage::new_clse(local_id, remote)),
                None => None,
            },
            None => None,
        }
    }

    /// The stream with local id `local_id`, if any.
    pub fn get_stream(&self, local_id: u32) -> (r: Option<&AdbStream>)
        requires
            self.wf(),
        ensures
            match stream_pos(self.streams@, local_id) {
                Some(i) => r matches Some(s) && *s == self.streams@[i],
                None => r is None,
            },
    {
        let mut i: usize = 0;
        while i < self.streams.len()
            invariant
                i <= self.streams@.len(),
                self.wf(),
                forall|j: int| 0 <= j < i ==> self.streams@[j].local_id != local_id,
            decreases self.streams@.len() - i,
        {
            if self.streams[i].local_id == local_id {
                proof {
                    let k = stream_pos(self.streams@, local_id)->0;
                    if k != i {
                        if k < i {
                            assert(self.streams@[k].local_id != self.streams@[i as int].local_id);
                        } else {
                            assert(self.streams@[i as int].local_id != self.streams@[k].local_id);
                        }
                    }
                }
                return Some(&self.streams[i]);
            }
            i = i + 1;
        }
        None
    }

    /// All streams, in the order they were opened.
    pub fn get_all_streams(&self) -> (r: &Vec<AdbStream>)
        ensures
            r@ == self.streams@,
    {
        &self.streams
    }

    /// Drops the streams past their timeout at `now_ms` and says how many
    /// went.
    pub fn cleanup_expired_streams(&mut self, now_ms: u64) -> (r: usize)
        requires
            old(self).wf(),
        ensures
            final(self).wf(),
            final(self).next_local_id == old(self).next_local_id,
            final(self).max_concurrent_streams == old(self).max_concurrent_streams,
            final(self).stream_timeout_ms == old(self).stream_timeout_ms,
            final(self).streams@ == old(self).streams@.filter(|s: AdbStream| !(now_ms >= s.created_at_ms && now_ms - s.created_at_ms > s.timeout_ms)),
            r == old(self).streams@.len() - final(self).streams@.len(),
    {
        let ghost orig = self.streams@;
        let ghost pred = |s: AdbStream| !(now_ms >= s.created_at_ms && now_ms - s.created_at_ms > s.timeout_ms);
        let n0 = self.streams.len();
        let mut i: usize = 0;
        let ghost mut p: int = 0;
        proof {
            assert(orig.take(0) =~= Seq::<AdbStream>::empty());
            reveal(Seq::filter);
            assert(orig.take(0).filter(pred) + orig.skip(0) =~= orig);
        }
        while i < self.streams.len()
            invariant
                0 <= p <= orig.len(),
                pred == (|s: AdbStream| !(now_ms >= s.created_at_ms && now_ms - s.created_at_ms > s.timeout_ms)),
                n0 == orig.len(),
                orig == old(self).streams@,
                old(self).wf(),
                self.next_local_id == old(self).next_local_id,
                self.max_concurrent_streams == old(self).max_concurrent_streams,
                self.stream_timeout_ms == old(self).stream_timeout_ms,
                i == orig.take(p).filter(pred).len(),
                self.streams@ == orig.take(p).filter(pred) + orig.skip(p),
                forall|k: int| 0 <= k < i ==> exists|j: int| 0 <= j < p && orig[j] == #[trigger] self.streams@[k],
                forall|a: int, b: int| 0 <= a < b < i ==> self.streams@[a].local_id != self.streams@[b].local_id,
            decreases orig.len() - p,
        {
            proof {
                assert(self.streams@[i as int] == orig[p]);
                assert(orig.take(p + 1) =~= orig.take(p).push(orig[p]));
                orig.take(p).lemma_filter_push(orig[p], pred);
            }
            let s = &self.streams[i];
            let expired = now_ms >= s.created_at_ms && now_ms - s.created_at_ms > s.timeout_ms;
            if expired {
                let ghost before = self.streams@;
                self.streams.remove(i);
                proof {
                    assert(self.streams@ =~= orig.take(p + 1).filter(pred) + orig.skip(p + 1));
                    assert forall|k: int| 0 <= k < i implies exists|j: int| 0 <= j < p + 1 && orig[j] == #[trigger] self.streams@[k] by {
                        assert(self.streams@[k] == before[k]);
                        let j = choose|j: int| 0 <= j < p && orig[j] == before[k];
                    }
                }
            } else {
                proof {
                    assert forall|k: int| 0 <= k < i implies self.streams@[k].local_id != orig[p].local_id by {
                        let j = choose|j: int| 0 <= j < p && orig[j] == self.streams@[k];
                        assert(orig[j].local_id != orig[p].local_id);
                    }
                    assert(self.streams@ =~= orig.take(p + 1).filter(pred) + orig.skip(p + 1));
                    assert forall|k: int| 0 <= k < i + 1 implies exists|j: int| 0 <= j < p + 1 && orig[j] == #[trigger] self.streams@[k] by {
                        if k == i {
                            assert(orig[p] == self.streams@[k]);
                        } else {
                            let j = choose|j: int| 0 <= j < p && orig[j] == self.streams@[k];
                            assert(orig[j] == self.streams@[k]);
                        }
                    }
                }
                i = i + 1;
            }
            proof {
                p = p + 1;
            }
        }
        proof {
            assert(orig.take(p) =~= orig) by {
                assert(self.streams@.len() == i);
            }
            assert(self.streams@ =~= orig.filter(pred));
            orig.lemma_filter_len(pred);
        }
        n0 - self.streams.len()
    }

    /// The local ids of the streams past their timeout at `now_ms`, in
    /// order.
    pub fn expired_streams(&self, now_ms: u64) -> (r: Vec<u32>)
        ensures
            r@ == self.streams@.filter(|s: AdbStream| now_ms >= s.created_at_ms && now_ms - s.created_at_ms > s.timeout_ms)
                .map_values(|s: AdbStream| s.local_id),
    {
        let ghost pred = |s: AdbStream| now_ms >= s.created_at_ms && now_ms - s.created_at_ms > s.timeout_ms;
        let ghost all = self.streams@;
        let mut out: Vec<u32> = Vec::new();
        let mut i: usize = 0;
        proof {
            assert(all.take(0) =~= Seq::<AdbStream>::empty());
            reveal(Seq::filter);
        }
        while i < self.streams.len()
            invariant
                i <= all.len(),
                all == self.streams@,
                pred == (|s: AdbStream| now_ms >= s.created_at_ms && now_ms - s.created_at_ms > s.timeout_ms),
                out@ == all.take(i as int).filter(pred).map_values(|s: AdbStream| s.local_id),
            decreases all.len() - i,
        {
            proof {
                assert(all.take(i + 1) =~= all.take(i as int).push(all[i as int]));
                all.take(i as int).lemma_filter_push(all[i as int], pred);
            }
            let s = &self.streams[i];
            if now_ms >= s.created_at_ms && now_ms - s.created_at_ms > s.timeout_ms {
                out.push(s.local_id);
                assert(out@ =~= all.take(i + 1).filter(pred).map_values(|s: AdbStream| s.local_id));
            } else {
                assert(out@ =~= all.take(i + 1).filter(pred).map_values(|s: AdbStream| s.local_id));
            }
            i = i + 1;
        }
        assert(all.take(all.len() as int) =~= all);
        out
    }

    /// Counts of the streams by state.
    pub fn get_stats(&self) -> (r: MultiplexerStats)
        ensures
            r.active_streams == self.streams@.len(),
            r.connected_streams == self.streams@.filter(|s: AdbStream| s.state == StreamState::Connected).len(),
            r.opening_streams == self.streams@.filter(|s: AdbStream| s.state == StreamState::Opening).len(),
            r.max_concurrent_streams == self.max_concurrent_streams,
            r.stream_timeout_ms == self.stream_timeout_ms,
    {
        let ghost conn = |s: AdbStream| s.state == StreamState::Connected;
        let ghost open = |s: AdbStream| s.state == StreamState::Opening;
        let ghost all = self.streams@;
        let mut connected: usize = 0;
        let mut opening: usize = 0;
        let mut i: usize = 0;
        proof {
            assert(all.take(0) =~= Seq::<AdbStream>::empty());
            reveal(Seq::filter);
        }
        while i < self.streams.len()
            invariant
                i <= all.len(),
                all == self.streams@,
                conn == (|s: AdbStream| s.state == StreamState::Connected),
                open == (|s: AdbStream| s.state == StreamState::Opening),
                connected == all.take(i as int).filter(conn).len(),
                opening == all.take(i as int).filter(open).len(),
                connected <= i,
                opening <= i,
            decreases all.len() - i,
        {
            proof {
                assert(all.take(i + 1) =~= all.take(i as int).push(all[i as int]));
                all.take(i as int).lemma_filter_push(all[i as int], conn);
                all.take(i as int).lemma_filter_push(all[i as int], open);
            }
            match self.streams[i].state {
                StreamState::Connected => {
                    connected = connected + 1;
                },
                StreamState::Opening => {
                    opening = opening + 1;
                },
                _ => {},
            }
            i = i + 1;
        }
        assert(all.take(all.len() as int) =~= all);
        MultiplexerStats {
            active_streams: self.streams.len(),
            connected_streams: connected,
            opening_streams: opening,
            max_concurrent_streams: self.max_concurrent_streams,
            stream_timeout_ms: self.stream_timeout_ms,
        }
    }
}

} // verus!
