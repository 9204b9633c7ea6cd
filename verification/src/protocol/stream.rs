use vstd::prelude::*;

verus! {

/// Lifecycle of a stream.
#[derive(Debug, Clone, Copy, PartialEq, Eq, Structural)]
pub enum StreamState {
    Closed,
    Opening,
    Open,
    Closing,
}

/// One multiplexed stream of a connection.
#[derive(Debug)]
pub struct Stream {
    pub local_id: u32,
    pub remote_id: u32,
    pub state: StreamState,
    pub service: Option<String>,
}

impl Stream {
    /// A stream that is opening, with no service yet.
    pub fn new(local_id: u32, remote_id: u32) -> (s: Self)
        ensures
            s.local_id == local_id,
            s.remote_id == remote_id,
            s.state == StreamState::Opening,
            s.service is None,
    {
        Stream { local_id, remote_id, state: StreamState::Opening, service: None }
    }

    /// Records the service the stream was opened for.
    pub fn set_service(&mut self, service: String)
        ensures
            final(self).service matches Some(s) && s@ == service@,
            final(self).local_id == old(self).local_id,
            final(self).remote_id == old(self).remote_id,
            final(self).state == old(self).state,
    {
        self.service = Some(service);
    }

    /// An opening stream becomes open; a stream in any other state is left
    /// as it is.
    pub fn open(&mut self)
        ensures
            old(self).state == StreamState::Opening ==> final(self).state == StreamState::Open,
            old(self).state != StreamState::Opening ==> final(self).state == old(self).state,
            final(self).local_id == old(self).local_id,
            final(self).remote_id == old(self).remote_id,
            final(self).service == old(self).service,
    {
        if self.state == StreamState::Opening {
            self.state = StreamState::Open;
        }
    }

    /// The stream starts closing, whatever its state.
    pub fn close(&mut self)
        ensures
            final(self).state == StreamState::Closing,
            final(self).local_id == old(self).local_id,
            final(self).remote_id == old(self).remote_id,
            final(self).service == old(self).service,
    {
        self.state = StreamState::Closing;
    }
}

} // verus!

verus! {

/// The streams of one connection, keyed by their local id.
#[derive(Debug)]
pub struct StreamManager {
    streams: Vec<Stream>,
    next_local_id: u32,
}

impl StreamManager {
    /// The streams held, in the order they were created.
    pub closed spec fn spec_streams(&self) -> Seq<Stream> {
        self.streams@
    }

    /// The local id the next stream gets.
    pub closed spec fn spec_next_local_id(&self) -> u32 {
        self.next_local_id
    }

    /// Every local id is below the next one handed out and no two streams
    /// share one.
    pub closed spec fn wf(&self) -> bool {
        &&& self.next_local_id >= 1
        &&& forall|i: int| 0 <= i < self.streams@.len() ==> #[trigger] self.streams@[i].local_id < self.next_local_id
        &&& forall|i: int, j: int|
            0 <= i < j < self.streams@.len() ==> #[trigger] self.streams@[i].local_id != #[trigger] self.streams@[j].local_id
    }

    /// An empty manager; the first stream gets local id 1.
    pub fn new() -> (r: Self)
        ensures
            r.wf(),
            r.spec_streams().len() == 0,
            r.spec_next_local_id() == 1,
    {
        StreamManager { streams: Vec::new(), next_local_id: 1 }
    }

    fn position(&self, local_id: u32) -> (r: Option<usize>)
        ensures
            match r {
                Some(i) => i < self.streams@.len() && self.streams@[i as int].local_id == local_id,
                None => forall|j: int| 0 <= j < self.streams@.len() ==> self.streams@[j].local_id != local_id,
            },
    {
        let mut i: usize = 0;
        while i < self.streams.len()
            invariant
                i <= self.streams@.len(),
                forall|j: int| 0 <= j < i ==> self.streams@[j].local_id != local_id,
            decreases self.streams@.len() - i,
        {
            if self.streams[i].local_id == local_id {
                return Some(i);
            }
            i = i + 1;
        }
        None
    }

    /// Opens a stream towards `remote_id` under the next local id, which
    /// is returned.
    pub fn create_stream(&mut self, remote_id: u32) -> (r: u32)
        requires
            old(self).wf(),
            old(self).spec_next_local_id() < u32::MAX,
        ensures
            final(self).wf(),
            r == old(self).spec_next_local_id(),
            final(self).spec_next_local_id() == r + 1,
            final(self).spec_streams().len() == old(self).spec_streams().len() + 1,
            final(self).spec_streams().drop_last() == old(self).spec_streams(),
            final(self).spec_streams().last().local_id == r,
            final(self).spec_streams().last().remote_id == remote_id,
            final(self).spec_streams().last().state == StreamState::Opening,
            final(self).spec_streams().last().service is None,
    {
        let local_id = self.next_local_id;
        self.next_local_id = local_id + 1;
        let stream = Stream::new(local_id, remote_id);
        self.streams.push(stream);
        proof {
            assert(self.streams@.drop_last() =~= old(self).streams@);
        }
        local_id
    }

    /// The stream with the given local id.
    pub fn get_stream(&self, local_id: u32) -> (r: Option<&Stream>)
        ensures
            match r {
                Some(s) => exists|j: int| 0 <= j < self.spec_streams().len() && self.spec_streams()[j] == *s
                    && s.local_id == local_id,
                None => forall|j: int| 0 <= j < self.spec_streams().len() ==> self.spec_streams()[j].local_id != local_id,
            },
    {
        match self.position(local_id) {
            Some(i) => Some(&self.streams[i]),
            None => None,
        }
    }

    /// The stream with the given local id, to change in place. The manager
    /// stays well formed as long as the caller keeps the stream's local id.
    pub fn get_stream_mut(&mut self, local_id: u32) -> (r: Option<&mut Stream>)
        requires
            old(self).wf(),
        ensures
            match r {
                Some(s) => exists|j: int| 0 <= j < old(self).spec_streams().len()
                    && old(self).spec_streams()[j] == *s
                    && s.local_id == local_id
                    && final(self).spec_streams() == old(self).spec_streams().update(j, *final(s))
                    && final(self).spec_next_local_id() == old(self).spec_next_local_id()
                    && (final(s).local_id == local_id ==> final(self).wf()),
                None => *final(self) == *old(self)
                    && forall|j: int| 0 <= j < old(self).spec_streams().len() ==> old(self).spec_streams()[j].local_id != local_id,
            },
    {
        match self.position(local_id) {
            Some(i) => Some(&mut self.streams[i]),
            None => None,
        }
    }

    /// Removes and returns the stream with the given local id.
    pub fn remove_stream(&mut self, local_id: u32) -> (r: Option<Stream>)
        requires
            old(self).wf(),
        ensures
            final(self).wf(),
            final(self).spec_next_local_id() == old(self).spec_next_local_id(),
            match r {
                Some(s) => exists|j: int| 0 <= j < old(self).spec_streams().len()
                    && old(self).spec_streams()[j] == s
                    && s.local_id == local_id
                    && final(self).spec_streams() == old(self).spec_streams().remove(j),
                None => final(self).spec_streams() == old(self).spec_streams()
                    && forall|j: int| 0 <= j < old(self).spec_streams().len() ==> old(self).spec_streams()[j].local_id != local_id,
            },
    {
        match self.position(local_id) {
            Some(i) => {
                let s = self.streams.remove(i);
                proof {
                    let o = old(self).streams@;
                    assert forall|a: int, b: int| 0 <= a < b < self.streams@.len() implies
                        #[trigger] self.streams@[a].local_id != #[trigger] self.streams@[b].local_id by {
                        let oa = if a < i { a } else { a + 1 };
                        let ob = if b < i { b } else { b + 1 };
                        assert(self.streams@[a] == o[oa]);
                        assert(self.streams@[b] == o[ob]);
                        assert(o[oa].local_id != o[ob].local_id);
                    }
                    assert forall|a: int| 0 <= a < self.streams@.len() implies
                        #[trigger] self.streams@[a].local_id < self.next_local_id by {
                        let oa = if a < i { a } else { a + 1 };
                        assert(self.streams@[a] == o[oa]);
                    }
                }
                Some(s)
            },
            None => None,
        }
    }

    /// A stream whose remote id is `remote_id`, if any has it. Where
    /// several have it, which one comes back is not promised.
    pub fn find_stream_by_remote_id(&self, remote_id: u32) -> (r: Option<&Stream>)
        ensures
            match r {
                Some(s) => exists|j: int| 0 <= j < self.spec_streams().len() && self.spec_streams()[j] == *s
                    && s.remote_id == remote_id,
                None => forall|j: int| 0 <= j < self.spec_streams().len() ==> self.spec_streams()[j].remote_id != remote_id,
            },
    {
        let mut i: usize = 0;
        while i < self.streams.len()
            invariant
                i <= self.streams@.len(),
                forall|j: int| 0 <= j < i ==> self.streams@[j].remote_id != remote_id,
            decreases self.streams@.len() - i,
        {
            if self.streams[i].remote_id == remote_id {
                return Some(&self.streams[i]);
            }
            i = i + 1;
        }
        None
    }

    /// Every stream starts closing; nothing else changes.
    pub fn close_all_streams(&mut self)
        requires
            old(self).wf(),
        ensures
            final(self).wf(),
            final(self).spec_next_local_id() == old(self).spec_next_local_id(),
            final(self).spec_streams().len() == old(self).spec_streams().len(),
            forall|j: int| 0 <= j < final(self).spec_streams().len() ==> {
                &&& (#[trigger] final(self).spec_streams()[j]).state == StreamState::Closing
                &&& final(self).spec_streams()[j].local_id == old(self).spec_streams()[j].local_id
                &&& final(self).spec_streams()[j].remote_id == old(self).spec_streams()[j].remote_id
                &&& final(self).spec_streams()[j].service == old(self).spec_streams()[j].service
            },
    {
        let mut i: usize = 0;
        let n = self.streams.len();
        while i < n
            invariant
                i <= n,
                n == self.streams@.len(),
                self.next_local_id == old(self).next_local_id,
                self.streams@.len() == old(self).streams@.len(),
                forall|j: int| 0 <= j < n ==> {
                    &&& (#[trigger] self.streams@[j]).local_id == old(self).streams@[j].local_id
                    &&& self.streams@[j].remote_id == old(self).streams@[j].remote_id
                    &&& self.streams@[j].service == old(self).streams@[j].service
                },
                forall|j: int| 0 <= j < i ==> (#[trigger] self.streams@[j]).state == StreamState::Closing,
                forall|j: int| i <= j < n ==> (#[trigger] self.streams@[j]).state == old(self).streams@[j].state,
            decreases n - i,
        {
            let mut s = self.streams.remove(i);
            s.close();
            self.streams.insert(i, s);
            i = i + 1;
        }
        proof {
            let o = old(self).streams@;
            assert forall|a: int, b: int| 0 <= a < b < self.streams@.len() implies
                #[trigger] self.streams@[a].local_id != #[trigger] self.streams@[b].local_id by {
                assert(self.streams@[a].local_id == o[a].local_id);
                assert(self.streams@[b].local_id == o[b].local_id);
            }
            assert forall|a: int| 0 <= a < self.streams@.len() implies
                #[trigger] self.streams@[a].local_id < self.next_local_id by {
                assert(self.streams@[a].local_id == o[a].local_id);
            }
        }
    }

    /// How many streams there are.
    pub fn stream_count(&self) -> (r: usize)
        ensures
            r == self.spec_streams().len(),
    {
        self.streams.len()
    }
}

impl Default for StreamManager {
    /// An empty manager.
    fn default() -> (r: Self)
        ensures
            r.wf(),
            r.spec_streams().len() == 0,
            r.spec_next_local_id() == 1,
    {
        StreamManager::new()
    }
}


/// Local ids name streams uniquely: a stream found under an id is the only
/// one with it, so the stream a create returned the id of is the one found.
pub proof fn lemma_local_ids_unique(m: StreamManager, i: int, j: int)
    requires
        m.wf(),
        0 <= i < m.spec_streams().len(),
        0 <= j < m.spec_streams().len(),
        m.spec_streams()[i].local_id == m.spec_streams()[j].local_id,
    ensures
        i == j,
{
    if i < j {
        assert(m.spec_streams()[i].local_id != m.spec_streams()[j].local_id);
    } else if j < i {
        assert(m.spec_streams()[j].local_id != m.spec_streams()[i].local_id);
    }
}
} // verus!
