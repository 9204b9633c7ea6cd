use vstd::prelude::*;
use vstd::string::StrSliceExecFns;
use vstd::utf8::encode_utf8;
use crate::protocol::message::{AdbMessage, MessageModel, built};
use crate::protocol::constants::{CNXN, AUTH, OPEN, OKAY, WRTE, CLSE, PING, PONG};
use crate::protocol::ascii::{fail_response, spec_fail_response};
use crate::server::host_commands::HostCommandResponse;
use crate::text::{has_prefix, starts_with, to_owned_string, utf8_lossy, lossy_text};

verus! {

/// A stream a client opened.
#[derive(Debug)]
pub struct StreamInfo {
    pub local_id: u32,
    pub remote_id: u32,
    pub service_name: String,
    pub is_host_service: bool,
}

/// The models of a list of messages.
pub open spec fn messages_view(v: Seq<AdbMessage>) -> Seq<MessageModel> {
    v.map_values(|m: AdbMessage| m@)
}

/// The position of the stream with local id `id`, if any.
pub open spec fn stream_index(records: Seq<StreamInfo>, id: u32) -> Option<int> {
    if exists|i: int| 0 <= i < records.len() && records[i].local_id == id {
        Some(choose|i: int| 0 <= i < records.len() && records[i].local_id == id
            && forall|j: int| 0 <= j < i ==> records[j].local_id != id)
    } else {
        None
    }
}

/// The streams without the one with local id `id`.
pub open spec fn without_stream(records: Seq<StreamInfo>, id: u32) -> Seq<StreamInfo> {
    match stream_index(records, id) {
        Some(i) => records.remove(i),
        None => records,
    }
}

/// `s` without its trailing NUL characters.
pub open spec fn trim_nul_end(s: Seq<char>) -> Seq<char>
    decreases s.len(),
{
    if s.len() > 0 && s.last() == '\0' {
        trim_nul_end(s.drop_last())
    } else {
        s
    }
}

/// The identity this server announces.
pub open spec fn server_identity() -> Seq<u8> {
    seq![100u8, 101, 118, 105, 99, 101, 58, 58, 0]
}

/// The messages of a host error: the failure in a WRTE, then CLSE.
pub open spec fn host_error_messages(local_id: u32, remote_id: u32, message: Seq<char>) -> Seq<MessageModel> {
    seq![
        built(WRTE, local_id, remote_id, spec_fail_response(encode_utf8(message))),
        built(CLSE, local_id, remote_id, Seq::empty()),
    ]
}

/// OKAY, then the data in a WRTE when there is any.
pub open spec fn okay_then_data(local_id: u32, remote_id: u32, data: Seq<u8>) -> Seq<MessageModel> {
    if data.len() > 0 {
        seq![built(OKAY, local_id, remote_id, Seq::empty()), built(WRTE, local_id, remote_id, data)]
    } else {
        seq![built(OKAY, local_id, remote_id, Seq::empty())]
    }
}

/// A host command's answer and a host error both travel on the stream
/// pair they answer (arg0 the local id, arg1 the remote id): the answer is
/// acknowledged first and carries exactly the data given, in one WRTE when
/// there is any; the error is written and then the stream closed.
pub proof fn lemma_replies_keep_stream_pair(local_id: u32, remote_id: u32, data: Seq<u8>, message: Seq<char>)
    ensures
        ({
            let ok = okay_then_data(local_id, remote_id, data);
            let err = host_error_messages(local_id, remote_id, message);
            &&& forall|i: int| 0 <= i < ok.len() ==> (#[trigger] ok[i]).arg0 == local_id && ok[i].arg1 == remote_id
            &&& forall|i: int| 0 <= i < err.len() ==> (#[trigger] err[i]).arg0 == local_id && err[i].arg1 == remote_id
            &&& ok[0].command == OKAY
            &&& (data.len() > 0 <==> ok.len() == 2)
            &&& data.len() > 0 ==> ok[1].command == WRTE && ok[1].data == data
            &&& err.len() == 2 && err[0].command == WRTE && err[1].command == CLSE
        }),
{
}

/// What a client session decides about one opened stream.
#[derive(Debug)]
pub enum OpenOutcome {
    /// Run the host command `service` and answer with `handle_host_response`.
    HostCommand { local_id: u32, remote_id: u32, service: String },
    /// Send these messages.
    Reply(Vec<AdbMessage>),
}

/// Why a client's message ends its session.
#[derive(Debug, Clone, Copy, PartialEq, Eq, Structural)]
pub enum ClientError {
    /// A stream was opened before the handshake.
    NotAuthenticated,
}

/// The protocol state of one client connection.
pub struct ClientHandler {
    pub client_id: String,
    pub is_authenticated: bool,
    pub selected_device: Option<String>,
    pub active_streams: Vec<StreamInfo>,
    pub next_stream_id: u32,
}

impl ClientHandler {
    /// Every stream's local id was handed out before.
    pub open spec fn wf(&self) -> bool {
        forall|i: int| 0 <= i < self.active_streams@.len() ==> self.active_streams@[i].local_id < self.next_stream_id
    }

    /// A new, unauthenticated client with no streams; ids start at 1.
    pub fn new(client_id: String) -> (r: Self)
        ensures
            r.wf(),
            r.client_id == client_id,
            !r.is_authenticated,
            r.selected_device is None,
            r.active_streams@.len() == 0,
            r.next_stream_id == 1,
    {
        ClientHandler {
            client_id,
            is_authenticated: false,
            selected_device: None,
            active_streams: Vec::new(),
            next_stream_id: 1,
        }
    }

    /// Forgets the stream with local id `id`.
    fn remove_stream(&mut self, id: u32)
        requires
            old(self).wf(),
        ensures
            final(self).wf(),
            final(self).active_streams@ == without_stream(old(self).active_streams@, id),
            final(self).client_id == old(self).client_id,
            final(self).is_authenticated == old(self).is_authenticated,
            final(self).selected_device == old(self).selected_device,
            final(self).next_stream_id == old(self).next_stream_id,
    {
        let mut i: usize = 0;
        while i < self.active_streams.len()
            invariant
                i <= self.active_streams@.len(),
                self.active_streams@ == old(self).active_streams@,
                old(self).wf(),
                self.client_id == old(self).client_id,
                self.is_authenticated == old(self).is_authenticated,
                self.selected_device == old(self).selected_device,
                self.next_stream_id == old(self).next_stream_id,
                forall|j: int| 0 <= j < i ==> self.active_streams@[j].local_id != id,
            decreases self.active_streams@.len() - i,
        {
            if self.active_streams[i].local_id == id {
                proof {
                    let s = self.active_streams@;
                    assert(exists|k: int| 0 <= k < s.len() && s[k].local_id == id) by {
                        assert(s[i as int].local_id == id);
                    }
                    let w = choose|k: int| 0 <= k < s.len() && s[k].local_id == id && forall|j: int| 0 <= j < k ==> s[j].local_id != id;
                    if w < i {
                        assert(s[w].local_id != id);
                    } else if w > i {
                        assert(s[i as int].local_id != id);
                    }
                }
                let _ = self.active_streams.remove(i);
                return;
            }
            i = i + 1;
        }
    }

    /// The answer to CNXN or AUTH: this server's CNXN; the client is then
    /// authenticated (authentication is not enforced).
    pub fn handle_connect(&mut self, message: &AdbMessage) -> (r: Vec<AdbMessage>)
        requires
            old(self).wf(),
        ensures
            final(self).wf(),
            final(self).is_authenticated,
            final(self).selected_device == old(self).selected_device,
            final(self).active_streams@ == old(self).active_streams@,
            final(self).next_stream_id == old(self).next_stream_id,
            messages_view(r@) == seq![built(CNXN, 0x01000000, 262144, server_identity())],
    {
        let identity: Vec<u8> = vec![100u8, 101, 118, 105, 99, 101, 58, 58, 0];
        let response = AdbMessage::new(CNXN, 0x01000000, 256 * 1024, identity);
        self.is_authenticated = true;
        let mut out: Vec<AdbMessage> = Vec::new();
        out.push(response);
        assert(messages_view(out@) =~= seq![built(CNXN, 0x01000000, 262144, server_identity())]);
        out
    }

    /// The messages of a host error on a stream, which is then forgotten.
    pub fn send_host_error(&mut self, local_id: u32, remote_id: u32, error_msg: &str) -> (r: Vec<AdbMessage>)
        requires
            old(self).wf(),
        ensures
            final(self).wf(),
            final(self).active_streams@ == without_stream(old(self).active_streams@, local_id),
            final(self).is_authenticated == old(self).is_authenticated,
            final(self).selected_device == old(self).selected_device,
            final(self).next_stream_id == old(self).next_stream_id,
            messages_view(r@) == host_error_messages(local_id, remote_id, error_msg@),
    {
        let fail = fail_response(error_msg);
        let mut out: Vec<AdbMessage> = Vec::new();
        out.push(AdbMessage::new_wrte(local_id, remote_id, fail));
        out.push(AdbMessage::new_clse(local_id, remote_id));
        self.remove_stream(local_id);
        assert(messages_view(out@) =~= host_error_messages(local_id, remote_id, error_msg@));
        out
    }

    /// Answers a host command on a stream: data is acknowledged, sent and
    /// the stream closed; an error is reported and the stream closed; a
    /// selected transport becomes the client's device and is
    /// acknowledged; a streaming answer is acknowledged and its first data
    /// sent, keeping the stream open; a kill is acknowledged.
    pub fn handle_host_response(&mut self, local_id: u32, remote_id: u32, response: HostCommandResponse) -> (r: Vec<AdbMessage>)
        requires
            old(self).wf(),
        ensures
            final(self).wf(),
            final(self).is_authenticated == old(self).is_authenticated,
            final(self).next_stream_id == old(self).next_stream_id,
            match response {
                HostCommandResponse::Data { data } => {
                    &&& messages_view(r@) == okay_then_data(local_id, remote_id, data@).push(built(CLSE, local_id, remote_id, Seq::empty()))
                    &&& final(self).active_streams@ == without_stream(old(self).active_streams@, local_id)
                    &&& final(self).selected_device == old(self).selected_device
                },
                HostCommandResponse::Error { message } => {
                    &&& messages_view(r@) == host_error_messages(local_id, remote_id, message@)
                    &&& final(self).active_streams@ == without_stream(old(self).active_streams@, local_id)
                    &&& final(self).selected_device == old(self).selected_device
                },
                HostCommandResponse::TransportSelected { device_id, .. } => {
                    &&& messages_view(r@) == seq![built(OKAY, local_id, remote_id, Seq::empty())]
                    &&& final(self).active_streams@ == old(self).active_streams@
                    &&& final(self).selected_device == Some(device_id)
                },
                HostCommandResponse::Streaming { initial_data } => {
                    &&& messages_view(r@) == okay_then_data(local_id, remote_id, initial_data@)
                    &&& final(self).active_streams@ == old(self).active_streams@
                    &&& final(self).selected_device == old(self).selected_device
                },
                HostCommandResponse::Kill => {
                    &&& messages_view(r@) == seq![built(OKAY, local_id, remote_id, Seq::empty())]
                    &&& final(self).active_streams@ == old(self).active_streams@
                    &&& final(self).selected_device == old(self).selected_device
                },
            },
    {
        let mut out: Vec<AdbMessage> = Vec::new();
        match response {
            HostCommandResponse::Data { data } => {
                out.push(AdbMessage::new_okay(local_id, remote_id));
                if data.len() > 0 {
                    out.push(AdbMessage::new_wrte(local_id, remote_id, data));
                }
                out.push(AdbMessage::new_clse(local_id, remote_id));
                self.remove_stream(local_id);
                proof {
                    assert(messages_view(out@) =~= okay_then_data(local_id, remote_id, data@).push(built(CLSE, local_id, remote_id, Seq::empty())));
                }
                out
            },
            HostCommandResponse::Error { message } => self.send_host_error(local_id, remote_id, message.as_str()),
            HostCommandResponse::TransportSelected { device_id, .. } => {
                self.selected_device = Some(device_id);
                out.push(AdbMessage::new_okay(local_id, remote_id));
                assert(messages_view(out@) =~= seq![built(OKAY, local_id, remote_id, Seq::empty())]);
                out
            },
            HostCommandResponse::Streaming { initial_data } => {
                out.push(AdbMessage::new_okay(local_id, remote_id));
                if initial_data.len() > 0 {
                    out.push(AdbMessage::new_wrte(local_id, remote_id, initial_data));
                }
                assert(messages_view(out@) =~= okay_then_data(local_id, remote_id, initial_data@));
                out
            },
            HostCommandResponse::Kill => {
                out.push(AdbMessage::new_okay(local_id, remote_id));
                assert(messages_view(out@) =~= seq![built(OKAY, local_id, remote_id, Seq::empty())]);
                out
            },
        }
    }

    /// Opens a stream the client asked for with OPEN: host services are
    /// handed to the host command processor; device services need a
    /// selected device and are acknowledged. Refused before the handshake.
    pub fn handle_open(&mut self, message: &AdbMessage) -> (r: Result<OpenOutcome, ClientError>)
        requires
            old(self).wf(),
            old(self).next_stream_id < u32::MAX,
        ensures
            final(self).wf(),
            final(self).is_authenticated == old(self).is_authenticated,
            final(self).selected_device == old(self).selected_device,
            !old(self).is_authenticated ==> r == Err::<OpenOutcome, ClientError>(ClientError::NotAuthenticated)
                && final(self).active_streams@ == old(self).active_streams@
                && final(self).next_stream_id == old(self).next_stream_id,
            old(self).is_authenticated ==> {
                let service = trim_nul_end(lossy_text(message@.data));
                let local = old(self).next_stream_id;
                let remote = message@.arg0;
                &&& final(self).next_stream_id == local + 1
                &&& if has_prefix(service, "host:"@) {
                    &&& r matches Ok(OpenOutcome::HostCommand { local_id, remote_id, service: sv })
                        && local_id == local && remote_id == remote && sv@ == service
                    &&& final(self).active_streams@.drop_last() == old(self).active_streams@
                    &&& final(self).active_streams@.len() == old(self).active_streams@.len() + 1
                    &&& final(self).active_streams@.last().local_id == local
                    &&& final(self).active_streams@.last().remote_id == remote
                    &&& final(self).active_streams@.last().service_name@ == service
                    &&& final(self).active_streams@.last().is_host_service
                } else if old(self).selected_device is None {
                    &&& r matches Ok(OpenOutcome::Reply(v)) && messages_view(v@) == host_error_messages(local, remote, "no device selected"@)
                    &&& final(self).active_streams@ == old(self).active_streams@
                } else {
                    &&& r matches Ok(OpenOutcome::Reply(v)) && messages_view(v@) == seq![built(OKAY, local, remote, Seq::empty())]
                    &&& final(self).active_streams@.drop_last() == old(self).active_streams@
                    &&& final(self).active_streams@.len() == old(self).active_streams@.len() + 1
                    &&& final(self).active_streams@.last().local_id == local
                    &&& final(self).active_streams@.last().remote_id == remote
                    &&& final(self).active_streams@.last().service_name@ == service
                    &&& !final(self).active_streams@.last().is_host_service
                }
            },
    {
        if !self.is_authenticated {
            return Err(ClientError::NotAuthenticated);
        }
        let remote_id = message.arg0;
        let text = utf8_lossy(message.data.as_slice());
        let service = trim_nul(text.as_str());
        let local_id = self.next_stream_id;
        self.next_stream_id = self.next_stream_id + 1;
        if starts_with(service.as_str(), "host:") {
            let name = to_owned_string(service.as_str());
            self.active_streams.push(StreamInfo { local_id, remote_id, service_name: service, is_host_service: true });
            return Ok(OpenOutcome::HostCommand { local_id, remote_id, service: name });
        }
        if self.selected_device.is_none() {
            proof {
                assert(stream_index(self.active_streams@, local_id) is None);
                assert(without_stream(self.active_streams@, local_id) == self.active_streams@);
            }
            let out = self.send_host_error(local_id, remote_id, "no device selected");
            return Ok(OpenOutcome::Reply(out));
        }
        self.active_streams.push(StreamInfo { local_id, remote_id, service_name: service, is_host_service: false });
        let mut out: Vec<AdbMessage> = Vec::new();
        out.push(AdbMessage::new_okay(local_id, remote_id));
        assert(messages_view(out@) =~= seq![built(OKAY, local_id, remote_id, Seq::empty())]);
        Ok(OpenOutcome::Reply(out))
    }

    /// The answer to WRTE: an acknowledgment for a known host stream, or
    /// for a known device stream while a device is selected; nothing for
    /// an unknown stream. The data itself goes nowhere yet.
    pub fn handle_write(&self, message: &AdbMessage) -> (r: Vec<AdbMessage>)
        ensures
            messages_view(r@) == match stream_index(self.active_streams@, message@.arg1) {
                Some(i) => if self.active_streams@[i].is_host_service || self.selected_device is Some {
                    seq![built(OKAY, message@.arg1, message@.arg0, Seq::empty())]
                } else {
                    Seq::empty()
                },
                None => Seq::empty(),
            },
    {
        let mut out: Vec<AdbMessage> = Vec::new();
        let ours = message.arg1;
        let mut i: usize = 0;
        while i < self.active_streams.len()
            invariant
                i <= self.active_streams@.len(),
                out@.len() == 0,
                ours == message@.arg1,
                forall|j: int| 0 <= j < i ==> self.active_streams@[j].local_id != ours,
            decreases self.active_streams@.len() - i,
        {
            if self.active_streams[i].local_id == ours {
                proof {
                    let st = self.active_streams@;
                    assert(exists|k: int| 0 <= k < st.len() && st[k].local_id == ours) by {
                        assert(st[i as int].local_id == ours);
                    }
                    let w = choose|k: int| 0 <= k < st.len() && st[k].local_id == ours && forall|j: int| 0 <= j < k ==> st[j].local_id != ours;
                    if w < i {
                        assert(st[w].local_id != ours);
                    } else if w > i {
                        assert(st[i as int].local_id != ours);
                    }
                }
                assert(stream_index(self.active_streams@, ours) == Some(i as int));
                let reply = self.active_streams[i].is_host_service || self.selected_device.is_some();
                assert(reply == (self.active_streams@[i as int].is_host_service || self.selected_device is Some));
                if reply {
                    out.push(AdbMessage::new_okay(message.arg1, message.arg0));
                    assert(messages_view(out@) =~= seq![built(OKAY, message@.arg1, message@.arg0, Seq::empty())]);
                } else {
                    assert(messages_view(out@) =~= Seq::<MessageModel>::empty());
                }
                return out;
            }
            i = i + 1;
        }
        assert(stream_index(self.active_streams@, ours) is None);
        assert(messages_view(out@) =~= Seq::<MessageModel>::empty());
        out
    }

    /// CLSE: the stream is forgotten.
    pub fn handle_close(&mut self, message: &AdbMessage)
        requires
            old(self).wf(),
        ensures
            final(self).wf(),
            final(self).active_streams@ == without_stream(old(self).active_streams@, message@.arg1),
            final(self).is_authenticated == old(self).is_authenticated,
            final(self).selected_device == old(self).selected_device,
            final(self).next_stream_id == old(self).next_stream_id,
    {
        self.remove_stream(message.arg1);
    }

    /// PING is answered by PONG with the arguments swapped and the same
    /// payload.
    pub fn handle_ping(&self, message: &AdbMessage) -> (r: Vec<AdbMessage>)
        ensures
            messages_view(r@) == seq![built(PONG, message@.arg1, message@.arg0, message@.data)],
    {
        let mut payload: Vec<u8> = Vec::new();
        crate::wire::append_all(&mut payload, message.data.as_slice());
        assert(payload@ =~= message@.data);
        let mut out: Vec<AdbMessage> = Vec::new();
        out.push(AdbMessage::new(PONG, message.arg1, message.arg0, payload));
        assert(messages_view(out@) =~= seq![built(PONG, message@.arg1, message@.arg0, message@.data)]);
        out
    }
}

/// `s` without its trailing NUL characters (as `trim_end_matches('\0')`).
pub fn trim_nul(s: &str) -> (r: String)
    ensures
        r@ == trim_nul_end(s@),
{
    let mut n = s.unicode_len();
    assert(s@.take(n as int) =~= s@);
    while n > 0 && s.get_char(n - 1) == '\0'
        invariant
            n <= s@.len(),
            trim_nul_end(s@) == trim_nul_end(s@.take(n as int)),
        decreases n,
    {
        proof {
            assert(s@.take(n as int).drop_last() =~= s@.take(n - 1));
        }
        n = n - 1;
    }
    proof {
        assert(s@.subrange(0, n as int) =~= s@.take(n as int));
    }
    to_owned_string(s.substring_char(0, n))
}

} // verus!
