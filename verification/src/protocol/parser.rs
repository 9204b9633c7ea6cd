use vstd::prelude::*;
use crate::buffer::{bytes_mut_view, bytes_mut_new, bytes_mut_extend, bytes_mut_len, bytes_mut_clear, bytes_mut_split_to, bytes_mut_prefix};
use crate::protocol::commands::AdbCommand;
use crate::protocol::constants::MAXDATA;
use crate::protocol::message::{AdbMessage, MessageModel, MessageError, HEADER_SIZE, spec_deserialize};
use crate::wire::{get_le32, read_le32};

verus! {

/// Why incoming bytes could not be parsed.
#[derive(Debug, Clone, Copy, PartialEq, Eq, Structural)]
pub enum ParseError {
    /// A header slice of the wrong size.
    InvalidHeaderSize { expected: usize, actual: usize },
    /// The header announces more payload than the protocol allows.
    PayloadTooLarge { size: usize, max: usize },
    /// Fewer bytes than a header.
    TooShort { len: usize, min: usize },
    /// The command field is not a known command.
    InvalidCommand(u32),
    /// The magic field is not the complement of the command.
    InvalidMagic { expected: u32, actual: u32 },
    /// The bytes of a complete message do not decode.
    Message(MessageError),
}

/// Accumulates bytes from a connection and cuts them into messages.
pub struct MessageParser {
    buffer: bytes::BytesMut,
    expected_header_size: usize,
    expected_payload_size: Option<usize>,
}

/// What one parse attempt does to the buffered bytes and the remembered
/// payload size, and what it returns.
pub open spec fn spec_try_parse(buf: Seq<u8>, expected: Option<usize>) -> (
    Seq<u8>,
    Option<usize>,
    Result<Option<MessageModel>, ParseError>,
) {
    if buf.len() < HEADER_SIZE {
        (buf, expected, Ok(None))
    } else {
        let size: Result<usize, ParseError> = match expected {
            Some(p) => Ok(p),
            None => {
                let len = read_le32(buf, 12);
                if len > MAXDATA {
                    Err(ParseError::PayloadTooLarge { size: len as usize, max: MAXDATA })
                } else {
                    Ok(len as usize)
                }
            },
        };
        match size {
            Err(e) => (buf, expected, Err(e)),
            Ok(p) => {
                let total = HEADER_SIZE + p;
                if buf.len() < total {
                    (buf, Some(p), Ok(None))
                } else {
                    let rest = buf.skip(total);
                    match spec_deserialize(buf.take(total)) {
                        Ok(m) => (rest, None, Ok(Some(m))),
                        Err(e) => (rest, Some(p), Err(ParseError::Message(e))),
                    }
                }
            },
        }
    }
}

impl MessageParser {
    /// The bytes received and not yet cut into messages.
    pub closed spec fn buffered(&self) -> Seq<u8> {
        bytes_mut_view(self.buffer)
    }

    /// The payload size read from the header at the front of the buffer,
    /// once it has been read.
    pub closed spec fn expected(&self) -> Option<usize> {
        self.expected_payload_size
    }

    pub closed spec fn wf(&self) -> bool {
        &&& self.expected_header_size == HEADER_SIZE
        &&& self.expected_payload_size matches Some(p) ==> p <= MAXDATA
    }

    pub fn new() -> (p: Self)
        ensures
            p.wf(),
            p.buffered() == Seq::<u8>::empty(),
            p.expected() is None,
    {
        MessageParser {
            buffer: bytes_mut_new(),
            expected_header_size: HEADER_SIZE,
            expected_payload_size: None,
        }
    }

    /// Adds incoming bytes to the buffer.
    pub fn feed_data(&mut self, data: &[u8])
        requires
            old(self).wf(),
        ensures
            final(self).wf(),
            final(self).buffered() == old(self).buffered() + data@,
            final(self).expected() == old(self).expected(),
    {
        bytes_mut_extend(&mut self.buffer, data);
    }

    /// Cuts the next complete message off the front of the buffer. Returns
    /// `None` while the header or payload is incomplete; refuses a header
    /// that announces more than the largest payload; a complete message whose
    /// bytes do not decode is consumed and reported.
    pub fn try_parse_message(&mut self) -> (r: Result<Option<AdbMessage>, ParseError>)
        requires
            old(self).wf(),
        ensures
            final(self).wf(),
            final(self).buffered() == spec_try_parse(old(self).buffered(), old(self).expected()).0,
            final(self).expected() == spec_try_parse(old(self).buffered(), old(self).expected()).1,
            match (r, spec_try_parse(old(self).buffered(), old(self).expected()).2) {
                (Ok(Some(a)), Ok(Some(b))) => a@ == b,
                (Ok(None), Ok(None)) => true,
                (Err(a), Err(b)) => a == b,
                _ => false,
            },
    {
        let len = bytes_mut_len(&self.buffer);
        if len < self.expected_header_size {
            return Ok(None);
        }
        let payload_size = match self.expected_payload_size {
            Some(p) => p,
            None => {
                let header = bytes_mut_prefix(&self.buffer, HEADER_SIZE);
                let p = match self.extract_payload_size(header.as_slice()) {
                    Ok(p) => p,
                    Err(e) => return Err(e),
                };
                self.expected_payload_size = Some(p);
                p
            },
        };
        let total_message_size = HEADER_SIZE + payload_size;
        if len < total_message_size {
            return Ok(None);
        }
        let message_data = bytes_mut_split_to(&mut self.buffer, total_message_size);
        let message = match AdbMessage::deserialize(message_data.as_slice()) {
            Ok(m) => m,
            Err(e) => return Err(ParseError::Message(e)),
        };
        self.expected_payload_size = None;
        Ok(Some(message))
    }

    /// The payload length field of a header, refused above the largest
    /// payload.
    fn extract_payload_size(&self, header_data: &[u8]) -> (r: Result<usize, ParseError>)
        requires
            header_data@.len() == HEADER_SIZE,
        ensures
            read_le32(header_data@, 12) > MAXDATA ==> r == Err::<usize, ParseError>(
                ParseError::PayloadTooLarge { size: read_le32(header_data@, 12) as usize, max: MAXDATA },
            ),
            read_le32(header_data@, 12) <= MAXDATA ==> r == Ok::<usize, ParseError>(
                read_le32(header_data@, 12) as usize,
            ),
    {
        let data_length = get_le32(header_data, 12) as usize;
        if data_length > MAXDATA {
            return Err(ParseError::PayloadTooLarge { size: data_length, max: MAXDATA });
        }
        Ok(data_length)
    }

    /// The number of bytes buffered.
    pub fn buffer_size(&self) -> (r: usize)
        ensures
            r == self.buffered().len(),
    {
        bytes_mut_len(&self.buffer)
    }

    /// Drops everything buffered (for error recovery).
    pub fn clear_buffer(&mut self)
        requires
            old(self).wf(),
        ensures
            final(self).wf(),
            final(self).buffered() == Seq::<u8>::empty(),
            final(self).expected() is None,
    {
        bytes_mut_clear(&mut self.buffer);
        self.expected_payload_size = None;
    }

    /// Whether no header has been read ahead of its payload.
    pub fn is_ready_for_next_message(&self) -> (r: bool)
        ensures
            r == (self.expected() is None),
    {
        self.expected_payload_size.is_none()
    }

    /// The command at the front of the buffer, without consuming it.
    pub fn peek_next_command(&self) -> (r: Result<Option<AdbCommand>, ParseError>)
        ensures
            self.buffered().len() < 4 ==> r == Ok::<Option<AdbCommand>, ParseError>(None),
            self.buffered().len() >= 4 ==> match AdbCommand::spec_from_code(read_le32(self.buffered(), 0)) {
                Some(c) => r == Ok::<Option<AdbCommand>, ParseError>(Some(c)),
                None => r == Err::<Option<AdbCommand>, ParseError>(
                    ParseError::InvalidCommand(read_le32(self.buffered(), 0)),
                ),
            },
    {
        if bytes_mut_len(&self.buffer) < 4 {
            return Ok(None);
        }
        let head = bytes_mut_prefix(&self.buffer, 4);
        let command_value = get_le32(head.as_slice(), 0);
        match AdbCommand::from_u32(command_value) {
            Some(command) => Ok(Some(command)),
            None => Err(ParseError::InvalidCommand(command_value)),
        }
    }
}

impl Default for MessageParser {
    fn default() -> (p: Self)
        ensures
            p.wf(),
            p.buffered() == Seq::<u8>::empty(),
            p.expected() is None,
    {
        Self::new()
    }
}

/// Statistics about the parser.
#[derive(Debug, Clone, Copy, PartialEq, Eq, Structural)]
pub struct ParserStats {
    pub buffer_size: usize,
    pub is_ready: bool,
    pub messages_parsed: usize,
}

/// Parses a continuous byte stream into messages.
pub struct StreamParser {
    parser: MessageParser,
    messages: Vec<AdbMessage>,
}

/// Repeated parse attempts until one gives no message: the buffer, the
/// remembered size, the messages and whether an error stopped it.
pub open spec fn spec_parse_all(buf: Seq<u8>, expected: Option<usize>) -> (
    Seq<u8>,
    Option<usize>,
    Seq<MessageModel>,
    Option<ParseError>,
)
    decreases buf.len(),
{
    let (b2, e2, r) = spec_try_parse(buf, expected);
    match r {
        Ok(Some(m)) => if b2.len() < buf.len() {
            let (b3, e3, ms, err) = spec_parse_all(b2, e2);
            (b3, e3, seq![m] + ms, err)
        } else {
            (b2, e2, seq![m], None)
        },
        Ok(None) => (b2, e2, Seq::empty(), None),
        Err(e) => (b2, e2, Seq::empty(), Some(e)),
    }
}

impl StreamParser {
    pub closed spec fn parser(&self) -> &MessageParser {
        &self.parser
    }

    /// The messages of the last call to `process_data`.
    pub closed spec fn last_messages(&self) -> Seq<MessageModel> {
        self.messages@.map_values(|m: AdbMessage| m@)
    }

    pub closed spec fn wf(&self) -> bool {
        self.parser.wf()
    }

    pub fn new() -> (p: Self)
        ensures
            p.wf(),
            p.parser().buffered() == Seq::<u8>::empty(),
            p.parser().expected() is None,
            p.last_messages() == Seq::<MessageModel>::empty(),
    {
        let p = StreamParser { parser: MessageParser::new(), messages: Vec::new() };
        assert(p.last_messages() =~= Seq::<MessageModel>::empty());
        p
    }

    /// Buffers `data` and returns every complete message that can then be
    /// cut off, in order; stops at the first error and reports it.
    pub fn process_data(&mut self, data: &[u8]) -> (r: Result<Vec<AdbMessage>, ParseError>)
        requires
            old(self).wf(),
        ensures
            final(self).wf(),
            ({
                let (b, e, ms, err) = spec_parse_all(
                    old(self).parser().buffered() + data@,
                    old(self).parser().expected(),
                );
                &&& final(self).parser().buffered() == b
                &&& final(self).parser().expected() == e
                &&& final(self).last_messages() == ms
                &&& match (r, err) {
                    (Ok(v), None) => v@.map_values(|m: AdbMessage| m@) == ms,
                    (Err(x), Some(y)) => x == y,
                    _ => false,
                }
            }),
    {
        self.parser.feed_data(data);
        self.messages.clear();
        let ghost start_buf = self.parser.buffered();
        let ghost start_exp = self.parser.expected();
        assert(self.messages@.map_values(|m: AdbMessage| m@) =~= Seq::<MessageModel>::empty());
        assert(Seq::<MessageModel>::empty() + spec_parse_all(start_buf, start_exp).2 =~= spec_parse_all(start_buf, start_exp).2);
        loop
            invariant
                self.parser.wf(),
                start_buf == old(self).parser().buffered() + data@,
                start_exp == old(self).parser().expected(),
                ({
                    let (b, e, ms, err) = spec_parse_all(start_buf, start_exp);
                    let (b1, e1, ms1, err1) = spec_parse_all(self.parser.buffered(), self.parser.expected());
                    &&& b == b1
                    &&& e == e1
                    &&& err == err1
                    &&& ms == self.messages@.map_values(|m: AdbMessage| m@) + ms1
                }),
            decreases self.parser.buffered().len(),
        {
            let ghost before = self.parser.buffered();
            let ghost before_e = self.parser.expected();
            let ghost old_msgs = self.messages@.map_values(|m: AdbMessage| m@);
            match self.parser.try_parse_message() {
                Ok(Some(message)) => {
                    let ghost mv = message@;
                    proof {
                        let (b2, e2, _r) = spec_try_parse(before, before_e);
                        assert(b2.len() < before.len());
                        assert(spec_parse_all(before, before_e) == {
                            let (b3, e3, ms3, err3) = spec_parse_all(b2, e2);
                            (b3, e3, seq![mv] + ms3, err3)
                        });
                    }
                    self.messages.push(message);
                    proof {
                        assert(self.messages@.map_values(|m: AdbMessage| m@) =~= old_msgs.push(mv));
                        let (b3, e3, ms3, err3) = spec_parse_all(self.parser.buffered(), self.parser.expected());
                        assert(old_msgs + (seq![mv] + ms3) =~= old_msgs.push(mv) + ms3);
                    }
                },
                Ok(None) => {
                    proof {
                        assert(old_msgs + Seq::<MessageModel>::empty() =~= old_msgs);
                        assert(spec_parse_all(before, before_e) == (self.parser.buffered(), self.parser.expected(), Seq::<MessageModel>::empty(), None::<ParseError>));
                    }
                    let out = self.clone_messages();
                    return Ok(out);
                },
                Err(e) => {
                    proof {
                        assert(old_msgs + Seq::<MessageModel>::empty() =~= old_msgs);
                        assert(spec_parse_all(before, before_e) == (self.parser.buffered(), self.parser.expected(), Seq::<MessageModel>::empty(), Some(e)));
                    }
                    return Err(e);
                },
            }
        }
    }

    fn clone_messages(&self) -> (r: Vec<AdbMessage>)
        ensures
            r@.map_values(|m: AdbMessage| m@) == self.messages@.map_values(|m: AdbMessage| m@),
    {
        let mut out: Vec<AdbMessage> = Vec::new();
        let mut i: usize = 0;
        while i < self.messages.len()
            invariant
                i <= self.messages@.len(),
                out@.map_values(|m: AdbMessage| m@) == self.messages@.take(i as int).map_values(
                    |m: AdbMessage| m@,
                ),
            decreases self.messages@.len() - i,
        {
            let m = self.messages[i].clone();
            out.push(m);
            proof {
                assert(self.messages@.take(i + 1).map_values(|m: AdbMessage| m@) =~= self.messages@.take(
                    i as int,
                ).map_values(|m: AdbMessage| m@).push(self.messages@[i as int]@));
                assert(out@.map_values(|m: AdbMessage| m@) =~= self.messages@.take(i + 1).map_values(
                    |m: AdbMessage| m@,
                ));
            }
            i = i + 1;
        }
        assert(self.messages@.take(self.messages@.len() as int) =~= self.messages@);
        out
    }

    /// Buffer size, readiness and the number of messages of the last call.
    pub fn get_stats(&self) -> (s: ParserStats)
        ensures
            s.buffer_size == self.parser().buffered().len(),
            s.is_ready == (self.parser().expected() is None),
            s.messages_parsed == self.last_messages().len(),
    {
        ParserStats {
            buffer_size: self.parser.buffer_size(),
            is_ready: self.parser.is_ready_for_next_message(),
            messages_parsed: self.messages.len(),
        }
    }
}

impl Default for StreamParser {
    fn default() -> (p: Self)
        ensures
            p.wf(),
            p.parser().buffered() == Seq::<u8>::empty(),
            p.parser().expected() is None,
            p.last_messages() == Seq::<MessageModel>::empty(),
    {
        Self::new()
    }
}

/// Parses one complete message held in `data`.
pub fn parse_single_message(data: &[u8]) -> (r: Result<AdbMessage, ParseError>)
    ensures
        data@.len() < HEADER_SIZE ==> r == Err::<AdbMessage, ParseError>(
            ParseError::TooShort { len: data@.len() as usize, min: HEADER_SIZE },
        ),
        data@.len() >= HEADER_SIZE ==> match (r, spec_deserialize(data@)) {
            (Ok(a), Ok(b)) => a@ == b,
            (Err(a), Err(b)) => a == ParseError::Message(b),
            _ => false,
        },
{
    if data.len() < HEADER_SIZE {
        return Err(ParseError::TooShort { len: data.len(), min: HEADER_SIZE });
    }
    match AdbMessage::deserialize(data) {
        Ok(m) => Ok(m),
        Err(e) => Err(ParseError::Message(e)),
    }
}

/// What checking a header gives.
pub open spec fn spec_validate_header(h: Seq<u8>) -> Result<(AdbCommand, u32, u32, u32), ParseError> {
    if h.len() != HEADER_SIZE {
        Err(ParseError::InvalidHeaderSize { expected: HEADER_SIZE, actual: h.len() as usize })
    } else {
        match AdbCommand::spec_from_code(read_le32(h, 0)) {
            None => Err(ParseError::InvalidCommand(read_le32(h, 0))),
            Some(c) => if read_le32(h, 20) != !read_le32(h, 0) {
                Err(ParseError::InvalidMagic { expected: !read_le32(h, 0), actual: read_le32(h, 20) })
            } else {
                Ok((c, read_le32(h, 4), read_le32(h, 8), read_le32(h, 12)))
            },
        }
    }
}

/// Checks a header without its payload: its size, a known command and the
/// magic; returns the command, both arguments and the payload length.
pub fn validate_header(header: &[u8]) -> (r: Result<(AdbCommand, u32, u32, u32), ParseError>)
    ensures
        r == spec_validate_header(header@),
{
    if header.len() != HEADER_SIZE {
        return Err(ParseError::InvalidHeaderSize { expected: HEADER_SIZE, actual: header.len() });
    }
    let command_value = get_le32(header, 0);
    let arg0 = get_le32(header, 4);
    let arg1 = get_le32(header, 8);
    let data_length = get_le32(header, 12);
    let actual_magic = get_le32(header, 20);
    let command = match AdbCommand::from_u32(command_value) {
        Some(c) => c,
        None => return Err(ParseError::InvalidCommand(command_value)),
    };
    let expected_magic = !command_value;
    if actual_magic != expected_magic {
        return Err(ParseError::InvalidMagic { expected: expected_magic, actual: actual_magic });
    }
    Ok((command, arg0, arg1, data_length))
}

/// The size of the whole message a header announces.
pub fn calculate_message_size(header: &[u8]) -> (r: Result<usize, ParseError>)
    requires
        header@.len() == HEADER_SIZE ==> read_le32(header@, 12) + HEADER_SIZE <= usize::MAX,
    ensures
        match spec_validate_header(header@) {
            Ok((_, _, _, len)) => r == Ok::<usize, ParseError>((HEADER_SIZE + len) as usize),
            Err(e) => r == Err::<usize, ParseError>(e),
        },
{
    let (_, _, _, data_length) = match validate_header(header) {
        Ok(v) => v,
        Err(e) => return Err(e),
    };
    Ok(HEADER_SIZE + data_length as usize)
}

/// A parser fed the encoding of a well-formed message, with nothing else
/// buffered, hands back that message and is left empty.
pub proof fn lemma_parse_serialized(m: MessageModel)
    requires
        crate::protocol::message::well_formed(m),
        m.data.len() <= MAXDATA,
    ensures
        spec_try_parse(crate::protocol::message::spec_serialize(m), None) == (
            Seq::<u8>::empty(),
            None::<usize>,
            Ok::<Option<MessageModel>, ParseError>(Some(m)),
        ),
{
    let d = crate::protocol::message::spec_serialize(m);
    crate::protocol::message::lemma_serialize_deserialize(m);
    assert(read_le32(d, 12) == m.data_length) by {
        crate::wire::lemma_le32_roundtrip(m.data_length);
    }
    assert(d.take(d.len() as int) =~= d);
    assert(d.skip(d.len() as int) =~= Seq::<u8>::empty());
}


/// A message that arrives in two parts is parsed once the second part is
/// there: the first part alone gives nothing, and the parser state it
/// leaves, fed the rest, gives the message and is left empty.
pub proof fn lemma_parse_split_delivery(m: MessageModel, k: int)
    requires
        crate::protocol::message::well_formed(m),
        m.data.len() <= MAXDATA,
        0 <= k < crate::protocol::message::spec_serialize(m).len(),
    ensures
        ({
            let d = crate::protocol::message::spec_serialize(m);
            let first = spec_try_parse(d.take(k), None);
            &&& first.0 == d.take(k)
            &&& first.2 == Ok::<Option<MessageModel>, ParseError>(None)
            &&& spec_try_parse(first.0 + d.skip(k), first.1) == (
                Seq::<u8>::empty(),
                None::<usize>,
                Ok::<Option<MessageModel>, ParseError>(Some(m)),
            )
        }),
{
    let d = crate::protocol::message::spec_serialize(m);
    lemma_parse_serialized(m);
    crate::protocol::message::lemma_serialize_deserialize(m);
    assert(read_le32(d, 12) == m.data_length) by {
        crate::wire::lemma_le32_roundtrip(m.data_length);
    }
    assert(d.take(k) + d.skip(k) =~= d);
    if k >= HEADER_SIZE {
        let a = d.take(k);
        assert(read_le32(a, 12) == read_le32(d, 12));
        assert(d.take(d.len() as int) =~= d);
        assert(d.skip(d.len() as int) =~= Seq::<u8>::empty());
    }
}
} // verus!
