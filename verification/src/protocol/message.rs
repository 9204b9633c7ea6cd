use vstd::prelude::*;
use crate::wire::{le32, push_le32, get_le32, read_le32, lemma_le32_roundtrip};
use crate::protocol::crc::{calculate_crc32, crc32_of};
use crate::protocol::constants::{CNXN, OPEN, OKAY, WRTE, CLSE, AUTH, PING, PONG};

verus! {

/// Size of the fixed message header: six little-endian 32-bit fields.
pub const HEADER_SIZE: usize = 24;

/// One message of the wire protocol: a 24-byte header followed by `data`.
#[derive(Debug, PartialEq, Eq)]
pub struct AdbMessage {
    pub command: u32,
    pub arg0: u32,
    pub arg1: u32,
    pub data_length: u32,
    pub data_crc32: u32,
    pub magic: u32,
    pub data: Vec<u8>,
}

impl Clone for AdbMessage {
    fn clone(&self) -> (r: Self)
        ensures
            r@ == self@,
    {
        let data = self.data.clone();
        proof {
            assert(data@ =~= self.data@);
        }
        AdbMessage {
            command: self.command,
            arg0: self.arg0,
            arg1: self.arg1,
            data_length: self.data_length,
            data_crc32: self.data_crc32,
            magic: self.magic,
            data,
        }
    }
}

/// Why a byte sequence is not a message.
#[derive(Debug, Clone, Copy, PartialEq, Eq, Structural)]
pub enum MessageError {
    /// Shorter than a header.
    InvalidFormat,
    /// The magic field is not the complement of the command.
    InvalidMagic,
    /// The payload length differs from the header's length field.
    DataLengthMismatch,
}

/// The header bytes of a message with the given fields.
pub open spec fn header_bytes(
    command: u32,
    arg0: u32,
    arg1: u32,
    data_length: u32,
    data_crc32: u32,
    magic: u32,
) -> Seq<u8> {
    le32(command) + le32(arg0) + le32(arg1) + le32(data_length) + le32(data_crc32) + le32(magic)
}

/// The message fields, as a value the contracts compare.
pub struct MessageModel {
    pub command: u32,
    pub arg0: u32,
    pub arg1: u32,
    pub data_length: u32,
    pub data_crc32: u32,
    pub magic: u32,
    pub data: Seq<u8>,
}

impl View for AdbMessage {
    type V = MessageModel;

    open spec fn view(&self) -> MessageModel {
        MessageModel {
            command: self.command,
            arg0: self.arg0,
            arg1: self.arg1,
            data_length: self.data_length,
            data_crc32: self.data_crc32,
            magic: self.magic,
            data: self.data@,
        }
    }
}

/// The wire encoding of a message.
pub open spec fn spec_serialize(m: MessageModel) -> Seq<u8> {
    header_bytes(m.command, m.arg0, m.arg1, m.data_length, m.data_crc32, m.magic) + m.data
}

/// What decoding a byte sequence gives: the fields of the header and the rest
/// as payload, or the error the decoder reports.
pub open spec fn spec_deserialize(d: Seq<u8>) -> Result<MessageModel, MessageError> {
    if d.len() < HEADER_SIZE {
        Err(MessageError::InvalidFormat)
    } else if read_le32(d, 20) != !read_le32(d, 0) {
        Err(MessageError::InvalidMagic)
    } else if d.len() - HEADER_SIZE != read_le32(d, 12) {
        Err(MessageError::DataLengthMismatch)
    } else {
        Ok(
            MessageModel {
                command: read_le32(d, 0),
                arg0: read_le32(d, 4),
                arg1: read_le32(d, 8),
                data_length: read_le32(d, 12),
                data_crc32: read_le32(d, 16),
                magic: read_le32(d, 20),
                data: d.subrange(HEADER_SIZE as int, d.len() as int),
            },
        )
    }
}

/// A message whose header agrees with its payload: the magic is the
/// complement of the command and the length field is the payload's length.
pub open spec fn well_formed(m: MessageModel) -> bool {
    &&& m.magic == !m.command
    &&& m.data_length == m.data.len()
}

/// The fields of a message built from a command, two arguments and a payload.
pub open spec fn built(command: u32, arg0: u32, arg1: u32, data: Seq<u8>) -> MessageModel {
    MessageModel {
        command,
        arg0,
        arg1,
        data_length: data.len() as u32,
        data_crc32: crc32_of(data),
        magic: !command,
        data,
    }
}

impl AdbMessage {
    /// A message with the given command, arguments and payload; the length,
    /// checksum and magic fields are computed.
    pub fn new(command: u32, arg0: u32, arg1: u32, data: Vec<u8>) -> (m: Self)
        ensures
            m@ == built(command, arg0, arg1, data@),
    {
        let data_length = #[verifier::truncate] (data.len() as u32);
        let data_crc32 = calculate_crc32(data.as_slice());
        AdbMessage { command, arg0, arg1, data_length, data_crc32, magic: !command, data }
    }

    /// CNXN announcing `version`, the largest payload `maxdata` and the
    /// sender's identity.
    pub fn new_cnxn(version: u32, maxdata: u32, system_identity: Vec<u8>) -> (m: Self)
        ensures
            m@ == built(CNXN, version, maxdata, system_identity@),
    {
        Self::new(CNXN, version, maxdata, system_identity)
    }

    /// OPEN of the service named by `destination` from stream `local_id`.
    pub fn new_open(local_id: u32, destination: Vec<u8>) -> (m: Self)
        ensures
            m@ == built(OPEN, local_id, 0, destination@),
    {
        Self::new(OPEN, local_id, 0, destination)
    }

    /// OKAY acknowledging the stream pair.
    pub fn new_okay(local_id: u32, remote_id: u32) -> (m: Self)
        ensures
            m@ == built(OKAY, local_id, remote_id, Seq::empty()),
    {
        Self::new(OKAY, local_id, remote_id, Vec::new())
    }

    /// WRTE carrying `data` on the stream pair.
    pub fn new_wrte(local_id: u32, remote_id: u32, data: Vec<u8>) -> (m: Self)
        ensures
            m@ == built(WRTE, local_id, remote_id, data@),
    {
        Self::new(WRTE, local_id, remote_id, data)
    }

    /// CLSE of the stream pair.
    pub fn new_clse(local_id: u32, remote_id: u32) -> (m: Self)
        ensures
            m@ == built(CLSE, local_id, remote_id, Seq::empty()),
    {
        Self::new(CLSE, local_id, remote_id, Vec::new())
    }

    /// AUTH of the given type carrying `data`.
    pub fn new_auth(auth_type: u32, data: Vec<u8>) -> (m: Self)
        ensures
            m@ == built(AUTH, auth_type, 0, data@),
    {
        Self::new(AUTH, auth_type, 0, data)
    }

    /// PING with both arguments 0.
    pub fn new_ping() -> (m: Self)
        ensures
            m@ == built(PING, 0, 0, Seq::empty()),
    {
        Self::new(PING, 0, 0, Vec::new())
    }

    /// PONG with both arguments 0.
    pub fn new_pong() -> (m: Self)
        ensures
            m@ == built(PONG, 0, 0, Seq::empty()),
    {
        Self::new(PONG, 0, 0, Vec::new())
    }

    /// The wire encoding: the six header fields in little-endian order, then
    /// the payload.
    pub fn serialize(&self) -> (r: Vec<u8>)
        ensures
            r@ == spec_serialize(self@),
    {
        let mut out: Vec<u8> = Vec::new();
        push_le32(&mut out, self.command);
        push_le32(&mut out, self.arg0);
        push_le32(&mut out, self.arg1);
        push_le32(&mut out, self.data_length);
        push_le32(&mut out, self.data_crc32);
        push_le32(&mut out, self.magic);
        let mut i: usize = 0;
        while i < self.data.len()
            invariant
                i <= self.data@.len(),
                out@ == header_bytes(
                    self.command,
                    self.arg0,
                    self.arg1,
                    self.data_length,
                    self.data_crc32,
                    self.magic,
                ) + self.data@.take(i as int),
            decreases self.data@.len() - i,
        {
            out.push(self.data[i]);
            proof {
                assert(self.data@.take(i + 1) =~= self.data@.take(i as int).push(self.data@[i as int]));
            }
            i = i + 1;
        }
        proof {
            assert(self.data@.take(self.data@.len() as int) =~= self.data@);
        }
        out
    }

    /// Decodes one complete message: `data` must hold exactly a header and
    /// the payload that the header announces.
    pub fn deserialize(data: &[u8]) -> (r: Result<Self, MessageError>)
        ensures
            match (r, spec_deserialize(data@)) {
                (Ok(m), Ok(s)) => m@ == s,
                (Err(e), Err(f)) => e == f,
                _ => false,
            },
    {
        if data.len() < HEADER_SIZE {
            return Err(MessageError::InvalidFormat);
        }
        let command = get_le32(data, 0);
        let arg0 = get_le32(data, 4);
        let arg1 = get_le32(data, 8);
        let data_length = get_le32(data, 12);
        let data_crc32 = get_le32(data, 16);
        let magic = get_le32(data, 20);
        if magic != !command {
            return Err(MessageError::InvalidMagic);
        }
        if (data.len() - HEADER_SIZE) as u64 != data_length as u64 {
            return Err(MessageError::DataLengthMismatch);
        }
        let mut payload: Vec<u8> = Vec::new();
        let mut i: usize = HEADER_SIZE;
        while i < data.len()
            invariant
                HEADER_SIZE <= i <= data@.len(),
                payload@ == data@.subrange(HEADER_SIZE as int, i as int),
            decreases data@.len() - i,
        {
            payload.push(data[i]);
            proof {
                assert(data@.subrange(HEADER_SIZE as int, i + 1) =~= data@.subrange(
                    HEADER_SIZE as int,
                    i as int,
                ).push(data@[i as int]));
            }
            i = i + 1;
        }
        Ok(AdbMessage { command, arg0, arg1, data_length, data_crc32, magic, data: payload })
    }

    /// Whether the magic field is the complement of the command.
    pub fn is_valid_magic(&self) -> (r: bool)
        ensures
            r == (self.magic == !self.command),
    {
        self.magic == !self.command
    }

    /// Whether the header agrees with the payload: valid magic, length field
    /// equal to the payload's length and checksum field equal to its CRC32.
    pub fn is_valid(&self) -> (r: bool)
        ensures
            r == (well_formed(self@) && self.data_crc32 == crc32_of(self.data@)),
    {
        if !self.is_valid_magic() {
            return false;
        }
        if self.data.len() as u64 != self.data_length as u64 {
            return false;
        }
        calculate_crc32(self.data.as_slice()) == self.data_crc32
    }

    /// The number of bytes of the wire encoding.
    pub fn total_size(&self) -> (r: usize)
        requires
            self.data@.len() + HEADER_SIZE <= usize::MAX,
        ensures
            r == spec_serialize(self@).len(),
    {
        HEADER_SIZE + self.data.len()
    }
}

/// Reading back the bytes of a header written for a well-formed message
/// gives the message back.
pub proof fn lemma_serialize_deserialize(m: MessageModel)
    requires
        well_formed(m),
    ensures
        spec_deserialize(spec_serialize(m)) == Ok::<MessageModel, MessageError>(m),
{
    let d = spec_serialize(m);
    lemma_le32_roundtrip(m.command);
    lemma_le32_roundtrip(m.arg0);
    lemma_le32_roundtrip(m.arg1);
    lemma_le32_roundtrip(m.data_length);
    lemma_le32_roundtrip(m.data_crc32);
    lemma_le32_roundtrip(m.magic);
    assert(read_le32(d, 0) == m.command);
    assert(read_le32(d, 4) == m.arg0);
    assert(read_le32(d, 8) == m.arg1);
    assert(read_le32(d, 12) == m.data_length);
    assert(read_le32(d, 16) == m.data_crc32);
    assert(read_le32(d, 20) == m.magic);
    assert(d.subrange(HEADER_SIZE as int, d.len() as int) =~= m.data);
}

/// Every message the constructors build is well-formed.
pub proof fn lemma_built_well_formed(command: u32, arg0: u32, arg1: u32, data: Seq<u8>)
    requires
        data.len() <= u32::MAX,
    ensures
        well_formed(built(command, arg0, arg1, data)),
{
}

/// Decoding and re-encoding a byte sequence that decodes gives the sequence
/// back.
pub proof fn lemma_deserialize_serialize(d: Seq<u8>)
    requires
        spec_deserialize(d) is Ok,
    ensures
        spec_serialize(spec_deserialize(d)->Ok_0) =~= d,
{
    let m = spec_deserialize(d)->Ok_0;
    lemma_le32_bytes(d, 0);
    lemma_le32_bytes(d, 4);
    lemma_le32_bytes(d, 8);
    lemma_le32_bytes(d, 12);
    lemma_le32_bytes(d, 16);
    lemma_le32_bytes(d, 20);
    assert(spec_serialize(m) =~= d);
}

proof fn lemma_le32_bytes(d: Seq<u8>, at: int)
    requires
        0 <= at,
        at + 4 <= d.len(),
    ensures
        le32(read_le32(d, at)) == d.subrange(at, at + 4),
{
    let b0 = d[at];
    let b1 = d[at + 1];
    let b2 = d[at + 2];
    let b3 = d[at + 3];
    let v = read_le32(d, at);
    assert(v == ((b0 as u32) | ((b1 as u32) << 8u32) | ((b2 as u32) << 16u32) | ((b3 as u32)
        << 24u32)));
    assert((v & 0xff) as u8 == b0 && ((v >> 8u32) & 0xff) as u8 == b1 && ((v >> 16u32) & 0xff)
        as u8 == b2 && ((v >> 24u32) & 0xff) as u8 == b3) by (bit_vector)
        requires
            v == ((b0 as u32) | ((b1 as u32) << 8u32) | ((b2 as u32) << 16u32) | ((b3 as u32)
                << 24u32)),
    ;
    assert(le32(v) =~= d.subrange(at, at + 4));
}

} // verus!
