use vstd::prelude::*;
use vstd::string::StringSliceAdditionalSpecFns;
use crate::hex::{hex_padded, hex_fixed, parse_hex, push_hex, parse_hex_bytes, lemma_hex_fixed_value, lemma_hex_len_bound, pow16};
use crate::wire::{append_all, append_range, copy_range, bytes4_at};

verus! {

/// I/O errors of the underlying stream, carried through unchanged.
#[verifier::external_type_specification]
#[verifier::external_body]
pub struct ExIoError(std::io::Error);

/// Errors of the length-prefixed ASCII client protocol.
#[derive(Debug)]
pub enum AsciiProtocolError {
    InvalidFormat,
    InvalidLength,
    InvalidStrmFormat,
    Io(std::io::Error),
}

/// The kinds of protocol error, as a value the contracts compare.
pub enum AsciiErrorKind {
    InvalidFormat,
    InvalidLength,
    InvalidStrmFormat,
    Io,
}

impl AsciiProtocolError {
    pub open spec fn kind(&self) -> AsciiErrorKind {
        match self {
            AsciiProtocolError::InvalidFormat => AsciiErrorKind::InvalidFormat,
            AsciiProtocolError::InvalidLength => AsciiErrorKind::InvalidLength,
            AsciiProtocolError::InvalidStrmFormat => AsciiErrorKind::InvalidStrmFormat,
            AsciiProtocolError::Io(_) => AsciiErrorKind::Io,
        }
    }
}

/// "OKAY"
pub open spec fn okay_tag() -> Seq<u8> {
    seq![79u8, 75u8, 65u8, 89u8]
}

/// "FAIL"
pub open spec fn fail_tag() -> Seq<u8> {
    seq![70u8, 65u8, 73u8, 76u8]
}

/// "STRM"
pub open spec fn strm_tag() -> Seq<u8> {
    seq![83u8, 84u8, 82u8, 77u8]
}

/// A request: the payload length in four (or more) hex digits, then the
/// payload.
pub open spec fn spec_request(payload: Seq<u8>) -> Seq<u8> {
    hex_padded(payload.len(), 4) + payload
}

/// A STRM frame: tag, stream id in two hex digits, payload length in six
/// (or more) hex digits, payload.
pub open spec fn spec_strm(stream_id: u8, payload: Seq<u8>) -> Seq<u8> {
    strm_tag() + hex_padded(stream_id as nat, 2) + hex_padded(payload.len(), 6) + payload
}

/// What decoding a status response gives.
pub open spec fn spec_decode_response(d: Seq<u8>) -> Result<(bool, Seq<u8>), AsciiErrorKind> {
    if d.len() < 8 {
        Err(AsciiErrorKind::InvalidFormat)
    } else if d.subrange(0, 4) != okay_tag() && d.subrange(0, 4) != fail_tag() {
        Err(AsciiErrorKind::InvalidFormat)
    } else {
        match parse_hex(d.subrange(4, 8)) {
            None => Err(AsciiErrorKind::InvalidLength),
            Some(len) => if d.len() < 8 + len {
                Err(AsciiErrorKind::InvalidFormat)
            } else {
                Ok((d.subrange(0, 4) == okay_tag(), d.subrange(8, 8 + len as int)))
            },
        }
    }
}

/// What decoding a STRM frame gives.
pub open spec fn spec_decode_strm(d: Seq<u8>) -> Result<(u8, Seq<u8>), AsciiErrorKind> {
    if d.len() < 12 {
        Err(AsciiErrorKind::InvalidStrmFormat)
    } else if d.subrange(0, 4) != strm_tag() {
        Err(AsciiErrorKind::InvalidStrmFormat)
    } else {
        match parse_hex(d.subrange(4, 6)) {
            None => Err(AsciiErrorKind::InvalidStrmFormat),
            Some(id) => match parse_hex(d.subrange(6, 12)) {
                None => Err(AsciiErrorKind::InvalidLength),
                Some(len) => if d.len() < 12 + len {
                    Err(AsciiErrorKind::InvalidStrmFormat)
                } else {
                    Ok((id as u8, d.subrange(12, 12 + len as int)))
                },
            },
        }
    }
}

/// Frames `command` as a request: its byte length in hex, then its bytes.
pub fn encode_request(command: &str) -> (r: Vec<u8>)
    ensures
        r@ == spec_request(command.spec_bytes()),
{
    let command_bytes = command.as_bytes();
    let length = command_bytes.len();
    let mut result: Vec<u8> = Vec::new();
    push_hex(&mut result, length as u64, 4);
    append_all(&mut result, command_bytes);
    proof {
        assert(Seq::<u8>::empty() + hex_padded(length as nat, 4) =~= hex_padded(length as nat, 4));
    }
    result
}

/// Decodes "OKAY"/"FAIL", a four-digit hex length and that many payload
/// bytes; bytes after the payload are ignored.
pub fn decode_response(data: &[u8]) -> (r: Result<(bool, Vec<u8>), AsciiProtocolError>)
    ensures
        match (r, spec_decode_response(data@)) {
            (Ok((ok, p)), Ok((sok, sp))) => ok == sok && p@ == sp,
            (Err(e), Err(k)) => e.kind() == k,
            _ => false,
        },
{
    if data.len() < 8 {
        return Err(AsciiProtocolError::InvalidFormat);
    }
    let success = if bytes4_at(data, 0, 79, 75, 65, 89) {
        true
    } else if bytes4_at(data, 0, 70, 65, 73, 76) {
        false
    } else {
        return Err(AsciiProtocolError::InvalidFormat);
    };
    let length_field = copy_range(data, 4, 8);
    let length = match parse_hex_bytes(length_field.as_slice()) {
        Some(v) => {
            proof {
                reveal_with_fuel(pow16, 5);
            }
            v as usize
        },
        None => return Err(AsciiProtocolError::InvalidLength),
    };
    if data.len() < 8 + length {
        return Err(AsciiProtocolError::InvalidFormat);
    }
    let payload = copy_range(data, 8, 8 + length);
    Ok((success, payload))
}

/// Frames `data` for stream `stream_id`.
pub fn encode_strm(stream_id: u8, data: &[u8]) -> (r: Vec<u8>)
    ensures
        r@ == spec_strm(stream_id, data@),
{
    let mut result: Vec<u8> = Vec::new();
    result.push(83);
    result.push(84);
    result.push(82);
    result.push(77);
    push_hex(&mut result, stream_id as u64, 2);
    push_hex(&mut result, data.len() as u64, 6);
    append_all(&mut result, data);
    proof {
        assert(result@ =~= spec_strm(stream_id, data@));
    }
    result
}

/// Decodes a STRM frame: tag, two-digit hex stream id, six-digit hex length
/// and that many payload bytes.
pub fn decode_strm(data: &[u8]) -> (r: Result<(u8, Vec<u8>), AsciiProtocolError>)
    ensures
        match (r, spec_decode_strm(data@)) {
            (Ok((id, p)), Ok((sid, sp))) => id == sid && p@ == sp,
            (Err(e), Err(k)) => e.kind() == k,
            _ => false,
        },
{
    if data.len() < 12 {
        return Err(AsciiProtocolError::InvalidStrmFormat);
    }
    if !bytes4_at(data, 0, 83, 84, 82, 77) {
        return Err(AsciiProtocolError::InvalidStrmFormat);
    }
    let id_field = copy_range(data, 4, 6);
    let stream_id = match parse_hex_bytes(id_field.as_slice()) {
        Some(v) => {
            proof {
                lemma_two_digits_bound(data@.subrange(4, 6), v as nat);
            }
            v as u8
        },
        None => return Err(AsciiProtocolError::InvalidStrmFormat),
    };
    let length_field = copy_range(data, 6, 12);
    let length = match parse_hex_bytes(length_field.as_slice()) {
        Some(v) => {
            proof {
                reveal_with_fuel(pow16, 7);
            }
            v as usize
        },
        None => return Err(AsciiProtocolError::InvalidLength),
    };
    if data.len() < 12 + length {
        return Err(AsciiProtocolError::InvalidStrmFormat);
    }
    let payload = copy_range(data, 12, 12 + length);
    Ok((stream_id, payload))
}

/// The status response "OKAY" with the payload `data`.
pub open spec fn spec_okay_response(data: Seq<u8>) -> Seq<u8> {
    okay_tag() + hex_padded(data.len(), 4) + data
}

/// The status response "FAIL" with the message `message`.
pub open spec fn spec_fail_response(message: Seq<u8>) -> Seq<u8> {
    fail_tag() + hex_padded(message.len(), 4) + message
}

/// Builds "OKAY", the four-digit hex length of `data`, then `data`.
pub fn okay_response(data: &[u8]) -> (r: Vec<u8>)
    ensures
        r@ == spec_okay_response(data@),
{
    let mut response: Vec<u8> = Vec::new();
    response.push(79);
    response.push(75);
    response.push(65);
    response.push(89);
    push_hex(&mut response, data.len() as u64, 4);
    append_all(&mut response, data);
    proof {
        assert(response@ =~= spec_okay_response(data@));
    }
    response
}

/// Builds "FAIL", the four-digit hex length of `message`, then `message`.
pub fn fail_response(message: &str) -> (r: Vec<u8>)
    ensures
        r@ == spec_fail_response(message.spec_bytes()),
{
    let bytes = message.as_bytes();
    let mut response: Vec<u8> = Vec::new();
    response.push(70);
    response.push(65);
    response.push(73);
    response.push(76);
    push_hex(&mut response, bytes.len() as u64, 4);
    append_all(&mut response, bytes);
    proof {
        assert(response@ =~= spec_fail_response(message.spec_bytes()));
    }
    response
}

proof fn lemma_two_digits_bound(s: Seq<u8>, v: nat)
    requires
        s.len() == 2,
        parse_hex(s) == Some(v),
    ensures
        v < 256,
{
    reveal_with_fuel(pow16, 3);
    if s[0] == 43 {
        lemma_digits_bound(s.drop_first(), v);
    } else {
        lemma_digits_bound(s, v);
    }
}

proof fn lemma_digits_bound(s: Seq<u8>, v: nat)
    requires
        crate::hex::hex_digits_value(s) == Some(v),
    ensures
        v < pow16(s.len()),
    decreases s.len(),
{
    if s.len() == 1 {
        reveal_with_fuel(pow16, 2);
    } else {
        let a = crate::hex::hex_digits_value(s.drop_last())->Some_0;
        lemma_digits_bound(s.drop_last(), a);
        assert(pow16(s.len()) == 16 * pow16((s.len() - 1) as nat));
        assert(v == a * 16 + crate::hex::hex_value(s.last())->Some_0);
        assert(a * 16 + crate::hex::hex_value(s.last())->Some_0 < 16 * pow16((s.len() - 1) as nat)) by (nonlinear_arith)
            requires
                a < pow16((s.len() - 1) as nat),
                crate::hex::hex_value(s.last())->Some_0 < 16,
        ;
    }
}

/// A frame built by `encode_strm` decodes to the stream id and payload it
/// was built from, when the payload length fits the six-digit field.
pub proof fn lemma_strm_roundtrip(stream_id: u8, payload: Seq<u8>)
    requires
        payload.len() < 0x100_0000,
    ensures
        spec_decode_strm(spec_strm(stream_id, payload)) == Ok::<(u8, Seq<u8>), AsciiErrorKind>(
            (stream_id, payload),
        ),
{
    reveal_with_fuel(pow16, 7);
    lemma_hex_len_bound(stream_id as nat, 2);
    lemma_hex_len_bound(payload.len(), 6);
    lemma_hex_fixed_value(stream_id as nat, 2);
    lemma_hex_fixed_value(payload.len(), 6);
    let d = spec_strm(stream_id, payload);
    assert(d.subrange(0, 4) =~= strm_tag());
    assert(d.subrange(4, 6) =~= hex_fixed(stream_id as nat, 2));
    assert(d.subrange(6, 12) =~= hex_fixed(payload.len(), 6));
    crate::hex::lemma_hex_fixed_no_sign(stream_id as nat, 2, 0);
    crate::hex::lemma_hex_fixed_no_sign(payload.len(), 6, 0);
    assert(d.subrange(12, 12 + payload.len() as int) =~= payload);
}

/// An "OKAY" response built by `okay_response` decodes to success and its
/// payload, when the payload length fits the four-digit field.
pub proof fn lemma_okay_response_roundtrip(payload: Seq<u8>)
    requires
        payload.len() < 0x1_0000,
    ensures
        spec_decode_response(spec_okay_response(payload)) == Ok::<(bool, Seq<u8>), AsciiErrorKind>(
            (true, payload),
        ),
{
    reveal_with_fuel(pow16, 5);
    lemma_hex_len_bound(payload.len(), 4);
    lemma_hex_fixed_value(payload.len(), 4);
    let d = spec_okay_response(payload);
    assert(d.subrange(0, 4) =~= okay_tag());
    assert(d.subrange(4, 8) =~= hex_fixed(payload.len(), 4));
    crate::hex::lemma_hex_fixed_no_sign(payload.len(), 4, 0);
    assert(d.subrange(8, 8 + payload.len() as int) =~= payload);
}

/// A "FAIL" response built by `fail_response` decodes to failure and its
/// message, when the message length fits the four-digit field.
pub proof fn lemma_fail_response_roundtrip(message: Seq<u8>)
    requires
        message.len() < 0x1_0000,
    ensures
        spec_decode_response(spec_fail_response(message)) == Ok::<(bool, Seq<u8>), AsciiErrorKind>(
            (false, message),
        ),
{
    reveal_with_fuel(pow16, 5);
    lemma_hex_len_bound(message.len(), 4);
    lemma_hex_fixed_value(message.len(), 4);
    let d = spec_fail_response(message);
    assert(d.subrange(0, 4) =~= fail_tag());
    assert(d.subrange(0, 4) != okay_tag()) by {
        assert(d.subrange(0, 4)[0] != okay_tag()[0]);
    }
    assert(d.subrange(4, 8) =~= hex_fixed(message.len(), 4));
    crate::hex::lemma_hex_fixed_no_sign(message.len(), 4, 0);
    assert(d.subrange(8, 8 + message.len() as int) =~= message);
}

} // verus!
