use vstd::prelude::*;
use vstd::utf8::encode_utf8;
use crate::buffer::{bytes_mut_view, bytes_mut_new, bytes_mut_with_capacity, bytes_mut_extend, bytes_mut_len, bytes_mut_clear, bytes_mut_take_all, bytes_mut_prefix};
use crate::protocol::commands::AdbCommand;
use crate::protocol::constants::{CNXN, AUTH, OKAY, OPEN, WRTE, CLSE};
use crate::protocol::message::{AdbMessage, MessageModel, HEADER_SIZE, spec_serialize, built};
use crate::text::{string_bytes, has_prefix, to_owned_string, push_str, push_dec_str, dec_chars};
use crate::wire::append_all;

verus! {

/// Why a message could not be added.
#[derive(Debug, Clone, Copy, PartialEq, Eq, Structural)]
pub enum SerializeError {
    /// The output buffer would grow past its limit.
    BufferLimitExceeded { current: usize, additional: usize, max: usize },
    /// The sequence already holds its maximum number of messages.
    SequenceFull { max: usize },
}

/// The text of a serialization error.
pub open spec fn serialize_error_text(e: SerializeError) -> Seq<char> {
    match e {
        SerializeError::BufferLimitExceeded { current, additional, max } =>
            "Output buffer would exceed maximum size: "@ + dec_chars(current as nat) + " + "@
                + dec_chars(additional as nat) + " > "@ + dec_chars(max as nat),
        SerializeError::SequenceFull { max } =>
            "Message sequence exceeds maximum length: "@ + dec_chars(max as nat),
    }
}

impl SerializeError {
    /// The error's message: "Output buffer would exceed maximum size:
    /// <current> + <additional> > <max>", or "Message sequence exceeds
    /// maximum length: <max>".
    pub fn to_string(&self) -> (r: String)
        ensures
            r@ == serialize_error_text(*self),
    {
        match self {
            SerializeError::BufferLimitExceeded { current, additional, max } => {
                let mut t = to_owned_string("Output buffer would exceed maximum size: ");
                push_dec_str(&mut t, *current as u64);
                push_str(&mut t, " + ");
                push_dec_str(&mut t, *additional as u64);
                push_str(&mut t, " > ");
                push_dec_str(&mut t, *max as u64);
                t
            },
            SerializeError::SequenceFull { max } => {
                let mut t = to_owned_string("Message sequence exceeds maximum length: ");
                push_dec_str(&mut t, *max as u64);
                t
            },
        }
    }
}

/// The encodings of `ms`, one after another.
pub open spec fn spec_serialize_all(ms: Seq<MessageModel>) -> Seq<u8>
    decreases ms.len(),
{
    if ms.len() == 0 {
        Seq::empty()
    } else {
        spec_serialize_all(ms.drop_last()) + spec_serialize(ms.last())
    }
}

/// The views of a list of messages.
pub open spec fn views(ms: Seq<AdbMessage>) -> Seq<MessageModel> {
    ms.map_values(|m: AdbMessage| m@)
}

/// Accumulates encoded messages up to a size limit.
pub struct MessageSerializer {
    output_buffer: bytes::BytesMut,
    max_buffer_size: usize,
}

impl MessageSerializer {
    /// The bytes accumulated.
    pub closed spec fn output(&self) -> Seq<u8> {
        bytes_mut_view(self.output_buffer)
    }

    /// The size limit of the accumulated bytes.
    pub closed spec fn limit(&self) -> usize {
        self.max_buffer_size
    }

    /// Empty, with a limit of 1 MiB.
    pub fn new() -> (s: Self)
        ensures
            s.output() == Seq::<u8>::empty(),
            s.limit() == 1048576,
    {
        MessageSerializer { output_buffer: bytes_mut_new(), max_buffer_size: 1024 * 1024 }
    }

    /// Empty, with room reserved for `capacity` bytes and a limit of twice
    /// that.
    pub fn with_capacity(capacity: usize) -> (s: Self)
        requires
            capacity <= usize::MAX / 2,
        ensures
            s.output() == Seq::<u8>::empty(),
            s.limit() == capacity * 2,
    {
        MessageSerializer {
            output_buffer: bytes_mut_with_capacity(capacity),
            max_buffer_size: capacity * 2,
        }
    }

    /// Appends the encoding of `message`, unless the buffer would then pass
    /// its limit; then nothing changes and the error says by how much.
    pub fn serialize_message(&mut self, message: &AdbMessage) -> (r: Result<(), SerializeError>)
        ensures
            final(self).limit() == old(self).limit(),
            old(self).output().len() + spec_serialize(message@).len() > old(self).limit() ==> {
                &&& r == Err::<(), SerializeError>(
                    SerializeError::BufferLimitExceeded {
                        current: old(self).output().len() as usize,
                        additional: spec_serialize(message@).len() as usize,
                        max: old(self).limit(),
                    },
                )
                &&& final(self).output() == old(self).output()
            },
            old(self).output().len() + spec_serialize(message@).len() <= old(self).limit() ==> {
                &&& r is Ok
                &&& final(self).output() == old(self).output() + spec_serialize(message@)
            },
    {
        let serialized = message.serialize();
        let current = bytes_mut_len(&self.output_buffer);
        if serialized.len() > self.max_buffer_size || current > self.max_buffer_size - serialized.len() {
            return Err(
                SerializeError::BufferLimitExceeded {
                    current,
                    additional: serialized.len(),
                    max: self.max_buffer_size,
                },
            );
        }
        bytes_mut_extend(&mut self.output_buffer, serialized.as_slice());
        Ok(())
    }

    /// Appends the encodings of `messages` in order, stopping at the first
    /// that does not fit; the ones before it stay appended.
    pub fn serialize_batch(&mut self, messages: &[AdbMessage]) -> (r: Result<(), SerializeError>)
        ensures
            final(self).limit() == old(self).limit(),
            exists|k: int|
                #![trigger views(messages@).take(k)]
                0 <= k <= messages@.len() && final(self).output() == old(self).output()
                    + spec_serialize_all(views(messages@).take(k)) && (r is Ok <==> k
                    == messages@.len()) && (k < messages@.len() ==> old(self).output().len()
                    + spec_serialize_all(views(messages@).take(k)).len() + spec_serialize(
                    messages@[k]@,
                ).len() > old(self).limit()),
    {
        let ghost start = self.output();
        let mut i: usize = 0;
        assert(spec_serialize_all(views(messages@).take(0)) =~= Seq::<u8>::empty());
        assert(start + Seq::<u8>::empty() =~= start);
        while i < messages.len()
            invariant
                i <= messages@.len(),
                self.limit() == old(self).limit(),
                start == old(self).output(),
                self.output() == start + spec_serialize_all(views(messages@).take(i as int)),
            decreases messages@.len() - i,
        {
            match self.serialize_message(&messages[i]) {
                Ok(()) => {},
                Err(e) => {
                    assert(views(messages@).take(i as int) =~= views(messages@).take(i as int));
                    return Err(e);
                },
            }
            proof {
                assert(views(messages@).take(i + 1).drop_last() =~= views(messages@).take(i as int));
                assert(views(messages@).take(i + 1).last() == messages@[i as int]@);
                assert(start + spec_serialize_all(views(messages@).take(i as int)) + spec_serialize(
                    messages@[i as int]@,
                ) =~= start + spec_serialize_all(views(messages@).take(i + 1)));
            }
            i = i + 1;
        }
        assert(views(messages@).take(messages@.len() as int) =~= views(messages@).take(i as int));
        Ok(())
    }

    /// Hands out the accumulated bytes and empties the buffer.
    pub fn take_data(&mut self) -> (r: Vec<u8>)
        ensures
            r@ == old(self).output(),
            final(self).output() == Seq::<u8>::empty(),
            final(self).limit() == old(self).limit(),
    {
        bytes_mut_take_all(&mut self.output_buffer)
    }

    /// A copy of the accumulated bytes.
    pub fn get_data(&self) -> (r: Vec<u8>)
        ensures
            r@ == self.output(),
    {
        let n = bytes_mut_len(&self.output_buffer);
        let r = bytes_mut_prefix(&self.output_buffer, n);
        assert(self.output().take(n as int) =~= self.output());
        r
    }

    /// Empties the buffer.
    pub fn clear(&mut self)
        ensures
            final(self).output() == Seq::<u8>::empty(),
            final(self).limit() == old(self).limit(),
    {
        bytes_mut_clear(&mut self.output_buffer);
    }

    /// The number of accumulated bytes.
    pub fn buffer_size(&self) -> (r: usize)
        ensures
            r == self.output().len(),
    {
        bytes_mut_len(&self.output_buffer)
    }

    /// Whether nothing is accumulated.
    pub fn is_empty(&self) -> (r: bool)
        ensures
            r == (self.output().len() == 0),
    {
        bytes_mut_len(&self.output_buffer) == 0
    }

    /// How many more bytes fit under the limit (0 when at or past it).
    pub fn remaining_capacity(&self) -> (r: usize)
        ensures
            r == (if self.output().len() >= self.limit() {
                0
            } else {
                self.limit() - self.output().len()
            }),
    {
        self.max_buffer_size.saturating_sub(bytes_mut_len(&self.output_buffer))
    }
}

impl Default for MessageSerializer {
    fn default() -> (s: Self)
        ensures
            s.output() == Seq::<u8>::empty(),
            s.limit() == 1048576,
    {
        Self::new()
    }
}

/// Statistics about serialization.
#[derive(Debug, Clone, Copy, PartialEq, Eq, Structural)]
pub struct SerializerStats {
    pub message_count: usize,
    pub total_bytes_serialized: usize,
    pub current_buffer_size: usize,
    pub remaining_capacity: usize,
}

/// A serializer that also counts messages and bytes.
pub struct StreamSerializer {
    serializer: MessageSerializer,
    message_count: usize,
    total_bytes_serialized: usize,
}

impl StreamSerializer {
    pub closed spec fn inner(&self) -> &MessageSerializer {
        &self.serializer
    }

    pub closed spec fn count(&self) -> usize {
        self.message_count
    }

    pub closed spec fn total(&self) -> usize {
        self.total_bytes_serialized
    }

    pub fn new() -> (s: Self)
        ensures
            s.inner().output() == Seq::<u8>::empty(),
            s.inner().limit() == 1048576,
            s.count() == 0,
            s.total() == 0,
    {
        StreamSerializer { serializer: MessageSerializer::new(), message_count: 0, total_bytes_serialized: 0 }
    }

    pub fn with_capacity(capacity: usize) -> (s: Self)
        requires
            capacity <= usize::MAX / 2,
        ensures
            s.inner().output() == Seq::<u8>::empty(),
            s.inner().limit() == capacity * 2,
            s.count() == 0,
            s.total() == 0,
    {
        StreamSerializer {
            serializer: MessageSerializer::with_capacity(capacity),
            message_count: 0,
            total_bytes_serialized: 0,
        }
    }

    /// Serializes one message and counts it and its bytes.
    pub fn serialize_message(&mut self, message: &AdbMessage) -> (r: Result<(), SerializeError>)
        requires
            old(self).count() < usize::MAX,
            old(self).total() + spec_serialize(message@).len() <= usize::MAX,
        ensures
            final(self).inner().limit() == old(self).inner().limit(),
            r is Err ==> {
                &&& final(self).inner().output() == old(self).inner().output()
                &&& final(self).count() == old(self).count()
                &&& final(self).total() == old(self).total()
                &&& old(self).inner().output().len() + spec_serialize(message@).len() > old(self).inner().limit()
            },
            r is Ok ==> {
                &&& final(self).inner().output() == old(self).inner().output() + spec_serialize(message@)
                &&& final(self).count() == old(self).count() + 1
                &&& final(self).total() == old(self).total() + spec_serialize(message@).len()
            },
            (r is Ok) == (old(self).inner().output().len() + spec_serialize(message@).len() <= old(self).inner().limit()),
    {
        let initial_size = self.serializer.buffer_size();
        match self.serializer.serialize_message(message) {
            Ok(()) => {},
            Err(e) => return Err(e),
        }
        let bytes_added = self.serializer.buffer_size() - initial_size;
        self.message_count = self.message_count + 1;
        self.total_bytes_serialized = self.total_bytes_serialized + bytes_added;
        Ok(())
    }

    /// Serializes `messages` in order and hands out the whole buffer; stops
    /// at the first message that does not fit.
    pub fn serialize_and_take(&mut self, messages: &[AdbMessage]) -> (r: Result<Vec<u8>, SerializeError>)
        requires
            old(self).count() + messages@.len() <= usize::MAX,
            old(self).total() + spec_serialize_all(views(messages@)).len() <= usize::MAX,
        ensures
            r matches Ok(data) ==> (data@ == old(self).inner().output() + spec_serialize_all(views(messages@))
                && final(self).inner().output() == Seq::<u8>::empty()
                && final(self).count() == old(self).count() + messages@.len()),
            r is Err ==> exists|k: int|
                #![trigger views(messages@).take(k)]
                0 <= k < messages@.len() && final(self).inner().output() == old(self).inner().output()
                    + spec_serialize_all(views(messages@).take(k)),
    {
        let ghost start = self.serializer.output();
        let mut i: usize = 0;
        assert(spec_serialize_all(views(messages@).take(0)) =~= Seq::<u8>::empty());
        assert(start + Seq::<u8>::empty() =~= start);
        while i < messages.len()
            invariant
                i <= messages@.len(),
                start == old(self).inner().output(),
                self.count() == old(self).count() + i,
                self.total() == old(self).total() + spec_serialize_all(views(messages@).take(i as int)).len(),
                old(self).count() + messages@.len() <= usize::MAX,
                old(self).total() + spec_serialize_all(views(messages@)).len() <= usize::MAX,
                self.serializer.output() == start + spec_serialize_all(views(messages@).take(i as int)),
            decreases messages@.len() - i,
        {
            proof {
                lemma_serialize_all_prefix_len(views(messages@), i as int + 1);
                assert(views(messages@).take(i + 1).drop_last() =~= views(messages@).take(i as int));
                assert(views(messages@).take(i + 1).last() == messages@[i as int]@);
            }
            match self.serialize_message(&messages[i]) {
                Ok(()) => {},
                Err(e) => return Err(e),
            }
            proof {
                assert(start + spec_serialize_all(views(messages@).take(i as int)) + spec_serialize(
                    messages@[i as int]@,
                ) =~= start + spec_serialize_all(views(messages@).take(i + 1)));
            }
            i = i + 1;
        }
        assert(views(messages@).take(messages@.len() as int) =~= views(messages@));
        Ok(self.serializer.take_data())
    }

    /// Message count, bytes serialized and the state of the buffer.
    pub fn get_stats(&self) -> (s: SerializerStats)
        ensures
            s.message_count == self.count(),
            s.total_bytes_serialized == self.total(),
            s.current_buffer_size == self.inner().output().len(),
            s.remaining_capacity == (if self.inner().output().len() >= self.inner().limit() {
                0
            } else {
                self.inner().limit() - self.inner().output().len()
            }),
    {
        SerializerStats {
            message_count: self.message_count,
            total_bytes_serialized: self.total_bytes_serialized,
            current_buffer_size: self.serializer.buffer_size(),
            remaining_capacity: self.serializer.remaining_capacity(),
        }
    }

    /// Zeroes the counters.
    pub fn reset_stats(&mut self)
        ensures
            final(self).count() == 0,
            final(self).total() == 0,
            final(self).inner() == old(self).inner(),
    {
        self.message_count = 0;
        self.total_bytes_serialized = 0;
    }

    /// Hands out the buffer and zeroes the counters.
    pub fn take_data_and_reset(&mut self) -> (r: Vec<u8>)
        ensures
            r@ == old(self).inner().output(),
            final(self).inner().output() == Seq::<u8>::empty(),
            final(self).inner().limit() == old(self).inner().limit(),
            final(self).count() == 0,
            final(self).total() == 0,
    {
        let data = self.serializer.take_data();
        self.reset_stats();
        data
    }
}

impl Default for StreamSerializer {
    fn default() -> (s: Self)
        ensures
            s.inner().output() == Seq::<u8>::empty(),
            s.inner().limit() == 1048576,
            s.count() == 0,
            s.total() == 0,
    {
        Self::new()
    }
}

proof fn lemma_serialize_all_prefix_len(ms: Seq<MessageModel>, k: int)
    requires
        0 <= k <= ms.len(),
    ensures
        spec_serialize_all(ms.take(k)).len() <= spec_serialize_all(ms).len(),
    decreases ms.len() - k,
{
    if k < ms.len() {
        lemma_serialize_all_prefix_len(ms, k + 1);
        assert(ms.take(k + 1).drop_last() =~= ms.take(k));
    } else {
        assert(ms.take(k) =~= ms);
    }
}

/// Batch sizes add up: the encodings of two lists one after the other are
/// the encodings of the joined list, so its size is the sum of theirs; no
/// messages take no bytes, and one message takes its header and payload.
#[verifier::spinoff_prover]
pub proof fn lemma_batch_size_additive(a: Seq<MessageModel>, b: Seq<MessageModel>, m: MessageModel)
    ensures
        spec_serialize_all(a + b) == spec_serialize_all(a) + spec_serialize_all(b),
        spec_serialize_all(a + b).len() == spec_serialize_all(a).len() + spec_serialize_all(b).len(),
        spec_serialize_all(Seq::<MessageModel>::empty()).len() == 0,
        spec_serialize_all(seq![m]).len() == HEADER_SIZE + m.data.len(),
    decreases b.len(),
{
    if b.len() == 0 {
        assert(a + b =~= a);
        assert(spec_serialize_all(a) + spec_serialize_all(b) =~= spec_serialize_all(a));
    } else {
        lemma_batch_size_additive(a, b.drop_last(), m);
        assert((a + b).drop_last() =~= a + b.drop_last());
        assert((a + b).last() == b.last());
        assert(spec_serialize_all(a + b) =~= spec_serialize_all(a) + spec_serialize_all(b));
    }
    assert(seq![m].drop_last() =~= Seq::<MessageModel>::empty());
    assert(seq![m].last() == m);
    assert(spec_serialize_all(Seq::<MessageModel>::empty()) == Seq::<u8>::empty());
    assert(spec_serialize_all(seq![m]) == spec_serialize_all(seq![m].drop_last()) + spec_serialize(seq![m].last()));
    assert(spec_serialize_all(seq![m]) =~= spec_serialize(m));
    assert(spec_serialize(m).len() == HEADER_SIZE + m.data.len());
}

/// A builder made with capacity `n` takes at most `n` messages: along any
/// chain of successful adds from it (each one on a builder below its limit,
/// appending its message and keeping the limit), at most `n` messages are
/// added, the last builder holds exactly them in order, and once it holds
/// `n` the next add is refused.
pub proof fn lemma_capacity_chain(chain: Seq<MessageSequenceBuilder>, ms: Seq<MessageModel>, n: usize)
    requires
        chain.len() == ms.len() + 1,
        chain[0].sequence() == Seq::<MessageModel>::empty(),
        chain[0].max() == n,
        forall|i: int| 0 <= i < ms.len() ==> {
            &&& (#[trigger] chain[i]).sequence().len() < chain[i].max()
            &&& chain[i + 1].sequence() == chain[i].sequence().push(ms[i])
            &&& chain[i + 1].max() == chain[i].max()
        },
    ensures
        ms.len() <= n,
        chain.last().sequence() == ms,
        chain.last().max() == n,
        ms.len() == n ==> chain.last().sequence().len() >= chain.last().max(),
    decreases ms.len(),
{
    if ms.len() > 0 {
        let k = ms.len() - 1;
        lemma_capacity_chain(chain.drop_last(), ms.drop_last(), n);
        assert(chain.drop_last().last() == chain[k]);
        assert(chain[k].sequence() == ms.drop_last());
        assert(chain[k + 1].sequence() == chain[k].sequence().push(ms[k]));
        assert(ms.drop_last().push(ms[k]) =~= ms);
    }
}

/// The encoding of one message.
pub fn serialize_single(message: &AdbMessage) -> (r: Vec<u8>)
    ensures
        r@ == spec_serialize(message@),
{
    message.serialize()
}

/// Calls `std::io::Write::write_all(writer, bytes)`; a failure comes back
/// as the I/O error's text. Nothing is claimed of the outcome: whether the
/// bytes are taken depends on where the writer writes.
#[verifier::external_body]
fn write_all_to<W: std::io::Write>(writer: &mut W, bytes: &[u8]) -> Result<(), String> {
    writer.write_all(bytes).map_err(|e| format!("{}", e))
}

/// Writes the encoding of `message` to `writer`; on success, the number of
/// bytes written, which is the length of the encoding; a failed write is
/// reported as "Failed to write serialized message: " and the writer's
/// error.
pub fn serialize_to_writer<W: std::io::Write>(message: &AdbMessage, writer: &mut W) -> (r: Result<usize, String>)
    ensures
        r matches Ok(n) ==> n == spec_serialize(message@).len(),
        r matches Err(e) ==> has_prefix(e@, "Failed to write serialized message: "@),
{
    let serialized = message.serialize();
    match write_all_to(writer, serialized.as_slice()) {
        Ok(()) => Ok(serialized.len()),
        Err(e) => {
            let mut text = to_owned_string("Failed to write serialized message: ");
            push_str(&mut text, e.as_str());
            proof {
                reveal_strlit("Failed to write serialized message: ");
                assert(text@.subrange(0, "Failed to write serialized message: "@.len() as int)
                    =~= "Failed to write serialized message: "@);
            }
            Err(text)
        },
    }
}

/// The encodings of `messages`, one after another.
pub fn serialize_multiple(messages: &[AdbMessage]) -> (r: Vec<u8>)
    ensures
        r@ == spec_serialize_all(views(messages@)),
{
    let mut output: Vec<u8> = Vec::new();
    let mut i: usize = 0;
    assert(spec_serialize_all(views(messages@).take(0)) =~= Seq::<u8>::empty());
    while i < messages.len()
        invariant
            i <= messages@.len(),
            output@ == spec_serialize_all(views(messages@).take(i as int)),
        decreases messages@.len() - i,
    {
        let serialized = messages[i].serialize();
        append_all(&mut output, serialized.as_slice());
        proof {
            assert(views(messages@).take(i + 1).drop_last() =~= views(messages@).take(i as int));
            assert(views(messages@).take(i + 1).last() == messages@[i as int]@);
        }
        i = i + 1;
    }
    assert(views(messages@).take(messages@.len() as int) =~= views(messages@));
    output
}

/// A response message and the OKAY acknowledging it, on the same stream
/// pair.
pub fn create_response_pair(
    original_command: AdbCommand,
    local_id: u32,
    remote_id: u32,
    response_data: Vec<u8>,
) -> (r: (AdbMessage, AdbMessage))
    ensures
        r.0@ == built(original_command.spec_code(), local_id, remote_id, response_data@),
        r.1@ == built(OKAY, local_id, remote_id, Seq::empty()),
{
    let response = AdbMessage::new(original_command.to_u32(), local_id, remote_id, response_data);
    let okay = AdbMessage::new_okay(local_id, remote_id);
    (response, okay)
}

/// The encoding of a response pair.
pub fn serialize_response_pair(
    original_command: AdbCommand,
    local_id: u32,
    remote_id: u32,
    response_data: Vec<u8>,
) -> (r: Vec<u8>)
    ensures
        r@ == spec_serialize(built(original_command.spec_code(), local_id, remote_id, response_data@))
            + spec_serialize(built(OKAY, local_id, remote_id, Seq::empty())),
{
    let (response, okay) = create_response_pair(original_command, local_id, remote_id, response_data);
    let mut out = response.serialize();
    let second = okay.serialize();
    append_all(&mut out, second.as_slice());
    out
}

/// The size of a message's encoding, without encoding it.
pub fn calculate_serialized_size(message: &AdbMessage) -> (r: usize)
    requires
        message.data@.len() + HEADER_SIZE <= usize::MAX,
    ensures
        r == spec_serialize(message@).len(),
{
    HEADER_SIZE + message.data.len()
}

/// The total size of the encodings of `messages`.
pub fn calculate_batch_size(messages: &[AdbMessage]) -> (r: usize)
    requires
        spec_serialize_all(views(messages@)).len() <= usize::MAX,
    ensures
        r == spec_serialize_all(views(messages@)).len(),
{
    let mut total: usize = 0;
    let mut i: usize = 0;
    assert(spec_serialize_all(views(messages@).take(0)) =~= Seq::<u8>::empty());
    while i < messages.len()
        invariant
            i <= messages@.len(),
            spec_serialize_all(views(messages@)).len() <= usize::MAX,
            total == spec_serialize_all(views(messages@).take(i as int)).len(),
        decreases messages@.len() - i,
    {
        proof {
            lemma_serialize_all_prefix_len(views(messages@), i as int + 1);
            assert(views(messages@).take(i + 1).drop_last() =~= views(messages@).take(i as int));
            assert(views(messages@).take(i + 1).last() == messages@[i as int]@);
        }
        total = total + calculate_serialized_size(&messages[i]);
        i = i + 1;
    }
    assert(views(messages@).take(messages@.len() as int) =~= views(messages@));
    total
}

/// Builds a sequence of messages, up to a maximum count.
pub struct MessageSequenceBuilder {
    messages: Vec<AdbMessage>,
    max_messages: usize,
}

impl MessageSequenceBuilder {
    pub closed spec fn sequence(&self) -> Seq<MessageModel> {
        views(self.messages@)
    }

    pub closed spec fn max(&self) -> usize {
        self.max_messages
    }

    /// Empty, holding at most 100 messages.
    pub fn new() -> (b: Self)
        ensures
            b.sequence() == Seq::<MessageModel>::empty(),
            b.max() == 100,
    {
        let b = MessageSequenceBuilder { messages: Vec::new(), max_messages: 100 };
        assert(b.sequence() =~= Seq::<MessageModel>::empty());
        b
    }

    /// Empty, holding at most `capacity` messages.
    pub fn with_capacity(capacity: usize) -> (b: Self)
        ensures
            b.sequence() == Seq::<MessageModel>::empty(),
            b.max() == capacity,
    {
        let b = MessageSequenceBuilder { messages: Vec::with_capacity(capacity), max_messages: capacity };
        assert(b.sequence() =~= Seq::<MessageModel>::empty());
        b
    }

    /// Appends `message`, unless the sequence is full.
    pub fn add_message(self, message: AdbMessage) -> (r: Result<Self, SerializeError>)
        ensures
            self.sequence().len() >= self.max() ==> r == Err::<Self, SerializeError>(
                SerializeError::SequenceFull { max: self.max() },
            ),
            self.sequence().len() < self.max() ==> (r matches Ok(b) && b.sequence() == self.sequence().push(
                message@,
            ) && b.max() == self.max()),
    {
        let mut s = self;
        if s.messages.len() >= s.max_messages {
            return Err(SerializeError::SequenceFull { max: s.max_messages });
        }
        let ghost m = message@;
        s.messages.push(message);
        assert(s.sequence() =~= self.sequence().push(m));
        Ok(s)
    }

    /// Appends a CNXN.
    pub fn add_connect(self, version: u32, max_data: u32, system_identity: &str) -> (r: Result<Self, SerializeError>)
        ensures
            self.sequence().len() >= self.max() ==> r == Err::<Self, SerializeError>(
                SerializeError::SequenceFull { max: self.max() },
            ),
            self.sequence().len() < self.max() ==> (r matches Ok(b) && b.sequence() == self.sequence().push(
                built(CNXN, version, max_data, encode_utf8(system_identity@)),
            ) && b.max() == self.max()),
    {
        let message = AdbMessage::new(CNXN, version, max_data, string_bytes(system_identity));
        self.add_message(message)
    }

    /// Appends an AUTH.
    pub fn add_auth(self, auth_type: u32, auth_data: Vec<u8>) -> (r: Result<Self, SerializeError>)
        ensures
            self.sequence().len() >= self.max() ==> r == Err::<Self, SerializeError>(
                SerializeError::SequenceFull { max: self.max() },
            ),
            self.sequence().len() < self.max() ==> (r matches Ok(b) && b.sequence() == self.sequence().push(
                built(AUTH, auth_type, 0, auth_data@),
            ) && b.max() == self.max()),
    {
        let message = AdbMessage::new(AUTH, auth_type, 0, auth_data);
        self.add_message(message)
    }

    /// Appends an OKAY.
    pub fn add_okay(self, local_id: u32, remote_id: u32) -> (r: Result<Self, SerializeError>)
        ensures
            self.sequence().len() >= self.max() ==> r == Err::<Self, SerializeError>(
                SerializeError::SequenceFull { max: self.max() },
            ),
            self.sequence().len() < self.max() ==> (r matches Ok(b) && b.sequence() == self.sequence().push(
                built(OKAY, local_id, remote_id, Seq::empty()),
            ) && b.max() == self.max()),
    {
        let message = AdbMessage::new_okay(local_id, remote_id);
        self.add_message(message)
    }

    /// Appends an OPEN of `destination`.
    pub fn add_open(self, local_id: u32, destination: &str) -> (r: Result<Self, SerializeError>)
        ensures
            self.sequence().len() >= self.max() ==> r == Err::<Self, SerializeError>(
                SerializeError::SequenceFull { max: self.max() },
            ),
            self.sequence().len() < self.max() ==> (r matches Ok(b) && b.sequence() == self.sequence().push(
                built(OPEN, local_id, 0, encode_utf8(destination@)),
            ) && b.max() == self.max()),
    {
        let message = AdbMessage::new(OPEN, local_id, 0, string_bytes(destination));
        self.add_message(message)
    }

    /// Appends a WRTE.
    pub fn add_write(self, local_id: u32, remote_id: u32, data: Vec<u8>) -> (r: Result<Self, SerializeError>)
        ensures
            self.sequence().len() >= self.max() ==> r == Err::<Self, SerializeError>(
                SerializeError::SequenceFull { max: self.max() },
            ),
            self.sequence().len() < self.max() ==> (r matches Ok(b) && b.sequence() == self.sequence().push(
                built(WRTE, local_id, remote_id, data@),
            ) && b.max() == self.max()),
    {
        let message = AdbMessage::new(WRTE, local_id, remote_id, data);
        self.add_message(message)
    }

    /// Appends a CLSE.
    pub fn add_close(self, local_id: u32, remote_id: u32) -> (r: Result<Self, SerializeError>)
        ensures
            self.sequence().len() >= self.max() ==> r == Err::<Self, SerializeError>(
                SerializeError::SequenceFull { max: self.max() },
            ),
            self.sequence().len() < self.max() ==> (r matches Ok(b) && b.sequence() == self.sequence().push(
                built(CLSE, local_id, remote_id, Seq::empty()),
            ) && b.max() == self.max()),
    {
        let message = AdbMessage::new_clse(local_id, remote_id);
        self.add_message(message)
    }

    /// The encoding of the whole sequence.
    pub fn build_and_serialize(self) -> (r: Vec<u8>)
        ensures
            r@ == spec_serialize_all(self.sequence()),
    {
        serialize_multiple(self.messages.as_slice())
    }

    /// The messages, without encoding them.
    pub fn build(self) -> (r: Vec<AdbMessage>)
        ensures
            views(r@) == self.sequence(),
    {
        self.messages
    }

    /// The number of messages.
    pub fn len(&self) -> (r: usize)
        ensures
            r == self.sequence().len(),
    {
        self.messages.len()
    }

    /// Whether no message has been added.
    pub fn is_empty(&self) -> (r: bool)
        ensures
            r == (self.sequence().len() == 0),
    {
        self.messages.len() == 0
    }
}

impl Default for MessageSequenceBuilder {
    fn default() -> (b: Self)
        ensures
            b.sequence() == Seq::<MessageModel>::empty(),
            b.max() == 100,
    {
        Self::new()
    }
}

} // verus!
