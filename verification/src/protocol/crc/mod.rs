use vstd::prelude::*;

pub mod known_values;

verus! {

/// One shift of the reflected CRC-32 register (polynomial 0xEDB88320).
pub open spec fn crc_bit(reg: u32) -> u32 {
    if reg & 1 == 1 { (reg >> 1) ^ 0xEDB88320u32 } else { reg >> 1 }
}

/// The register after one byte: the byte is folded into its low bits and
/// the register shifted eight times.
pub open spec fn crc_byte(reg: u32, b: u8) -> u32 {
    crc_bit(crc_bit(crc_bit(crc_bit(crc_bit(crc_bit(crc_bit(crc_bit(reg ^ (b as u32)))))))))
}

/// The raw register after feeding `data`, byte by byte, to `reg`.
pub open spec fn crc_register(reg: u32, data: Seq<u8>) -> u32
    decreases data.len(),
{
    if data.len() == 0 {
        reg
    } else {
        crc_byte(crc_register(reg, data.drop_last()), data.last())
    }
}

/// The CRC-32 (IEEE) value after feeding `data` to a hasher that held
/// `init` (values are kept inverted, as the checksum is): a hasher that
/// starts at 0 ends at the checksum of `data`.
pub open spec fn crc32_update(init: u32, data: Seq<u8>) -> u32 {
    !crc_register(!init, data)
}

/// The CRC-32 (IEEE) checksum of `data`.
pub open spec fn crc32_of(data: Seq<u8>) -> u32 {
    crc32_update(0, data)
}

/// Feeding `a` and then `b` to the register is feeding `a + b`.
pub proof fn lemma_crc_register_append(reg: u32, a: Seq<u8>, b: Seq<u8>)
    ensures
        crc_register(crc_register(reg, a), b) == crc_register(reg, a + b),
    decreases b.len(),
{
    if b.len() == 0 {
        assert(a + b =~= a);
    } else {
        lemma_crc_register_append(reg, a, b.drop_last());
        assert((a + b).drop_last() =~= a + b.drop_last());
        assert((a + b).last() == b.last());
    }
}

/// Feeding nothing leaves a checksum as it is, and feeding more bytes to a
/// checksum is feeding the concatenation to where it started.
pub proof fn lemma_crc32_continue(init: u32, a: Seq<u8>, b: Seq<u8>)
    ensures
        crc32_update(init, Seq::<u8>::empty()) == init,
        crc32_update(crc32_update(init, a), b) == crc32_update(init, a + b),
{
    let x = crc_register(!init, a);
    assert(!!init == init) by (bit_vector);
    assert(!!x == x) by (bit_vector);
    lemma_crc_register_append(!init, a, b);
}

/// The CRC-32 of nothing is 0, of "123456789" 0xCBF43926 (the standard
/// check value), of a single zero byte 0xD202EF8D.
pub proof fn lemma_known_values()
    ensures
        crc32_of(Seq::<u8>::empty()) == known_values::EMPTY,
        crc32_of(seq![0x31u8, 0x32, 0x33, 0x34, 0x35, 0x36, 0x37, 0x38, 0x39]) == known_values::TEST_STRING,
        crc32_of(seq![0u8]) == known_values::NULL_BYTE,
{
    let t = seq![0x31u8, 0x32, 0x33, 0x34, 0x35, 0x36, 0x37, 0x38, 0x39];
    assert(
        !0u32 == 0xffffffffu32
        && !0xffffffffu32 == 0u32
        && crc_byte(0xffffffffu32, 0x31u8) == 0x7c231048u32
        && crc_byte(0x7c231048u32, 0x32u8) == 0xb0acbb32u32
        && crc_byte(0xb0acbb32u32, 0x33u8) == 0x77b79c2du32
        && crc_byte(0x77b79c2du32, 0x34u8) == 0x641c1f5cu32
        && crc_byte(0x641c1f5cu32, 0x35u8) == 0x340ac5e3u32
        && crc_byte(0x340ac5e3u32, 0x36u8) == 0xf68d2c9eu32
        && crc_byte(0xf68d2c9eu32, 0x37u8) == 0xaffc9660u32
        && crc_byte(0xaffc9660u32, 0x38u8) == 0x651f2550u32
        && crc_byte(0x651f2550u32, 0x39u8) == 0x340bc6d9u32
        && !0x340bc6d9u32 == 0xcbf43926u32
        && crc_byte(0xffffffffu32, 0u8) == 0x2dfd1072u32
        && !0x2dfd1072u32 == 0xd202ef8du32
    ) by (bit_vector);
    let r = 0xffffffffu32;
    assert(crc_register(r, t.take(0)) == r);
    assert(t.take(1).drop_last() =~= t.take(0));
    assert(crc_register(r, t.take(1)) == 0x7c231048u32);
    assert(t.take(2).drop_last() =~= t.take(1));
    assert(crc_register(r, t.take(2)) == 0xb0acbb32u32);
    assert(t.take(3).drop_last() =~= t.take(2));
    assert(crc_register(r, t.take(3)) == 0x77b79c2du32);
    assert(t.take(4).drop_last() =~= t.take(3));
    assert(crc_register(r, t.take(4)) == 0x641c1f5cu32);
    assert(t.take(5).drop_last() =~= t.take(4));
    assert(crc_register(r, t.take(5)) == 0x340ac5e3u32);
    assert(t.take(6).drop_last() =~= t.take(5));
    assert(crc_register(r, t.take(6)) == 0xf68d2c9eu32);
    assert(t.take(7).drop_last() =~= t.take(6));
    assert(crc_register(r, t.take(7)) == 0xaffc9660u32);
    assert(t.take(8).drop_last() =~= t.take(7));
    assert(crc_register(r, t.take(8)) == 0x651f2550u32);
    assert(t.take(9).drop_last() =~= t.take(8));
    assert(crc_register(r, t.take(9)) == 0x340bc6d9u32);
    assert(t.take(9) =~= t);
    let z = seq![0u8];
    assert(z.drop_last() =~= Seq::<u8>::empty());
    assert(crc_register(r, z.drop_last()) == r);
    assert(z.last() == 0u8);
    assert(crc_register(r, z) == 0x2dfd1072u32);
}

/// Runs `crc32fast::Hasher::new_with_initial(init)`, `update(data)` and
/// `finalize()`. Claims: the result is the CRC-32 (IEEE) of `data`
/// continued from `init`, `crc32_update(init, data)` (crc32fast computes
/// the reflected CRC-32 with polynomial 0xEDB88320, the hasher's state
/// being the finalized, inverted value).
#[verifier::external_body]
fn crc32fast_update(init: u32, data: &[u8]) -> (r: u32)
    ensures
        r == crc32_update(init, data@),
{
    let mut hasher = crc32fast::Hasher::new_with_initial(init);
    hasher.update(data);
    hasher.finalize()
}

/// The checksum continued from `init` over `data`; feeding nothing leaves
/// it as it was, and feeding more bytes to the result is feeding the
/// concatenation to `init`.
fn crc32_continue(init: u32, data: &[u8]) -> (r: u32)
    ensures
        r == crc32_update(init, data@),
        data@.len() == 0 ==> r == init,
        forall|more: Seq<u8>| #[trigger] crc32_update(r, more) == crc32_update(init, data@ + more),
{
    let r = crc32fast_update(init, data);
    proof {
        if data@.len() == 0 {
            lemma_crc32_continue(init, data@, data@);
            assert(data@ =~= Seq::<u8>::empty());
        }
        assert forall|more: Seq<u8>| #[trigger] crc32_update(r, more) == crc32_update(init, data@ + more) by {
            lemma_crc32_continue(init, data@, more);
        }
    }
    r
}

/// Concatenation of a list of byte chunks, in order.
pub open spec fn concat_chunks(chunks: Seq<Seq<u8>>) -> Seq<u8>
    decreases chunks.len(),
{
    if chunks.len() == 0 {
        Seq::empty()
    } else {
        concat_chunks(chunks.drop_last()) + chunks.last()
    }
}

/// The views of a list of byte slices.
pub open spec fn chunk_views(chunks: Seq<&[u8]>) -> Seq<Seq<u8>> {
    chunks.map_values(|c: &[u8]| c@)
}

/// Calculate the CRC32 checksum of `data` (IEEE 802.3 polynomial).
pub fn calculate_crc32(data: &[u8]) -> (r: u32)
    ensures
        r == crc32_of(data@),
{
    crc32_continue(0, data)
}

/// Whether `data` has the checksum `expected_crc`.
pub fn validate_crc32(data: &[u8], expected_crc: u32) -> (r: bool)
    ensures
        r == (crc32_of(data@) == expected_crc),
{
    let calculated_crc = calculate_crc32(data);
    calculated_crc == expected_crc
}

/// Calculate the CRC32 checksum of the concatenation of `chunks`.
pub fn calculate_crc32_chunks(chunks: &[&[u8]]) -> (r: u32)
    ensures
        r == crc32_of(concat_chunks(chunk_views(chunks@))),
{
    let empty: Vec<u8> = Vec::new();
    let mut state: u32 = crc32_continue(0, empty.as_slice());
    let mut i: usize = 0;
    proof {
        assert(chunk_views(chunks@.take(0)) =~= Seq::<Seq<u8>>::empty());
        assert forall|more: Seq<u8>| #[trigger] crc32_update(state, more) == crc32_update(0, concat_chunks(chunk_views(chunks@.take(0))) + more) by {
            assert(concat_chunks(chunk_views(chunks@.take(0))) + more =~= more);
        }
    }
    while i < chunks.len()
        invariant
            i <= chunks@.len(),
            state == crc32_of(concat_chunks(chunk_views(chunks@.take(i as int)))),
            forall|more: Seq<u8>| #[trigger] crc32_update(state, more) == crc32_update(0, concat_chunks(chunk_views(chunks@.take(i as int))) + more),
        decreases chunks@.len() - i,
    {
        let chunk: &[u8] = chunks[i];
        let ghost before = concat_chunks(chunk_views(chunks@.take(i as int)));
        let next = crc32_continue(state, chunk);
        proof {
            assert(chunk_views(chunks@.take(i + 1)).drop_last() =~= chunk_views(
                chunks@.take(i as int),
            ));
            assert(chunk_views(chunks@.take(i + 1)).last() == chunk@);
            assert(crc32_update(state, chunk@) == crc32_update(0, before + chunk@));
            assert forall|more: Seq<u8>| #[trigger] crc32_update(next, more) == crc32_update(0, (before + chunk@) + more) by {
                assert(crc32_update(next, more) == crc32_update(state, chunk@ + more));
                assert(crc32_update(state, chunk@ + more) == crc32_update(0, before + (chunk@ + more)));
                assert(before + (chunk@ + more) =~= (before + chunk@) + more);
            }
        }
        state = next;
        i = i + 1;
    }
    proof {
        assert(chunks@.take(chunks@.len() as int) =~= chunks@);
    }
    state
}

/// Whether the concatenation of `chunks` has the checksum `expected_crc`.
pub fn validate_crc32_chunks(chunks: &[&[u8]], expected_crc: u32) -> (r: bool)
    ensures
        r == (crc32_of(concat_chunks(chunk_views(chunks@))) == expected_crc),
{
    let calculated_crc = calculate_crc32_chunks(chunks);
    calculated_crc == expected_crc
}

/// Incremental CRC32 computation over data that arrives in pieces.
pub struct Crc32Hasher {
    state: u32,
    fed: Ghost<Seq<u8>>,
}

impl Crc32Hasher {
    /// The bytes fed to the hasher since it was created or reset.
    pub closed spec fn fed(&self) -> Seq<u8> {
        self.fed@
    }

    pub closed spec fn wf(&self) -> bool {
        &&& self.state == crc32_of(self.fed@)
        &&& forall|more: Seq<u8>| #[trigger] crc32_update(self.state, more) == crc32_update(0, self.fed@ + more)
    }

    /// Create a new CRC32 hasher.
    pub fn new() -> (h: Self)
        ensures
            h.wf(),
            h.fed() == Seq::<u8>::empty(),
    {
        let empty: Vec<u8> = Vec::new();
        let s = crc32_continue(0, empty.as_slice());
        proof {
            assert forall|more: Seq<u8>| #[trigger] crc32_update(s, more) == crc32_update(0, Seq::<u8>::empty() + more) by {
                assert(Seq::<u8>::empty() + more =~= more);
            }
        }
        Crc32Hasher { state: s, fed: Ghost(Seq::empty()) }
    }

    /// Feed more data to the hasher.
    pub fn update(&mut self, data: &[u8])
        requires
            old(self).wf(),
        ensures
            final(self).wf(),
            final(self).fed() == old(self).fed() + data@,
    {
        let next = crc32_continue(self.state, data);
        proof {
            assert(crc32_update(self.state, data@) == crc32_update(0, self.fed@ + data@));
            assert forall|more: Seq<u8>| #[trigger] crc32_update(next, more) == crc32_update(0, (self.fed@ + data@) + more) by {
                assert(crc32_update(next, more) == crc32_update(self.state, data@ + more));
                assert(self.fed@ + (data@ + more) =~= (self.fed@ + data@) + more);
            }
        }
        self.state = next;
        self.fed = Ghost(self.fed@ + data@);
    }

    /// The checksum of the data fed so far, leaving the hasher as it is.
    pub fn clone_finalize(&self) -> (r: u32)
        requires
            self.wf(),
        ensures
            r == crc32_of(self.fed()),
    {
        self.state
    }

    /// The checksum of the data fed so far.
    pub fn finalize(self) -> (r: u32)
        requires
            self.wf(),
        ensures
            r == crc32_of(self.fed()),
    {
        self.state
    }

    /// Forget all data fed so far.
    pub fn reset(&mut self)
        ensures
            final(self).wf(),
            final(self).fed() == Seq::<u8>::empty(),
    {
        let empty: Vec<u8> = Vec::new();
        let s = crc32_continue(0, empty.as_slice());
        proof {
            assert forall|more: Seq<u8>| #[trigger] crc32_update(s, more) == crc32_update(0, Seq::<u8>::empty() + more) by {
                assert(Seq::<u8>::empty() + more =~= more);
            }
        }
        self.state = s;
        self.fed = Ghost(Seq::empty());
    }

    /// Whether the data fed so far has the checksum `expected_crc`.
    pub fn validate(&self, expected_crc: u32) -> (r: bool)
        requires
            self.wf(),
        ensures
            r == (crc32_of(self.fed()) == expected_crc),
    {
        self.clone_finalize() == expected_crc
    }
}

impl Default for Crc32Hasher {
    fn default() -> (h: Self)
        ensures
            h.wf(),
            h.fed() == Seq::<u8>::empty(),
    {
        Self::new()
    }
}

} // verus!
