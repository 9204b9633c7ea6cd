use vstd::prelude::*;

verus! {

/// The four little-endian bytes of a 32-bit value.
pub open spec fn le32(v: u32) -> Seq<u8> {
    seq![
        (v & 0xff) as u8,
        ((v >> 8u32) & 0xff) as u8,
        ((v >> 16u32) & 0xff) as u8,
        ((v >> 24u32) & 0xff) as u8,
    ]
}

/// The 32-bit value whose little-endian bytes are `b0 b1 b2 b3`.
pub open spec fn from_le32(b0: u8, b1: u8, b2: u8, b3: u8) -> u32 {
    (b0 as u32) | ((b1 as u32) << 8u32) | ((b2 as u32) << 16u32) | ((b3 as u32) << 24u32)
}

/// The value read from the four bytes of `s` that start at `at`.
pub open spec fn read_le32(s: Seq<u8>, at: int) -> u32 {
    from_le32(s[at], s[at + 1], s[at + 2], s[at + 3])
}

/// Encoding a value and reading it back gives the value.
pub proof fn lemma_le32_roundtrip(v: u32)
    ensures
        from_le32(le32(v)[0], le32(v)[1], le32(v)[2], le32(v)[3]) == v,
{
    let b0 = (v & 0xff) as u8;
    let b1 = ((v >> 8u32) & 0xff) as u8;
    let b2 = ((v >> 16u32) & 0xff) as u8;
    let b3 = ((v >> 24u32) & 0xff) as u8;
    assert(((b0 as u32) | ((b1 as u32) << 8u32) | ((b2 as u32) << 16u32) | ((b3 as u32) << 24u32))
        == v) by (bit_vector)
        requires
            b0 == (v & 0xff) as u8,
            b1 == ((v >> 8u32) & 0xff) as u8,
            b2 == ((v >> 16u32) & 0xff) as u8,
            b3 == ((v >> 24u32) & 0xff) as u8,
    ;
}

/// Appends the little-endian bytes of `v` to `out`.
pub fn push_le32(out: &mut Vec<u8>, v: u32)
    ensures
        final(out)@ == old(out)@ + le32(v),
{
    out.push((v & 0xff) as u8);
    out.push(((v >> 8u32) & 0xff) as u8);
    out.push(((v >> 16u32) & 0xff) as u8);
    out.push(((v >> 24u32) & 0xff) as u8);
}

/// Reads the little-endian 32-bit value stored at `at` in `data`.
pub fn get_le32(data: &[u8], at: usize) -> (r: u32)
    requires
        at + 4 <= data@.len(),
    ensures
        r == read_le32(data@, at as int),
{
    (data[at] as u32) | ((data[at + 1] as u32) << 8u32) | ((data[at + 2] as u32) << 16u32) | ((
    data[at + 3] as u32) << 24u32)
}

} // verus!

verus! {

/// Appends `src[from..to]` to `out`.
pub fn append_range(out: &mut Vec<u8>, src: &[u8], from: usize, to: usize)
    requires
        from <= to <= src@.len(),
    ensures
        final(out)@ == old(out)@ + src@.subrange(from as int, to as int),
{
    let ghost start = out@;
    let mut i: usize = from;
    while i < to
        invariant
            from <= i <= to,
            to <= src@.len(),
            out@ == start + src@.subrange(from as int, i as int),
        decreases to - i,
    {
        out.push(src[i]);
        proof {
            assert(src@.subrange(from as int, i + 1) =~= src@.subrange(from as int, i as int).push(
                src@[i as int],
            ));
        }
        i = i + 1;
    }
}

/// A copy of `src[from..to]`.
pub fn copy_range(src: &[u8], from: usize, to: usize) -> (r: Vec<u8>)
    requires
        from <= to <= src@.len(),
    ensures
        r@ == src@.subrange(from as int, to as int),
{
    let mut out: Vec<u8> = Vec::new();
    append_range(&mut out, src, from, to);
    assert(Seq::<u8>::empty() + src@.subrange(from as int, to as int) =~= src@.subrange(
        from as int,
        to as int,
    ));
    out
}

/// Appends all of `src` to `out`.
pub fn append_all(out: &mut Vec<u8>, src: &[u8])
    ensures
        final(out)@ == old(out)@ + src@,
{
    append_range(out, src, 0, src.len());
    assert(src@.subrange(0, src@.len() as int) =~= src@);
}

/// Whether the four bytes of `s` at `at` are `a b c d`.
pub fn bytes4_at(s: &[u8], at: usize, a: u8, b: u8, c: u8, d: u8) -> (r: bool)
    requires
        at + 4 <= s@.len(),
    ensures
        r == (s@.subrange(at as int, at + 4) == seq![a, b, c, d]),
{
    let r = s[at] == a && s[at + 1] == b && s[at + 2] == c && s[at + 3] == d;
    proof {
        if r {
            assert(s@.subrange(at as int, at + 4) =~= seq![a, b, c, d]);
        } else {
            let sub = s@.subrange(at as int, at + 4);
            if sub == seq![a, b, c, d] {
                assert(sub[0] == a && sub[1] == b && sub[2] == c && sub[3] == d);
            }
        }
    }
    r
}

} // verus!
