use vstd::prelude::*;

verus! {

/// The lower-case ASCII hex digit for `d` (`d < 16`).
pub open spec fn hex_digit(d: nat) -> u8 {
    if d < 10 {
        (48 + d) as u8
    } else {
        (87 + d) as u8
    }
}

/// Exactly `w` lower-case hex digits of `n`: its lowest `w` digits, most
/// significant first.
pub open spec fn hex_fixed(n: nat, w: nat) -> Seq<u8>
    decreases w,
{
    if w == 0 {
        Seq::empty()
    } else {
        hex_fixed(n / 16, (w - 1) as nat).push(hex_digit(n % 16))
    }
}

/// The number of hex digits of `n` (at least one).
pub open spec fn hex_len(n: nat) -> nat
    decreases n,
{
    if n < 16 {
        1
    } else {
        1 + hex_len(n / 16)
    }
}

/// `n` in lower-case hex, padded with zeros to at least `w` digits (what
/// `format!("{:0w$x}", n)` prints).
pub open spec fn hex_padded(n: nat, w: nat) -> Seq<u8> {
    hex_fixed(n, if w < hex_len(n) { hex_len(n) } else { w })
}

/// The value of one ASCII hex digit, either case.
pub open spec fn hex_value(c: u8) -> Option<nat> {
    if 48 <= c <= 57 {
        Some((c - 48) as nat)
    } else if 97 <= c <= 102 {
        Some((c - 87) as nat)
    } else if 65 <= c <= 70 {
        Some((c - 55) as nat)
    } else {
        None
    }
}

/// The value of a non-empty run of hex digits, or `None`.
pub open spec fn hex_digits_value(s: Seq<u8>) -> Option<nat>
    decreases s.len(),
{
    if s.len() == 0 {
        None
    } else if s.len() == 1 {
        hex_value(s[0])
    } else {
        match (hex_digits_value(s.drop_last()), hex_value(s.last())) {
            (Some(a), Some(b)) => Some(a * 16 + b),
            _ => None,
        }
    }
}

/// What `from_str_radix(s, 16)` accepts for an unsigned type wide enough for
/// the value: an optional `+` followed by at least one hex digit.
pub open spec fn parse_hex(s: Seq<u8>) -> Option<nat> {
    if s.len() > 0 && s[0] == 43 {
        hex_digits_value(s.drop_first())
    } else {
        hex_digits_value(s)
    }
}

proof fn lemma_hex_value_digit(d: nat)
    requires
        d < 16,
    ensures
        hex_value(hex_digit(d)) == Some(d),
{
}

/// Hex digits read back as the number they were written for.
pub proof fn lemma_hex_fixed_value(n: nat, w: nat)
    requires
        w >= 1,
        n < pow16(w),
    ensures
        hex_digits_value(hex_fixed(n, w)) == Some(n),
        hex_fixed(n, w).len() == w,
    decreases w,
{
    lemma_hex_fixed_len(n, w);
    lemma_hex_value_digit(n % 16);
    if w == 1 {
        assert(n / 16 == 0);
        assert(hex_fixed(n, 1) =~= seq![hex_digit(n % 16)]);
    } else {
        lemma_pow16_div(n, (w - 1) as nat);
        lemma_hex_fixed_value(n / 16, (w - 1) as nat);
        let s = hex_fixed(n, w);
        assert(s.drop_last() =~= hex_fixed(n / 16, (w - 1) as nat));
        assert(s.last() == hex_digit(n % 16));
        assert((n / 16) * 16 + n % 16 == n) by (nonlinear_arith);
    }
}

pub proof fn lemma_hex_fixed_len(n: nat, w: nat)
    ensures
        hex_fixed(n, w).len() == w,
    decreases w,
{
    if w > 0 {
        lemma_hex_fixed_len(n / 16, (w - 1) as nat);
    }
}

/// 16 to the power `w`.
pub open spec fn pow16(w: nat) -> nat
    decreases w,
{
    if w == 0 {
        1
    } else {
        16 * pow16((w - 1) as nat)
    }
}

proof fn lemma_pow16_div(n: nat, w: nat)
    requires
        n < pow16(w + 1),
    ensures
        n / 16 < pow16(w),
{
    assert(pow16(w + 1) == 16 * pow16(w));
    assert(n / 16 < pow16(w)) by (nonlinear_arith)
        requires
            n < 16 * pow16(w),
    ;
}

/// A value with at most `w` hex digits is printed in exactly `w` digits when
/// padded to `w`.
pub proof fn lemma_hex_len_bound(n: nat, w: nat)
    requires
        w >= 1,
        n < pow16(w),
    ensures
        hex_len(n) <= w,
    decreases w,
{
    if n >= 16 {
        lemma_pow16_div(n, (w - 1) as nat);
        if w == 1 {
            assert(false);
        } else {
            lemma_hex_len_bound(n / 16, (w - 1) as nat);
        }
    }
}

/// Appends the hex digits of `n`, zero-padded to at least `width` digits.
pub fn push_hex(out: &mut Vec<u8>, n: u64, width: usize)
    requires
        width <= 64,
    ensures
        final(out)@ == old(out)@ + hex_padded(n as nat, width as nat),
{
    // count the digits of n
    let mut count: usize = 1;
    let mut x: u64 = n;
    proof {
        lemma_hex_len_le16(n);
    }
    while x >= 16
        invariant
            1 <= count <= 16,
            hex_len(n as nat) <= 16,
            hex_len(n as nat) == (count - 1) + hex_len(x as nat),
        decreases x,
    {
        proof {
            lemma_hex_len_pos((x / 16) as nat);
        }
        x = x / 16;
        count = count + 1;
    }
    let total: usize = if width < count { count } else { width };
    let ghost goal = hex_padded(n as nat, width as nat);
    assert(goal == hex_fixed(n as nat, total as nat));
    let mut digits: Vec<u8> = Vec::new();
    let mut m: u64 = n;
    let mut i: usize = 0;
    while i < total
        invariant
            i <= total,
            total <= 64,
            hex_fixed(n as nat, total as nat) == hex_fixed(m as nat, (total - i) as nat) + digits@,
        decreases total - i,
    {
        let d: u8 = (m % 16) as u8;
        let c: u8 = if d < 10 { 48 + d } else { 87 + d };
        proof {
            assert(c == hex_digit((m as nat) % 16));
            assert(hex_fixed(m as nat, (total - i) as nat) == hex_fixed(
                (m / 16) as nat,
                (total - i - 1) as nat,
            ).push(c));
            assert(hex_fixed((m / 16) as nat, (total - i - 1) as nat).push(c) + digits@
                =~= hex_fixed((m / 16) as nat, (total - i - 1) as nat) + seq![c].add(digits@));
        }
        digits.insert(0, c);
        m = m / 16;
        i = i + 1;
    }
    assert(hex_fixed(m as nat, 0) =~= Seq::<u8>::empty());
    assert(digits@ =~= goal);
    let mut j: usize = 0;
    let ghost start = out@;
    while j < digits.len()
        invariant
            j <= digits@.len(),
            out@ == start + digits@.take(j as int),
        decreases digits@.len() - j,
    {
        out.push(digits[j]);
        proof {
            assert(digits@.take(j + 1) =~= digits@.take(j as int).push(digits@[j as int]));
        }
        j = j + 1;
    }
    assert(digits@.take(digits@.len() as int) =~= digits@);
}

proof fn lemma_hex_len_le16(x: u64)
    ensures
        hex_len(x as nat) <= 16,
{
    lemma_pow16_16();
    lemma_hex_len_bound(x as nat, 16);
}

proof fn lemma_hex_len_pos(x: nat)
    ensures
        hex_len(x) >= 1,
{
}

proof fn lemma_pow16_16()
    ensures
        pow16(16) == 0x1_0000_0000_0000_0000nat,
{
    reveal_with_fuel(pow16, 17);
}

/// Reads `s` as `from_str_radix(s, 16)` would for a type that holds every
/// value of `s.len() <= 8` digits: `None` where it fails.
pub fn parse_hex_bytes(s: &[u8]) -> (r: Option<u32>)
    requires
        s@.len() <= 8,
    ensures
        match r {
            Some(v) => parse_hex(s@) == Some(v as nat) && (v as nat) < pow16(s@.len()),
            None => parse_hex(s@) is None,
        },
{
    let mut start: usize = 0;
    if s.len() > 0 && s[0] == 43 {
        start = 1;
    }
    let ghost digits = s@.subrange(start as int, s@.len() as int);
    assert(start == 1 ==> digits =~= s@.drop_first());
    assert(start == 0 ==> digits =~= s@);
    assert(parse_hex(s@) == hex_digits_value(digits));
    if start >= s.len() {
        return None;
    }
    let mut value: u32 = 0;
    let mut i: usize = start;
    while i < s.len()
        invariant
            start < i || i == start,
            start <= i <= s@.len(),
            s@.len() <= 8,
            start < s@.len(),
            digits == s@.subrange(start as int, s@.len() as int),
            parse_hex(s@) == hex_digits_value(digits),
            i > start ==> hex_digits_value(s@.subrange(start as int, i as int)) == Some(value as nat),
            value < pow16((i - start) as nat),
        decreases s@.len() - i,
    {
        let c = s[i];
        let dv: u32;
        if 48 <= c && c <= 57 {
            dv = (c - 48) as u32;
        } else if 97 <= c && c <= 102 {
            dv = (c - 87) as u32;
        } else if 65 <= c && c <= 70 {
            dv = (c - 55) as u32;
        } else {
            proof {
                assert(digits[(i - start) as int] == c);
                lemma_hex_digits_none(digits, (i - start) as int);
            }
            return None;
        }
        assert(hex_value(c) == Some(dv as nat));
        proof {
            lemma_pow16_bound8((i - start) as nat);
            assert(pow16((i + 1 - start) as nat) == 16 * pow16((i - start) as nat));
            let sub = s@.subrange(start as int, i + 1);
            assert(sub.last() == c);
            if i > start {
                assert(sub.drop_last() =~= s@.subrange(start as int, i as int));
            } else {
                assert(sub.len() == 1);
                assert(value == 0);
            }
            assert(value * 16 + dv < 16 * pow16((i - start) as nat)) by (nonlinear_arith)
                requires
                    value < pow16((i - start) as nat),
                    dv < 16,
            ;
        }
        value = value * 16 + dv;
        i = i + 1;
    }
    assert(s@.subrange(start as int, s@.len() as int) =~= digits);
    proof {
        lemma_pow16_mono((s@.len() - start) as nat, s@.len());
    }
    Some(value)
}

proof fn lemma_pow16_bound8(k: nat)
    requires
        k < 8,
    ensures
        16 * pow16(k) <= 0x1_0000_0000,
{
    reveal_with_fuel(pow16, 9);
    if k == 0 {} else if k == 1 {} else if k == 2 {} else if k == 3 {} else if k == 4 {} else if k == 5 {} else if k == 6 {} else {}
}

proof fn lemma_pow16_mono(a: nat, b: nat)
    requires
        a <= b,
    ensures
        pow16(a) <= pow16(b),
    decreases b,
{
    if a < b {
        lemma_pow16_mono(a, (b - 1) as nat);
    }
}

/// No digit written by `hex_fixed` is a sign.
pub proof fn lemma_hex_fixed_no_sign(n: nat, w: nat, i: int)
    requires
        0 <= i < w,
    ensures
        hex_fixed(n, w)[i] != 43,
    decreases w,
{
    lemma_hex_fixed_len(n, w);
    lemma_hex_fixed_len(n / 16, (w - 1) as nat);
    if i < w - 1 {
        lemma_hex_fixed_no_sign(n / 16, (w - 1) as nat, i);
    }
}

/// A run with a non-digit has no value.
proof fn lemma_hex_digits_none(s: Seq<u8>, k: int)
    requires
        0 <= k < s.len(),
        hex_value(s[k]) is None,
    ensures
        hex_digits_value(s) is None,
    decreases s.len(),
{
    if s.len() == 1 {
    } else if k == s.len() - 1 {
    } else {
        lemma_hex_digits_none(s.drop_last(), k);
    }
}

} // verus!

verus! {

proof fn lemma_hex_fixed_digits(n: nat, w: nat, i: int)
    requires
        0 <= i < w,
    ensures
        (48 <= hex_fixed(n, w)[i] <= 57) || (97 <= hex_fixed(n, w)[i] <= 102),
    decreases w,
{
    lemma_hex_fixed_len(n, w);
    lemma_hex_fixed_len(n / 16, (w - 1) as nat);
    if i < w - 1 {
        lemma_hex_fixed_digits(n / 16, (w - 1) as nat, i);
    }
}

/// Every character `hex_padded` writes is a digit or a lower-case letter a-f.
pub proof fn lemma_hex_padded_digits(n: nat, w: nat, i: int)
    requires
        0 <= i < hex_padded(n, w).len(),
    ensures
        (48 <= hex_padded(n, w)[i] <= 57) || (97 <= hex_padded(n, w)[i] <= 102),
{
    let k = if w < hex_len(n) { hex_len(n) } else { w };
    lemma_hex_fixed_len(n, k);
    lemma_hex_fixed_digits(n, k, i);
}

} // verus!
