use vstd::prelude::*;
use vstd::string::StrSliceExecFns;
use vstd::string::StringSliceAdditionalSpecFns;

verus! {

/// Whether `s` begins with `prefix`.
pub open spec fn has_prefix(s: Seq<char>, prefix: Seq<char>) -> bool {
    prefix.len() <= s.len() && s.subrange(0, prefix.len() as int) == prefix
}

/// Whether `s` begins with `prefix` (as `str::starts_with` with a string
/// pattern).
pub fn starts_with(s: &str, prefix: &str) -> (r: bool)
    ensures
        r == has_prefix(s@, prefix@),
{
    let n = s.unicode_len();
    let m = prefix.unicode_len();
    if m > n {
        return false;
    }
    let mut i: usize = 0;
    while i < m
        invariant
            i <= m <= n,
            n == s@.len(),
            m == prefix@.len(),
            s@.subrange(0, i as int) == prefix@.subrange(0, i as int),
        decreases m - i,
    {
        if s.get_char(i) != prefix.get_char(i) {
            proof {
                if has_prefix(s@, prefix@) {
                    assert(s@.subrange(0, m as int)[i as int] == s@[i as int]);
                }
            }
            return false;
        }
        proof {
            assert(s@.subrange(0, i + 1) =~= s@.subrange(0, i as int).push(s@[i as int]));
            assert(prefix@.subrange(0, i + 1) =~= prefix@.subrange(0, i as int).push(
                prefix@[i as int],
            ));
        }
        i = i + 1;
    }
    assert(prefix@.subrange(0, m as int) =~= prefix@);
    true
}

/// Whether the two strings are equal.
pub fn str_eq(a: &str, b: &str) -> (r: bool)
    ensures
        r == (a@ == b@),
{
    let n = a.unicode_len();
    let m = b.unicode_len();
    if n != m {
        return false;
    }
    let r = starts_with(a, b);
    proof {
        if r {
            assert(a@.subrange(0, m as int) =~= a@);
        } else {
            if a@ == b@ {
                assert(a@.subrange(0, m as int) =~= b@);
            }
        }
    }
    r
}

/// The part of `s` after its first `k` characters, as an owned string.
pub fn skip_chars(s: &str, k: usize) -> (r: String)
    requires
        k <= s@.len(),
    ensures
        r@ == s@.skip(k as int),
{
    let n = s.unicode_len();
    let rest = s.substring_char(k, n);
    assert(s@.subrange(k as int, n as int) =~= s@.skip(k as int));
    <String as vstd::string::StringExecFns>::from_str(rest)
}

/// An owned copy of `s`.
pub fn to_owned_string(s: &str) -> (r: String)
    ensures
        r@ == s@,
{
    <String as vstd::string::StringExecFns>::from_str(s)
}

/// Appends `b` to `a`.
pub fn push_str(a: &mut String, b: &str)
    ensures
        final(a)@ == old(a)@ + b@,
{
    vstd::string::StringExecFns::append(a, b);
}

} // verus!

verus! {

/// Calls `String::from_utf8`. Claims what its documentation says: the
/// bytes are accepted exactly when they are valid UTF-8, and then the text
/// is what they encode.
#[verifier::external_body]
pub(crate) fn utf8_strict(bytes: Vec<u8>) -> (r: Option<String>)
    ensures
        r is Some <==> vstd::utf8::valid_utf8(bytes@),
        r matches Some(s) ==> s@ == vstd::utf8::decode_utf8(bytes@),
{
    String::from_utf8(bytes).ok()
}

/// The text `String::from_utf8_lossy` makes of `bytes`.
pub uninterp spec fn lossy_text(bytes: Seq<u8>) -> Seq<char>;

/// Calls `String::from_utf8_lossy(bytes)` and takes ownership of the text.
/// Claims: the result is the text named by `lossy_text(bytes)`, and for
/// valid UTF-8 it is exactly the decoded text (its documentation: invalid
/// sequences are replaced, valid input is returned unchanged).
#[verifier::external_body]
pub(crate) fn utf8_lossy(bytes: &[u8]) -> (r: String)
    ensures
        r@ == lossy_text(bytes@),
        vstd::utf8::valid_utf8(bytes@) ==> r@ == vstd::utf8::decode_utf8(bytes@),
{
    String::from_utf8_lossy(bytes).into_owned()
}

/// The UTF-8 bytes of a string, as an owned vector.
pub fn string_bytes(s: &str) -> (r: Vec<u8>)
    ensures
        r@ == s.spec_bytes(),
{
    let b = s.as_bytes();
    let mut out: Vec<u8> = Vec::new();
    crate::wire::append_all(&mut out, b);
    assert(Seq::<u8>::empty() + b@ =~= b@);
    out
}

/// The characters of a lower-case hex numeral, zero-padded to at least
/// `w` digits.
pub open spec fn hex_chars(n: nat, w: nat) -> Seq<char> {
    ascii_chars(crate::hex::hex_padded(n, w))
}

/// Appends the lower-case hex numeral of `n`, zero-padded to at least
/// `width` digits.
pub fn push_hex_str(s: &mut String, n: u64, width: usize)
    requires
        width <= 64,
    ensures
        final(s)@ == old(s)@ + hex_chars(n as nat, width as nat),
{
    let mut digits: Vec<u8> = Vec::new();
    crate::hex::push_hex(&mut digits, n, width);
    assert(digits@ =~= crate::hex::hex_padded(n as nat, width as nat));
    proof {
        assert forall|i: int| 0 <= i < digits@.len() implies is_digit_char(#[trigger] digits@[i]) by {
            crate::hex::lemma_hex_padded_digits(n as nat, width as nat, i);
        }
    }
    push_digit_chars(s, &digits);
}

/// A byte that is an ASCII decimal digit or a lower-case letter a-f.
pub open spec fn is_digit_char(b: u8) -> bool {
    (48 <= b <= 57) || (97 <= b <= 102)
}

/// The characters of the ASCII bytes `b`.
pub open spec fn ascii_chars(b: Seq<u8>) -> Seq<char> {
    b.map_values(|x: u8| x as char)
}

/// Appends the digit characters `digits` to `s`.
pub fn push_digit_chars(s: &mut String, digits: &Vec<u8>)
    requires
        forall|i: int| 0 <= i < digits@.len() ==> is_digit_char(#[trigger] digits@[i]),
    ensures
        final(s)@ == old(s)@ + ascii_chars(digits@),
{
    let ghost start = s@;
    let mut i: usize = 0;
    while i < digits.len()
        invariant
            i <= digits@.len(),
            forall|i: int| 0 <= i < digits@.len() ==> is_digit_char(#[trigger] digits@[i]),
            s@ == start + ascii_chars(digits@.take(i as int)),
        decreases digits@.len() - i,
    {
        let d = digits[i];
        let piece: &str = hex_digit_str(d);
        push_str(s, piece);
        proof {
            assert(ascii_chars(digits@.take(i + 1)) =~= ascii_chars(digits@.take(i as int)).push(
                d as char,
            ));
        }
        i = i + 1;
    }
    assert(digits@.take(digits@.len() as int) =~= digits@);
}

/// The decimal digits of `n`, as ASCII bytes.
pub open spec fn dec_digits(n: nat) -> Seq<u8>
    decreases n,
{
    if n < 10 {
        seq![(48 + n) as u8]
    } else {
        dec_digits(n / 10).push((48 + n % 10) as u8)
    }
}

/// The decimal numeral of `n` (what `format!("{}", n)` prints).
pub open spec fn dec_chars(n: nat) -> Seq<char> {
    ascii_chars(dec_digits(n))
}

proof fn lemma_dec_digits_are_digits(n: nat, i: int)
    requires
        0 <= i < dec_digits(n).len(),
    ensures
        48 <= dec_digits(n)[i] <= 57,
    decreases n,
{
    if n >= 10 && i < dec_digits(n).len() - 1 {
        lemma_dec_digits_are_digits(n / 10, i);
    }
}

/// A numeral has at least one digit.
proof fn lemma_dec_digits_nonempty(n: nat)
    ensures
        dec_digits(n).len() >= 1,
    decreases n,
{
    if n >= 10 {
        lemma_dec_digits_nonempty(n / 10);
    }
}

/// Different numbers have different numerals.
pub proof fn lemma_dec_chars_injective(n: nat, m: nat)
    requires
        dec_chars(n) == dec_chars(m),
    ensures
        n == m,
    decreases n,
{
    lemma_dec_digits_nonempty(n);
    lemma_dec_digits_nonempty(m);
    let a = dec_digits(n);
    let b = dec_digits(m);
    assert(a.len() == dec_chars(n).len());
    assert(b.len() == dec_chars(m).len());
    assert forall|i: int| 0 <= i < a.len() implies a[i] == b[i] by {
        assert(dec_chars(n)[i] == a[i] as char);
        assert(dec_chars(m)[i] == b[i] as char);
    }
    assert(a =~= b);
    if n < 10 && m < 10 {
        assert(a[0] == b[0]);
    } else if n < 10 {
        lemma_dec_digits_nonempty(m / 10);
    } else if m < 10 {
        lemma_dec_digits_nonempty(n / 10);
    } else {
        assert(a.drop_last() =~= dec_digits(n / 10));
        assert(b.drop_last() =~= dec_digits(m / 10));
        assert(a.last() == b.last());
        assert(dec_chars(n / 10) =~= dec_chars(m / 10));
        lemma_dec_chars_injective(n / 10, m / 10);
    }
}

/// Appends the decimal digits of `n`.
pub fn push_dec(out: &mut Vec<u8>, n: u64)
    ensures
        final(out)@ == old(out)@ + dec_digits(n as nat),
{
    let mut digits: Vec<u8> = Vec::new();
    let mut m: u64 = n;
    while m >= 10
        invariant
            dec_digits(n as nat) == dec_digits(m as nat) + digits@,
        decreases m,
    {
        let d: u8 = (48 + m % 10) as u8;
        proof {
            assert(dec_digits(m as nat) == dec_digits((m / 10) as nat).push(d));
            assert(dec_digits((m / 10) as nat).push(d) + digits@ =~= dec_digits((m / 10) as nat) + seq![d].add(digits@));
        }
        digits.insert(0, d);
        m = m / 10;
    }
    let d: u8 = (48 + m) as u8;
    proof {
        assert(dec_digits(m as nat) == seq![d]);
        assert(seq![d] + digits@ =~= seq![d].add(digits@));
    }
    digits.insert(0, d);
    assert(digits@ =~= dec_digits(n as nat));
    crate::wire::append_all(out, digits.as_slice());
}

/// Appends the decimal numeral of `n`.
pub fn push_dec_str(s: &mut String, n: u64)
    ensures
        final(s)@ == old(s)@ + dec_chars(n as nat),
{
    let mut digits: Vec<u8> = Vec::new();
    push_dec(&mut digits, n);
    assert(digits@ =~= dec_digits(n as nat));
    proof {
        assert forall|i: int| 0 <= i < digits@.len() implies is_digit_char(#[trigger] digits@[i]) by {
            lemma_dec_digits_are_digits(n as nat, i);
        }
    }
    push_digit_chars(s, &digits);
}

fn hex_digit_str(d: u8) -> (r: &'static str)
    requires
        (48 <= d <= 57) || (97 <= d <= 102),
    ensures
        r@ == seq![d as char],
{
    proof {
        reveal_strlit("0"); reveal_strlit("1"); reveal_strlit("2"); reveal_strlit("3");
        reveal_strlit("4"); reveal_strlit("5"); reveal_strlit("6"); reveal_strlit("7");
        reveal_strlit("8"); reveal_strlit("9"); reveal_strlit("a"); reveal_strlit("b");
        reveal_strlit("c"); reveal_strlit("d"); reveal_strlit("e"); reveal_strlit("f");
    }
    let r = if d == 48 { "0" } else if d == 49 { "1" } else if d == 50 { "2" } else if d == 51 { "3" }
    else if d == 52 { "4" } else if d == 53 { "5" } else if d == 54 { "6" } else if d == 55 { "7" }
    else if d == 56 { "8" } else if d == 57 { "9" } else if d == 97 { "a" } else if d == 98 { "b" }
    else if d == 99 { "c" } else if d == 100 { "d" } else if d == 101 { "e" } else { "f" };
    assert(r@ =~= seq![d as char]);
    r
}

} // verus!

verus! {

/// Whether `t` occurs in `s`.
pub open spec fn has_substring(s: Seq<char>, t: Seq<char>) -> bool {
    exists|i: int| 0 <= i && i + t.len() <= s.len() && #[trigger] s.subrange(i, i + t.len()) == t
}

/// Whether `t` occurs in `s` (as `str::contains` with a string pattern).
pub fn contains_str(s: &str, t: &str) -> (r: bool)
    ensures
        r == has_substring(s@, t@),
{
    let n = s.unicode_len();
    let m = t.unicode_len();
    if m > n {
        proof {
            if has_substring(s@, t@) {
                let i = choose|i: int| 0 <= i && i + t@.len() <= s@.len() && #[trigger] s@.subrange(i, i + t@.len()) == t@;
            }
        }
        return false;
    }
    if m == 0 {
        assert(s@.subrange(0, 0 + t@.len() as int) =~= t@);
        return true;
    }
    let mut i: usize = 0;
    while i <= n - m
        invariant
            1 <= m <= n,
            n == s@.len(),
            m == t@.len(),
            i <= n - m + 1,
            forall|j: int| 0 <= j < i ==> #[trigger] s@.subrange(j, j + m) != t@,
        decreases n - m + 1 - i,
    {
        let mut k: usize = 0;
        let mut same = true;
        assert(s@.subrange(i as int, i as int) =~= t@.subrange(0, 0));
        while k < m
            invariant
                k <= m,
                i + m <= n,
                n == s@.len(),
                m == t@.len(),
                same == (s@.subrange(i as int, i + k) == t@.subrange(0, k as int)),
            decreases m - k,
        {
            if same && s.get_char(i + k) != t.get_char(k) {
                proof {
                    if s@.subrange(i as int, i + k + 1) == t@.subrange(0, k + 1) {
                        assert(s@.subrange(i as int, i + k + 1)[k as int] == t@.subrange(0, k + 1)[k as int]);
                    }
                }
                same = false;
            } else if same {
                proof {
                    assert(s@.subrange(i as int, i + k + 1) =~= s@.subrange(i as int, i + k).push(s@[i + k]));
                    assert(t@.subrange(0, k + 1) =~= t@.subrange(0, k as int).push(t@[k as int]));
                }
            } else {
                proof {
                    if s@.subrange(i as int, i + k + 1) == t@.subrange(0, k + 1) {
                        assert(s@.subrange(i as int, i + k) =~= s@.subrange(i as int, i + k + 1).subrange(0, k as int));
                        assert(t@.subrange(0, k as int) =~= t@.subrange(0, k + 1).subrange(0, k as int));
                    }
                }
            }
            k = k + 1;
        }
        assert(t@.subrange(0, m as int) =~= t@);
        if same {
            return true;
        }
        i = i + 1;
    }
    proof {
        if has_substring(s@, t@) {
            let w = choose|w: int| 0 <= w && w + t@.len() <= s@.len() && #[trigger] s@.subrange(w, w + t@.len()) == t@;
            assert(s@.subrange(w, w + m) != t@);
        }
    }
    false
}

/// The predicate "differs from `c`".
pub open spec fn other_than(c: char) -> spec_fn(char) -> bool {
    |x: char| x != c
}

/// The predicate "equals `c`".
pub open spec fn same_as(c: char) -> spec_fn(char) -> bool {
    |x: char| x == c
}

/// `s` with every occurrence of `c` removed.
pub open spec fn without_char(s: Seq<char>, c: char) -> Seq<char> {
    s.filter(other_than(c))
}

/// The number of occurrences of `c` in `s`.
pub open spec fn count_char(s: Seq<char>, c: char) -> nat {
    s.filter(same_as(c)).len()
}

/// `s` without the character `c`, and how many times `c` occurred.
pub fn remove_char(s: &str, c: char) -> (r: (String, usize))
    ensures
        r.0@ == without_char(s@, c),
        r.1 == count_char(s@, c),
{
    let n = s.unicode_len();
    let mut out = to_owned_string("");
    proof {
        reveal_strlit("");
        assert(s@.take(0) =~= Seq::<char>::empty());
        reveal(Seq::filter);
    }
    let mut count: usize = 0;
    let mut i: usize = 0;
    while i < n
        invariant
            i <= n,
            n == s@.len(),
            count <= i,
            out@ == without_char(s@.take(i as int), c),
            count == count_char(s@.take(i as int), c),
        decreases n - i,
    {
        let ch = s.get_char(i);
        let piece = s.substring_char(i, i + 1);
        proof {
            assert(s@.take(i + 1) =~= s@.take(i as int).push(ch));
            s@.take(i as int).lemma_filter_push(ch, other_than(c));
            s@.take(i as int).lemma_filter_push(ch, same_as(c));
            assert(piece@ =~= seq![ch]);
        }
        if ch != c {
            push_str(&mut out, piece);
        } else {
            proof {
                s@.take(i as int).lemma_filter_len(same_as(c));
            }
            count = count + 1;
        }
        i = i + 1;
    }
    assert(s@.take(n as int) =~= s@);
    (out, count)
}


/// Whether `c` is an ASCII decimal digit.
pub open spec fn is_dec_digit(c: char) -> bool {
    '0' <= c && c <= '9'
}

/// The value of the decimal digits `s`, most significant first.
pub open spec fn dec_value(s: Seq<char>) -> nat
    decreases s.len(),
{
    if s.len() == 0 {
        0
    } else {
        dec_value(s.drop_last()) * 10 + ((s.last() as int - '0' as int) as nat)
    }
}

/// Whether every character of `s` is a decimal digit.
pub open spec fn all_dec_digits(s: Seq<char>) -> bool {
    forall|i: int| 0 <= i < s.len() ==> is_dec_digit(#[trigger] s[i])
}

/// What `str::parse` gives for an unsigned integer, before the range check:
/// an optional `+`, then one or more decimal digits.
pub open spec fn parse_unsigned(s: Seq<char>) -> Option<nat> {
    let body = if s.len() > 0 && s[0] == '+' { s.drop_first() } else { s };
    if body.len() > 0 && all_dec_digits(body) {
        Some(dec_value(body))
    } else {
        None
    }
}

/// The unsigned integer of at most `max` that `s` spells, if any.
pub open spec fn parse_bounded(s: Seq<char>, max: nat) -> Option<nat> {
    match parse_unsigned(s) {
        Some(v) => if v <= max { Some(v) } else { None },
        None => None,
    }
}

proof fn lemma_dec_value_grows(s: Seq<char>, k: int)
    requires
        0 <= k <= s.len(),
        forall|i: int| 0 <= i < s.len() ==> is_dec_digit(#[trigger] s[i]),
    ensures
        dec_value(s.take(k)) <= dec_value(s),
    decreases s.len() - k,
{
    if k < s.len() {
        lemma_dec_value_grows(s, k + 1);
        assert(s.take(k + 1).drop_last() =~= s.take(k));
    } else {
        assert(s.take(k) =~= s);
    }
}

/// Parses `s` as an unsigned decimal integer of at most `max`, as
/// `str::parse::<u8>`, `u16`, `u32` or `u64` do for their own maximum.
pub fn parse_uint(s: &str, max: u64) -> (r: Option<u64>)
    ensures
        match parse_bounded(s@, max as nat) {
            Some(v) => r == Some(v as u64),
            None => r is None,
        },
{
    let n = s.unicode_len();
    let mut start: usize = 0;
    if n > 0 && s.get_char(0) == '+' {
        start = 1;
    }
    let ghost body = if s@.len() > 0 && s@[0] == '+' { s@.drop_first() } else { s@ };
    assert(body =~= s@.skip(start as int));
    if start >= n {
        return None;
    }
    let mut acc: u64 = 0;
    let mut i: usize = start;
    while i < n
        invariant
            start <= i <= n,
            n == s@.len(),
            body =~= s@.skip(start as int),
            body == (if s@.len() > 0 && s@[0] == '+' { s@.drop_first() } else { s@ }),
            body.len() > 0,
            acc <= max,
            acc == dec_value(body.take(i - start)),
            forall|j: int| 0 <= j < i - start ==> is_dec_digit(#[trigger] body[j]),
        decreases n - i,
    {
        let c = s.get_char(i);
        if c < '0' || c > '9' {
            proof {
                assert(body[i - start] == s@[i as int]);
                assert(!is_dec_digit(body[i - start]));
                assert(!all_dec_digits(body));
                assert(parse_unsigned(s@) is None);
            }
            return None;
        }
        let d: u64 = (c as u32 - '0' as u32) as u64;
        proof {
            assert(body.take(i - start + 1).drop_last() =~= body.take(i - start));
            assert(body.take(i - start + 1).last() == c);
        }
        if d > max || acc > (max - d) / 10 {
            proof {
                assert(acc * 10 + d > max) by (nonlinear_arith)
                    requires d > max || acc > (max - d) / 10, acc >= 0;
                if all_dec_digits(body) {
                    lemma_dec_value_grows(body, i - start + 1);
                    assert(dec_value(body) > max);
                    assert(parse_unsigned(s@) == Some(dec_value(body)));
                } else {
                    assert(parse_unsigned(s@) is None);
                }
            }
            return None;
        }
        acc = acc * 10 + d;
        i = i + 1;
    }
    assert(body.take(n - start) =~= body);
    Some(acc)
}


/// The position of the first `c` in `s`, if any.
pub open spec fn index_of_char(s: Seq<char>, c: char) -> Option<int> {
    if exists|i: int| 0 <= i < s.len() && s[i] == c {
        Some(choose|i: int| 0 <= i < s.len() && s[i] == c && forall|j: int| 0 <= j < i ==> s[j] != c)
    } else {
        None
    }
}

/// The position of the first `c` in `s` (as `str::find` with a `char`).
pub fn find_char(s: &str, c: char) -> (r: Option<usize>)
    ensures
        match r {
            Some(i) => index_of_char(s@, c) == Some(i as int) && i < s@.len(),
            None => index_of_char(s@, c) is None,
        },
{
    let n = s.unicode_len();
    let mut i: usize = 0;
    while i < n
        invariant
            i <= n,
            n == s@.len(),
            forall|j: int| 0 <= j < i ==> s@[j] != c,
        decreases n - i,
    {
        if s.get_char(i) == c {
            proof {
                assert(exists|k: int| 0 <= k < s@.len() && s@[k] == c);
                let w = choose|k: int| 0 <= k < s@.len() && s@[k] == c && forall|j: int| 0 <= j < k ==> s@[j] != c;
                assert(0 <= i < s@.len() && s@[i as int] == c && forall|j: int| 0 <= j < i ==> s@[j] != c);
                if w < i {
                    assert(s@[w] != c);
                } else if w > i {
                    assert(s@[i as int] != c);
                }
            }
            return Some(i);
        }
        i = i + 1;
    }
    None
}


/// The position of the last `c` in `s`, if any.
pub open spec fn last_index_of_char(s: Seq<char>, c: char) -> Option<int> {
    if exists|i: int| 0 <= i < s.len() && s[i] == c {
        Some(choose|i: int| 0 <= i < s.len() && s[i] == c && forall|j: int| i < j < s.len() ==> s[j] != c)
    } else {
        None
    }
}

/// The position of the last `c` in `s` (as `str::rfind` with a `char`).
pub fn rfind_char(s: &str, c: char) -> (r: Option<usize>)
    ensures
        match r {
            Some(i) => last_index_of_char(s@, c) == Some(i as int) && i < s@.len(),
            None => last_index_of_char(s@, c) is None,
        },
{
    let n = s.unicode_len();
    let mut i: usize = n;
    while i > 0
        invariant
            i <= n,
            n == s@.len(),
            forall|j: int| i <= j < n ==> s@[j] != c,
        decreases i,
    {
        if s.get_char(i - 1) == c {
            let k = i - 1;
            proof {
                assert(exists|x: int| 0 <= x < s@.len() && s@[x] == c) by {
                    assert(s@[k as int] == c);
                }
                let w = choose|x: int| 0 <= x < s@.len() && s@[x] == c && forall|j: int| x < j < s@.len() ==> s@[j] != c;
                assert(0 <= k < s@.len() && s@[k as int] == c && forall|j: int| k < j < s@.len() ==> s@[j] != c);
                if w < k {
                    assert(s@[k as int] != c);
                } else if w > k {
                    assert(s@[w] != c);
                }
            }
            return Some(k);
        }
        i = i - 1;
    }
    None
}

/// The pieces of `s` between occurrences of `c` (as `str::split` with a
/// `char`): one more piece than there are `c`s.
pub open spec fn split_on(s: Seq<char>, c: char) -> Seq<Seq<char>>
    decreases s.len(),
{
    if s.len() == 0 {
        seq![Seq::<char>::empty()]
    } else {
        let p = split_on(s.drop_last(), c);
        if s.last() == c {
            p.push(Seq::<char>::empty())
        } else {
            p.update(p.len() - 1, p.last().push(s.last()))
        }
    }
}

/// `split_on` never gives an empty list.
pub proof fn lemma_split_on_nonempty(s: Seq<char>, c: char)
    ensures
        split_on(s, c).len() >= 1,
    decreases s.len(),
{
    if s.len() > 0 {
        lemma_split_on_nonempty(s.drop_last(), c);
    }
}


/// Whether `c` has the Unicode `White_Space` property (as
/// `char::is_whitespace`).
pub open spec fn is_white_space(c: char) -> bool {
    ('\u{9}' <= c && c <= '\u{d}') || c == ' ' || c == '\u{85}' || c == '\u{a0}'
        || c == '\u{1680}' || ('\u{2000}' <= c && c <= '\u{200a}') || c == '\u{2028}'
        || c == '\u{2029}' || c == '\u{202f}' || c == '\u{205f}' || c == '\u{3000}'
}

/// Whether `c` has the Unicode `White_Space` property.
pub fn white_space(c: char) -> (r: bool)
    ensures
        r == is_white_space(c),
{
    ('\u{9}' <= c && c <= '\u{d}') || c == ' ' || c == '\u{85}' || c == '\u{a0}'
        || c == '\u{1680}' || ('\u{2000}' <= c && c <= '\u{200a}') || c == '\u{2028}'
        || c == '\u{2029}' || c == '\u{202f}' || c == '\u{205f}' || c == '\u{3000}'
}

/// `s` without its leading white space.
pub open spec fn trim_start_ws(s: Seq<char>) -> Seq<char>
    decreases s.len(),
{
    if s.len() > 0 && is_white_space(s[0]) {
        trim_start_ws(s.drop_first())
    } else {
        s
    }
}

/// `s` without its trailing white space.
pub open spec fn trim_end_ws(s: Seq<char>) -> Seq<char>
    decreases s.len(),
{
    if s.len() > 0 && is_white_space(s.last()) {
        trim_end_ws(s.drop_last())
    } else {
        s
    }
}

/// `s` without its leading and trailing white space (as `str::trim`).
pub open spec fn trim_ws(s: Seq<char>) -> Seq<char> {
    trim_end_ws(trim_start_ws(s))
}

/// `s` without its leading and trailing white space (as `str::trim`).
pub fn trim(s: &str) -> (r: &str)
    ensures
        r@ == trim_ws(s@),
{
    let n = s.unicode_len();
    let mut a: usize = 0;
    assert(s@.skip(0) =~= s@);
    while a < n && white_space(s.get_char(a))
        invariant
            a <= n,
            n == s@.len(),
            trim_start_ws(s@) == trim_start_ws(s@.skip(a as int)),
        decreases n - a,
    {
        assert(s@.skip(a as int).drop_first() =~= s@.skip(a + 1));
        a = a + 1;
    }
    assert(trim_start_ws(s@) == s@.skip(a as int));
    assert(s@.skip(a as int) =~= s@.subrange(a as int, n as int));
    let mut b: usize = n;
    while b > a && white_space(s.get_char(b - 1))
        invariant
            a <= b <= n,
            n == s@.len(),
            trim_ws(s@) == trim_end_ws(s@.subrange(a as int, b as int)),
        decreases b - a,
    {
        assert(s@.subrange(a as int, b as int).drop_last() =~= s@.subrange(a as int, b - 1));
        b = b - 1;
    }
    s.substring_char(a, b)
}

} // verus!
