//! Verified text utilities: the character-level operations that the rest of
//! the library states its contracts over. Working strings are handled as
//! `Vec<char>`, whose view is the same `Seq<char>` as that of `str`.

use vstd::prelude::*;

verus! {

/// ASCII lowercasing of one character.
pub open spec fn lower_char(c: char) -> char {
    if 'A' <= c && c <= 'Z' {
        ((c as u8) + 32) as char
    } else {
        c
    }
}

/// ASCII lowercasing of a character sequence.
pub open spec fn lower_seq(s: Seq<char>) -> Seq<char> {
    s.map_values(|c: char| lower_char(c))
}

/// `needle` occurs somewhere in `hay`.
pub open spec fn contains_seq(hay: Seq<char>, needle: Seq<char>) -> bool {
    exists|i: int|
        0 <= i && i + needle.len() <= hay.len() && #[trigger] hay.subrange(
            i,
            i + needle.len(),
        ) == needle
}

/// Whitespace, as the session-key grammar and the HTML collapser see it.
pub open spec fn is_ws_char(c: char) -> bool {
    c == ' ' || c == '\t' || c == '\n' || c == '\r'
}

/// The characters of a string slice, in order.
pub fn str_chars(s: &str) -> (v: Vec<char>)
    ensures
        v@ == s@,
{
    let n = s.unicode_len();
    let mut v: Vec<char> = Vec::new();
    for i in 0..n
        invariant
            n == s@.len(),
            v@ == s@.subrange(0, i as int),
    {
        v.push(s.get_char(i));
    }
    assert(v@ =~= s@);
    v
}

/// Character-wise equality of two string slices.
pub fn str_eq(a: &str, b: &str) -> (r: bool)
    ensures
        r == (a@ == b@),
{
    let na = a.unicode_len();
    let nb = b.unicode_len();
    if na != nb {
        return false;
    }
    for i in 0..na
        invariant
            na == a@.len() == b@.len(),
            forall|j: int| 0 <= j < i ==> a@[j] == b@[j],
    {
        if a.get_char(i) != b.get_char(i) {
            return false;
        }
    }
    assert(a@ =~= b@);
    true
}

/// Relies on `core::iter::Iterator::collect` for `String`: the returned
/// string holds exactly the given characters, in order.
#[verifier::external_body]
pub fn chars_to_string(v: &Vec<char>) -> (r: String)
    ensures
        r@ == v@,
{
    v.iter().collect()
}

/// Element-wise equality of two character vectors.
pub fn chars_eq(a: &Vec<char>, b: &Vec<char>) -> (r: bool)
    ensures
        r == (a@ == b@),
{
    if a.len() != b.len() {
        return false;
    }
    let n = a.len();
    for i in 0..n
        invariant
            n == a.len() == b.len(),
            forall|j: int| 0 <= j < i ==> a@[j] == b@[j],
    {
        if a[i] != b[i] {
            return false;
        }
    }
    assert(a@ =~= b@);
    true
}

/// Does `s` start with `prefix`?
pub fn starts_with_chars(s: &Vec<char>, prefix: &Vec<char>) -> (r: bool)
    ensures
        r == (prefix@.len() <= s@.len() && s@.subrange(0, prefix@.len() as int) == prefix@),
{
    if prefix.len() > s.len() {
        return false;
    }
    let n = prefix.len();
    for i in 0..n
        invariant
            n == prefix.len(),
            n <= s.len(),
            forall|j: int| 0 <= j < i ==> s@[j] == prefix@[j],
    {
        if s[i] != prefix[i] {
            assert(s@.subrange(0, prefix@.len() as int) != prefix@) by {
                assert(s@.subrange(0, prefix@.len() as int)[i as int] != prefix@[i as int]);
            }
            return false;
        }
    }
    assert(s@.subrange(0, prefix@.len() as int) =~= prefix@);
    true
}

/// Does `needle` occur in `hay`?
pub fn contains_chars(hay: &Vec<char>, needle: &Vec<char>) -> (r: bool)
    ensures
        r == contains_seq(hay@, needle@),
{
    if needle.len() > hay.len() {
        assert(!contains_seq(hay@, needle@));
        return false;
    }
    let last = hay.len() - needle.len();
    let mut start: usize = 0;
    while start <= last
        invariant
            needle.len() <= hay.len(),
            last == hay.len() - needle.len(),
            start <= last + 1,
            forall|i: int|
                0 <= i < start ==> #[trigger] hay@.subrange(i, i + needle@.len()) != needle@,
        decreases last + 1 - start,
    {
        let mut all: bool = true;
        let n = needle.len();
        for j in 0..n
            invariant
                n == needle.len(),
                start + n <= hay.len(),
                all <==> (forall|k: int| 0 <= k < j ==> hay@[start + k] == needle@[k]),
        {
            if hay[start + j] != needle[j] {
                all = false;
            }
        }
        if all {
            assert(hay@.subrange(start as int, start + needle@.len()) =~= needle@);
            return true;
        }
        assert(hay@.subrange(start as int, start + needle@.len()) != needle@) by {
            let w = choose|k: int|
                0 <= k < needle@.len() && hay@[start + k] != needle@[k];
            assert(hay@.subrange(start as int, start + needle@.len())[w] != needle@[w]);
        }
        start = start + 1;
    }
    assert(!contains_seq(hay@, needle@));
    false
}

/// ASCII-lowercase a character vector.
pub fn to_lower_chars(v: &Vec<char>) -> (r: Vec<char>)
    ensures
        r@ == lower_seq(v@),
{
    let mut r: Vec<char> = Vec::new();
    let n = v.len();
    for i in 0..n
        invariant
            n == v.len(),
            r@ == lower_seq(v@.subrange(0, i as int)),
    {
        let c = v[i];
        if 'A' <= c && c <= 'Z' {
            r.push(((c as u8) + 32) as char);
        } else {
            r.push(c);
        }
        assert(r@ =~= lower_seq(v@.subrange(0, i + 1)));
    }
    assert(v@.subrange(0, n as int) =~= v@);
    r
}

/// The lowercase hexadecimal digit for a value below 16.
pub open spec fn hex_digit(n: u8) -> char {
    if n < 10 {
        (n + 48) as char
    } else {
        (n + 87) as char
    }
}

/// Two lowercase hexadecimal digits for each byte, in order.
pub open spec fn hex_of(bytes: Seq<u8>) -> Seq<char>
    decreases bytes.len(),
{
    if bytes.len() == 0 {
        Seq::empty()
    } else {
        seq![hex_digit(bytes[0] / 16), hex_digit(bytes[0] % 16)] + hex_of(bytes.drop_first())
    }
}

/// Lowercase hexadecimal rendering of a byte string.
pub fn to_hex_chars(bytes: &Vec<u8>) -> (r: Vec<char>)
    ensures
        r@ == hex_of(bytes@),
{
    let mut r: Vec<char> = Vec::new();
    let n = bytes.len();
    for i in 0..n
        invariant
            n == bytes.len(),
            r@ == hex_of(bytes@.subrange(0, i as int)),
    {
        let b = bytes[i];
        let hi = b / 16;
        let lo = b % 16;
        r.push(if hi < 10 { (hi + 48) as char } else { (hi + 87) as char });
        r.push(if lo < 10 { (lo + 48) as char } else { (lo + 87) as char });
        proof {
            lemma_hex_of_push(bytes@.subrange(0, i as int), bytes@[i as int]);
            assert(bytes@.subrange(0, i as int).push(bytes@[i as int]) =~= bytes@.subrange(
                0,
                i + 1,
            ));
        }
    }
    assert(bytes@.subrange(0, n as int) =~= bytes@);
    r
}

proof fn lemma_hex_of_push(s: Seq<u8>, b: u8)
    ensures
        hex_of(s.push(b)) == hex_of(s) + seq![hex_digit(b / 16), hex_digit(b % 16)],
    decreases s.len(),
{
    if s.len() == 0 {
        assert(s.push(b).drop_first() =~= Seq::<u8>::empty());
        assert(s.push(b)[0] == b);
        assert(hex_of(Seq::<u8>::empty()) =~= Seq::<char>::empty());
        assert(hex_of(s.push(b)) =~= hex_of(s) + seq![hex_digit(b / 16), hex_digit(b % 16)]);
    } else {
        assert(s.push(b).drop_first() =~= s.drop_first().push(b));
        lemma_hex_of_push(s.drop_first(), b);
        assert(s.push(b)[0] == s[0]);
        assert(hex_of(s.push(b)) == seq![hex_digit(s[0] / 16), hex_digit(s[0] % 16)] + hex_of(
            s.drop_first().push(b),
        ));
        assert(hex_of(s.push(b)) =~= hex_of(s) + seq![hex_digit(b / 16), hex_digit(b % 16)]);
    }
}

/// The decimal digits of `n`, most significant first.
pub open spec fn dec_of(n: nat) -> Seq<char>
    decreases n,
{
    if n < 10 {
        seq![((n + 48) as u8) as char]
    } else {
        dec_of(n / 10) + seq![(((n % 10) + 48) as u8) as char]
    }
}

/// Decimal rendering of an unsigned number.
pub fn u64_to_dec_chars(n: u64) -> (r: Vec<char>)
    ensures
        r@ == dec_of(n as nat),
{
    let mut digits: Vec<char> = Vec::new();
    let mut m = n;
    if m < 10 {
        digits.push(((m as u8) + 48) as char);
        assert(digits@ =~= dec_of(n as nat));
        return digits;
    }
    let ghost mut rendered: Seq<char> = Seq::empty();
    while m >= 10
        invariant
            dec_of(n as nat) == dec_of(m as nat) + rendered,
            digits@ == rendered.reverse(),
        decreases m,
    {
        let d = (m % 10) as u8;
        digits.push((d + 48) as char);
        proof {
            rendered = seq![((d + 48) as u8) as char] + rendered;
            assert(digits@ =~= rendered.reverse());
        }
        m = m / 10;
    }
    digits.push(((m as u8) + 48) as char);
    proof {
        rendered = seq![(((m as nat) + 48) as u8) as char] + rendered;
        assert(digits@ =~= rendered.reverse());
        assert(dec_of(m as nat) =~= seq![(((m as nat) + 48) as u8) as char]);
        assert(rendered =~= dec_of(n as nat));
    }
    let mut r: Vec<char> = Vec::new();
    let len = digits.len();
    for i in 0..len
        invariant
            len == digits.len(),
            r@ == digits@.subrange(len - i, len as int).reverse(),
    {
        r.push(digits[len - 1 - i]);
        assert(r@ =~= digits@.subrange(len - i - 1, len as int).reverse());
    }
    assert(digits@.subrange(0, len as int) =~= digits@);
    assert(r@ =~= dec_of(n as nat));
    r
}

/// Decimal rendering of a signed number, with a leading minus where needed.
pub open spec fn dec_of_i64(n: int) -> Seq<char> {
    if n < 0 {
        seq!['-'] + dec_of((-n) as nat)
    } else {
        dec_of(n as nat)
    }
}

/// Decimal rendering of an `i64`.
pub fn i64_to_dec_chars(n: i64) -> (r: Vec<char>)
    ensures
        r@ == dec_of_i64(n as int),
{
    if n >= 0 {
        u64_to_dec_chars(n as u64)
    } else {
        let mut r: Vec<char> = Vec::new();
        r.push('-');
        let mag: u64 = if n == i64::MIN {
            9223372036854775808u64
        } else {
            (-n) as u64
        };
        let digits = u64_to_dec_chars(mag);
        push_all(&mut r, &digits);
        assert(r@ =~= dec_of_i64(n as int));
        r
    }
}

/// Every character is a decimal digit.
pub open spec fn all_digits(s: Seq<char>) -> bool {
    forall|i: int| 0 <= i < s.len() ==> '0' <= #[trigger] s[i] <= '9'
}

/// The value of a string of decimal digits.
pub open spec fn digits_value(s: Seq<char>) -> int
    decreases s.len(),
{
    if s.len() == 0 {
        0
    } else {
        digits_value(s.drop_last()) * 10 + (s.last() as int - '0' as int)
    }
}

proof fn lemma_digits_value_monotonic(s: Seq<char>, k: int)
    requires
        0 <= k <= s.len(),
        all_digits(s),
    ensures
        digits_value(s) >= digits_value(s.take(k)),
    decreases s.len() - k,
{
    if k < s.len() {
        lemma_digits_value_monotonic(s, k + 1);
        assert(s.take(k + 1).drop_last() =~= s.take(k));
        assert(s.take(k + 1).last() == s[k]);
        assert(digits_value(s.take(k + 1)) == digits_value(s.take(k)) * 10 + (s[k] as int
            - '0' as int));
        assert(digits_value(s.take(k)) >= 0) by {
            lemma_digits_value_nonneg(s.take(k));
        }
    } else {
        assert(s.take(k) =~= s);
    }
}

proof fn lemma_digits_value_nonneg(s: Seq<char>)
    requires
        all_digits(s),
    ensures
        digits_value(s) >= 0,
    decreases s.len(),
{
    if s.len() > 0 {
        assert(all_digits(s.drop_last())) by {
            assert(forall|i: int| 0 <= i < s.len() - 1 ==> s.drop_last()[i] == s[i]);
        }
        lemma_digits_value_nonneg(s.drop_last());
    }
}

/// Parse a non-negative decimal number: the value when `s` is one or more
/// digits and fits an `i64`, else nothing.
pub fn parse_decimal_i64(s: &str) -> (r: Option<i64>)
    ensures
        r == if s@.len() > 0 && all_digits(s@) && digits_value(s@) <= i64::MAX {
            Some(digits_value(s@) as i64)
        } else {
            None::<i64>
        },
        r matches Some(v) ==> 0 <= digits_value(s@) <= i64::MAX && v == digits_value(s@),
{
    let chars = str_chars(s);
    let n = chars.len();
    if n == 0 {
        return None;
    }
    let mut acc: i64 = 0;
    for i in 0..n
        invariant
            n == chars@.len(),
            chars@ == s@,
            all_digits(s@.take(i as int)),
            acc == digits_value(s@.take(i as int)),
            acc >= 0,
    {
        let c = chars[i];
        if !('0' <= c && c <= '9') {
            proof {
                if all_digits(s@) {
                    assert('0' <= s@[i as int] <= '9');
                }
            }
            return None;
        }
        let d = (c as u32) - ('0' as u32);
        if acc > (i64::MAX - (d as i64)) / 10 {
            proof {
                assert(s@.take(i + 1).drop_last() =~= s@.take(i as int));
                assert(s@.take(i + 1).last() == s@[i as int]);
                assert(digits_value(s@.take(i + 1)) == acc * 10 + (d as int));
                assert(digits_value(s@.take(i + 1)) > i64::MAX);
                if all_digits(s@) {
                    lemma_digits_value_monotonic(s@, i + 1);
                }
            }
            return None;
        }
        proof {
            assert(s@.take(i + 1).drop_last() =~= s@.take(i as int));
            assert(s@.take(i + 1).last() == s@[i as int]);
            assert forall|w: int| 0 <= w < i + 1 implies '0' <= #[trigger] s@.take(i + 1)[w]
                <= '9' by {
                if w < i {
                    assert(s@.take(i as int)[w] == s@[w]);
                }
            }
        }
        acc = acc * 10 + (d as i64);
    }
    proof {
        assert(s@.take(n as int) =~= s@);
    }
    Some(acc)
}

/// The index of the first occurrence of `c` in `v`, if any.
pub fn find_char(v: &Vec<char>, c: char) -> (r: Option<usize>)
    ensures
        match r {
            Some(i) => i < v@.len() && v@[i as int] == c && forall|j: int|
                0 <= j < i ==> v@[j] != c,
            None => forall|j: int| 0 <= j < v@.len() ==> v@[j] != c,
        },
{
    let n = v.len();
    for i in 0..n
        invariant
            n == v.len(),
            forall|j: int| 0 <= j < i ==> v@[j] != c,
    {
        if v[i] == c {
            return Some(i);
        }
    }
    None
}

/// The characters of `v` from `from` (inclusive) to `to` (exclusive).
pub fn subrange_chars(v: &Vec<char>, from: usize, to: usize) -> (r: Vec<char>)
    requires
        from <= to <= v@.len(),
    ensures
        r@ == v@.subrange(from as int, to as int),
{
    let mut r: Vec<char> = Vec::new();
    for i in from..to
        invariant
            from <= to <= v.len(),
            r@ == v@.subrange(from as int, i as int),
    {
        r.push(v[i]);
        assert(r@ =~= v@.subrange(from as int, i + 1));
    }
    r
}

/// Append all of `src` to `dst`.
pub fn push_all(dst: &mut Vec<char>, src: &Vec<char>)
    ensures
        final(dst)@ == old(dst)@ + src@,
{
    let n = src.len();
    for i in 0..n
        invariant
            n == src.len(),
            dst@ == old(dst)@ + src@.subrange(0, i as int),
    {
        dst.push(src[i]);
        assert(dst@ =~= old(dst)@ + src@.subrange(0, i + 1));
    }
    assert(old(dst)@ + src@.subrange(0, n as int) =~= old(dst)@ + src@);
}

} // verus!
