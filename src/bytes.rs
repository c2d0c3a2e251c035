//! Byte-string helpers shared by the parser and the response writer.
use vstd::prelude::*;

verus! {

/// The bytes of a string made of ASCII characters.
pub open spec fn ascii(s: Seq<char>) -> Seq<u8> {
    s.map_values(|c: char| c as u8)
}

/// ASCII whitespace as `char::is_whitespace` sees it: tab, line feed,
/// vertical tab, form feed, carriage return and space. Requests are read as
/// bytes, so non-ASCII whitespace (such as U+00A0) is deliberately not
/// treated as whitespace.
pub open spec fn is_space(b: u8) -> bool {
    b == 32 || (9 <= b && b <= 13)
}

/// The index of the first `x` at or after `i`, or the length when there is none.
pub open spec fn index_of_from(s: Seq<u8>, x: u8, i: int) -> int
    decreases s.len() - i,
{
    if i >= s.len() {
        s.len() as int
    } else if s[i] == x {
        i
    } else {
        index_of_from(s, x, i + 1)
    }
}

/// The index of the first non-space byte at or after `i`.
pub open spec fn skip_space_from(s: Seq<u8>, i: int) -> int
    decreases s.len() - i,
{
    if i < s.len() && is_space(s[i]) {
        skip_space_from(s, i + 1)
    } else {
        i
    }
}

/// The index of the first space byte at or after `i` (the end of a token).
pub open spec fn token_end_from(s: Seq<u8>, i: int) -> int
    decreases s.len() - i,
{
    if i < s.len() && !is_space(s[i]) {
        token_end_from(s, i + 1)
    } else {
        i
    }
}

/// The end of `s.subrange(0, e)` once its trailing spaces are cut off.
pub open spec fn trim_back_from(s: Seq<u8>, e: int) -> int
    decreases e,
{
    if 0 < e && e <= s.len() && is_space(s[e - 1]) {
        trim_back_from(s, e - 1)
    } else {
        e
    }
}

/// `s` without leading and trailing whitespace in the sense of `is_space`;
/// non-ASCII whitespace is deliberately kept.
pub open spec fn trim(s: Seq<u8>) -> Seq<u8> {
    let st = skip_space_from(s, 0);
    let en = trim_back_from(s, s.len() as int);
    if st < en {
        s.subrange(st, en)
    } else {
        Seq::empty()
    }
}

pub open spec fn starts_with(s: Seq<u8>, p: Seq<u8>) -> bool {
    p.len() <= s.len() && s.subrange(0, p.len() as int) == p
}

/// `n` written in decimal digits, most significant first.
pub open spec fn decimal(n: nat) -> Seq<u8>
    decreases n,
{
    if n < 10 {
        seq![(48 + n) as u8]
    } else {
        decimal(n / 10).push((48 + n % 10) as u8)
    }
}

pub proof fn lemma_index_of_from(s: Seq<u8>, x: u8, i: int)
    requires
        0 <= i <= s.len(),
    ensures
        i <= index_of_from(s, x, i) <= s.len(),
        index_of_from(s, x, i) < s.len() ==> s[index_of_from(s, x, i)] == x,
        forall|k: int| i <= k < index_of_from(s, x, i) ==> s[k] != x,
    decreases s.len() - i,
{
    if i < s.len() && s[i] != x {
        lemma_index_of_from(s, x, i + 1);
    }
}

pub proof fn lemma_skip_space_from(s: Seq<u8>, i: int)
    requires
        0 <= i <= s.len(),
    ensures
        i <= skip_space_from(s, i) <= s.len(),
        skip_space_from(s, i) < s.len() ==> !is_space(s[skip_space_from(s, i)]),
    decreases s.len() - i,
{
    if i < s.len() && is_space(s[i]) {
        lemma_skip_space_from(s, i + 1);
    }
}

pub proof fn lemma_token_end_from(s: Seq<u8>, i: int)
    requires
        0 <= i <= s.len(),
    ensures
        i <= token_end_from(s, i) <= s.len(),
        i < s.len() && !is_space(s[i]) ==> i < token_end_from(s, i),
    decreases s.len() - i,
{
    if i < s.len() && !is_space(s[i]) {
        lemma_token_end_from(s, i + 1);
    }
}

/// The bytes of an ASCII string slice.
pub fn literal_bytes(s: &str) -> (r: &[u8])
    requires
        vstd::string::is_ascii(s),
    ensures
        r@ == ascii(s@),
{
    let b = s.as_bytes();
    proof {
        vstd::string::is_ascii_spec_bytes(s);
        assert(b@ =~= ascii(s@));
    }
    b
}

pub fn append_bytes(out: &mut Vec<u8>, s: &[u8])
    ensures
        final(out)@ == old(out)@ + s@,
{
    let mut i: usize = 0;
    while i < s.len()
        invariant
            i <= s@.len(),
            out@ == old(out)@ + s@.subrange(0, i as int),
        decreases s@.len() - i,
    {
        out.push(s[i]);
        i += 1;
        proof {
            assert(s@.subrange(0, i as int) =~= s@.subrange(0, i - 1).push(s@[i - 1]));
        }
    }
    proof {
        assert(s@.subrange(0, i as int) =~= s@);
    }
}

/// A fresh vector holding `s[lo..hi]`.
pub fn copy_range(s: &[u8], lo: usize, hi: usize) -> (r: Vec<u8>)
    requires
        lo <= hi <= s@.len(),
    ensures
        r@ == s@.subrange(lo as int, hi as int),
{
    let mut r: Vec<u8> = Vec::new();
    let mut i: usize = lo;
    while i < hi
        invariant
            lo <= i <= hi <= s@.len(),
            r@ == s@.subrange(lo as int, i as int),
        decreases hi - i,
    {
        r.push(s[i]);
        i += 1;
        proof {
            assert(s@.subrange(lo as int, i as int) =~= s@.subrange(lo as int, i - 1).push(
                s@[i - 1],
            ));
        }
    }
    r
}

pub fn bytes_equal(a: &[u8], b: &[u8]) -> (r: bool)
    ensures
        r == (a@ == b@),
{
    if a.len() != b.len() {
        return false;
    }
    let mut i: usize = 0;
    while i < a.len()
        invariant
            i <= a@.len() == b@.len(),
            forall|k: int| 0 <= k < i ==> a@[k] == b@[k],
        decreases a@.len() - i,
    {
        if a[i] != b[i] {
            return false;
        }
        i += 1;
    }
    proof {
        assert(a@ =~= b@);
    }
    true
}

pub fn has_prefix(s: &[u8], p: &[u8]) -> (r: bool)
    ensures
        r == starts_with(s@, p@),
{
    if p.len() > s.len() {
        return false;
    }
    let mut i: usize = 0;
    while i < p.len()
        invariant
            i <= p@.len() <= s@.len(),
            forall|k: int| 0 <= k < i ==> s@[k] == p@[k],
        decreases p@.len() - i,
    {
        if s[i] != p[i] {
            proof {
                assert(s@.subrange(0, p@.len() as int)[i as int] != p@[i as int]);
            }
            return false;
        }
        i += 1;
    }
    proof {
        assert(s@.subrange(0, p@.len() as int) =~= p@);
    }
    true
}

pub fn find_byte(s: &[u8], x: u8, start: usize) -> (r: usize)
    requires
        start <= s@.len(),
    ensures
        r == index_of_from(s@, x, start as int),
{
    let mut i: usize = start;
    while i < s.len() && s[i] != x
        invariant
            start <= i <= s@.len(),
            index_of_from(s@, x, start as int) == index_of_from(s@, x, i as int),
        decreases s@.len() - i,
    {
        i += 1;
    }
    i
}

pub fn skip_spaces(s: &[u8], start: usize) -> (r: usize)
    requires
        start <= s@.len(),
    ensures
        r == skip_space_from(s@, start as int),
{
    let mut i: usize = start;
    while i < s.len() && (s[i] == 32 || (9 <= s[i] && s[i] <= 13))
        invariant
            start <= i <= s@.len(),
            skip_space_from(s@, start as int) == skip_space_from(s@, i as int),
        decreases s@.len() - i,
    {
        i += 1;
    }
    i
}

pub fn token_end(s: &[u8], start: usize) -> (r: usize)
    requires
        start <= s@.len(),
    ensures
        r == token_end_from(s@, start as int),
{
    let mut i: usize = start;
    while i < s.len() && !(s[i] == 32 || (9 <= s[i] && s[i] <= 13))
        invariant
            start <= i <= s@.len(),
            token_end_from(s@, start as int) == token_end_from(s@, i as int),
        decreases s@.len() - i,
    {
        i += 1;
    }
    i
}

/// A fresh vector holding `s` without leading and trailing whitespace.
pub fn trimmed(s: &[u8]) -> (r: Vec<u8>)
    ensures
        r@ == trim(s@),
{
    let st = skip_spaces(s, 0);
    let mut en: usize = s.len();
    while en > 0 && (s[en - 1] == 32 || (9 <= s[en - 1] && s[en - 1] <= 13))
        invariant
            en <= s@.len(),
            trim_back_from(s@, s@.len() as int) == trim_back_from(s@, en as int),
        decreases en,
    {
        en -= 1;
    }
    if st < en {
        copy_range(s, st, en)
    } else {
        Vec::new()
    }
}

/// Appends the decimal digits of `n`.
pub fn push_decimal(out: &mut Vec<u8>, n: usize)
    ensures
        final(out)@ == old(out)@ + decimal(n as nat),
    decreases n,
{
    if n >= 10 {
        push_decimal(out, n / 10);
    }
    out.push(48u8 + (n % 10) as u8);
    proof {
        if n >= 10 {
            assert(decimal(n as nat) == decimal((n / 10) as nat).push((48 + n % 10) as u8));
        }
        assert(final(out)@ =~= old(out)@ + decimal(n as nat));
    }
}

} // verus!
