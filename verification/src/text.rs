//! Text as a sequence of characters: lengths in UTF-8 and UTF-16 code
//! units, and the conversions between a `str` and its characters.
use vstd::prelude::*;
use vstd::string::*;
use vstd::utf8::{char_is_scalar, encode_scalar, encode_utf8};
use crate::chars::{len_utf16, len_utf8, utf16_width, utf8_width};

verus! {

broadcast use vstd::string::group_string_axioms;

/// The number of UTF-16 code units that encode `s`.
pub open spec fn utf16_len(s: Seq<char>) -> nat
    decreases s.len(),
{
    if s.len() == 0 {
        0
    } else {
        utf16_len(s.drop_last()) + utf16_width(s.last())
    }
}

/// The number of bytes that encode `s` in UTF-8.
pub open spec fn utf8_len(s: Seq<char>) -> nat
    decreases s.len(),
{
    if s.len() == 0 {
        0
    } else {
        utf8_len(s.drop_last()) + utf8_width(s.last())
    }
}

/// `utf16_len` grows by the width of each character appended.
pub proof fn lemma_utf16_len_push(s: Seq<char>, c: char)
    ensures
        utf16_len(s.push(c)) == utf16_len(s) + utf16_width(c),
{
    assert(s.push(c).drop_last() =~= s);
}

/// `utf8_len` grows by the width of each character appended.
pub proof fn lemma_utf8_len_push(s: Seq<char>, c: char)
    ensures
        utf8_len(s.push(c)) == utf8_len(s) + utf8_width(c),
{
    assert(s.push(c).drop_last() =~= s);
}

/// A sequence is at least as long in UTF-16 code units as in characters,
/// and at most twice as long.
pub proof fn lemma_utf16_len_bounds(s: Seq<char>)
    ensures
        s.len() <= utf16_len(s) <= 2 * s.len(),
    decreases s.len(),
{
    if s.len() > 0 {
        lemma_utf16_len_bounds(s.drop_last());
    }
}

/// Lengths add up over concatenation.
pub proof fn lemma_utf16_len_concat(a: Seq<char>, b: Seq<char>)
    ensures
        utf16_len(a + b) == utf16_len(a) + utf16_len(b),
    decreases b.len(),
{
    if b.len() == 0 {
        assert(a + b =~= a);
    } else {
        lemma_utf16_len_concat(a, b.drop_last());
        assert((a + b).drop_last() =~= a + b.drop_last());
    }
}

/// UTF-16 length of a prefix grows with the prefix.
pub proof fn lemma_utf16_len_prefix_mono(s: Seq<char>, i: int, j: int)
    requires
        0 <= i <= j <= s.len(),
    ensures
        utf16_len(s.take(i)) <= utf16_len(s.take(j)),
    decreases j - i,
{
    if i < j {
        lemma_utf16_len_prefix_mono(s, i, j - 1);
        assert(s.take(j) =~= s.take(j - 1).push(s[j - 1]));
        lemma_utf16_len_push(s.take(j - 1), s[j - 1]);
    }
}

/// The characters of `s`, in order.
pub fn chars_of(s: &str) -> (v: Vec<char>)
    ensures
        v@ == s@,
{
    let mut v: Vec<char> = Vec::new();
    for c in it: s.chars()
        invariant
            it.seq() == s@,
            v@ == s@.take(it.index() as int),
    {
        assert(s@.take(it.index() + 1) =~= s@.take(it.index() as int).push(c));
        v.push(c);
    }
    assert(s@.take(s@.len() as int) =~= s@);
    v
}

/// The characters `from..to` of `s`, as a new `String`.
pub fn substring(s: &str, from: usize, to: usize) -> (r: String)
    requires
        from <= to <= s@.len(),
    ensures
        r@ == s@.subrange(from as int, to as int),
{
    String::from_str(s.substring_char(from, to))
}


/// Lengths add up over concatenation.
pub proof fn lemma_utf8_len_concat(a: Seq<char>, b: Seq<char>)
    ensures
        utf8_len(a + b) == utf8_len(a) + utf8_len(b),
    decreases b.len(),
{
    if b.len() == 0 {
        assert(a + b =~= a);
    } else {
        lemma_utf8_len_concat(a, b.drop_last());
        assert((a + b).drop_last() =~= a + b.drop_last());
    }
}

/// The UTF-8 encoding of `s` is `utf8_len(s)` bytes long.
pub proof fn lemma_encode_utf8_len(s: Seq<char>)
    ensures
        encode_utf8(s).len() == utf8_len(s),
    decreases s.len(),
{
    if s.len() > 0 {
        lemma_encode_utf8_len(s.drop_first());
        lemma_utf8_len_concat(seq![s[0]], s.drop_first());
        assert(seq![s[0]] + s.drop_first() =~= s);
        assert(seq![s[0]].drop_last() =~= Seq::<char>::empty());
        let c = s[0];
        char_is_scalar(c);
        assert(encode_scalar(c as u32).len() == utf8_width(c));
        assert(utf8_len(seq![c]) == utf8_len(Seq::<char>::empty()) + utf8_width(c));
        assert(encode_utf8(s) == encode_scalar(c as u32) + encode_utf8(s.drop_first()));
    }
}

/// The bytes that encode `s` in UTF-8, counted.
pub proof fn lemma_str_len(s: &str)
    ensures
        s.spec_bytes().len() == utf8_len(s@),
{
    lemma_encode_utf8_len(s@);
}

/// A copy of `v[lo..hi]`.
pub fn slice_chars(v: &Vec<char>, lo: usize, hi: usize) -> (r: Vec<char>)
    requires
        lo <= hi <= v.len(),
    ensures
        r@ == v@.subrange(lo as int, hi as int),
{
    let mut r: Vec<char> = Vec::new();
    let mut k: usize = lo;
    while k < hi
        invariant
            lo <= k <= hi <= v.len(),
            r@ == v@.subrange(lo as int, k as int),
        decreases hi - k,
    {
        assert(v@.subrange(lo as int, k + 1) =~= v@.subrange(lo as int, k as int).push(v@[k as int]));
        r.push(v[k]);
        k = k + 1;
    }
    r
}


/// UTF-8 length of a prefix grows with the prefix.
pub proof fn lemma_utf8_len_prefix_mono(s: Seq<char>, i: int, j: int)
    requires
        0 <= i <= j <= s.len(),
    ensures
        utf8_len(s.take(i)) <= utf8_len(s.take(j)),
    decreases j - i,
{
    if i < j {
        lemma_utf8_len_prefix_mono(s, i, j - 1);
        assert(s.take(j) =~= s.take(j - 1).push(s[j - 1]));
        lemma_utf8_len_push(s.take(j - 1), s[j - 1]);
    }
}

/// The number of bytes that encode the first `k` characters of `s`.
pub fn prefix_byte_len(s: &str, k: usize) -> (r: usize)
    requires
        k <= s@.len(),
        utf8_len(s@) <= usize::MAX,
    ensures
        r == utf8_len(s@.take(k as int)),
{
    let prefix = s.substring_char(0, k);
    proof {
        lemma_str_len(prefix);
        lemma_utf8_len_prefix_mono(s@, k as int, s@.len() as int);
        assert(s@.take(s@.len() as int) =~= s@);
        assert(prefix@ =~= s@.take(k as int));
    }
    prefix.len()
}


/// The UTF-8 length of `v`, or `cap` when it is at least `cap`.
pub fn utf8_len_capped(v: &Vec<char>, cap: usize) -> (r: usize)
    ensures
        utf8_len(v@) < cap ==> r == utf8_len(v@),
        utf8_len(v@) >= cap ==> r == cap,
{
    if cap == 0 {
        return 0;
    }
    let mut sum: usize = 0;
    let mut k: usize = 0;
    assert(v@.take(0) =~= Seq::<char>::empty());
    while k < v.len()
        invariant
            k <= v.len(),
            sum == utf8_len(v@.take(k as int)),
            sum < cap,
        decreases v.len() - k,
    {
        let w = len_utf8(v[k]);
        proof {
            assert(v@.take(k + 1) =~= v@.take(k as int).push(v@[k as int]));
            lemma_utf8_len_push(v@.take(k as int), v@[k as int]);
        }
        if w >= cap - sum {
            proof {
                lemma_utf8_len_prefix_mono(v@, k + 1, v@.len() as int);
                assert(v@.take(v@.len() as int) =~= v@);
            }
            return cap;
        }
        sum = sum + w;
        k = k + 1;
    }
    assert(v@.take(v@.len() as int) =~= v@);
    sum
}


/// UTF-16 length of a part of a sequence is at most that of the sequence.
pub proof fn lemma_utf16_len_sub(s: Seq<char>, a: int, b: int, c: int, e: int)
    requires
        0 <= a <= b <= c <= e <= s.len(),
    ensures
        utf16_len(s.subrange(b, c)) <= utf16_len(s.subrange(a, e)),
{
    lemma_utf16_len_concat(s.subrange(a, b), s.subrange(b, c));
    lemma_utf16_len_concat(s.subrange(a, c), s.subrange(c, e));
    assert(s.subrange(a, b) + s.subrange(b, c) =~= s.subrange(a, c));
    assert(s.subrange(a, c) + s.subrange(c, e) =~= s.subrange(a, e));
}

/// The number of UTF-16 code units that encode `v[from..to]`.
pub fn scan(v: &Vec<char>, from: usize, to: usize) -> (r: i32)
    requires
        from <= to <= v.len(),
        utf16_len(v@) <= i32::MAX,
    ensures
        r == utf16_len(v@.subrange(from as int, to as int)),
{
    proof {
        lemma_utf16_len_sub(v@, 0, from as int, to as int, v@.len() as int);
        assert(v@.subrange(0, v@.len() as int) =~= v@);
    }
    let mut offset: i32 = 0;
    let mut k: usize = from;
    while k < to
        invariant
            from <= k <= to <= v.len(),
            offset == utf16_len(v@.subrange(from as int, k as int)),
            utf16_len(v@.subrange(from as int, to as int)) <= i32::MAX,
        decreases to - k,
    {
        proof {
            assert(v@.subrange(from as int, k + 1) =~= v@.subrange(from as int, k as int).push(
                v@[k as int],
            ));
            lemma_utf16_len_push(v@.subrange(from as int, k as int), v@[k as int]);
            lemma_utf16_len_sub(v@, from as int, from as int, k + 1, to as int);
        }
        let w = len_utf16(v[k]);
        offset = offset + w as i32;
        k = k + 1;
    }
    offset
}

/// Whether `c` occurs in `s`.
pub fn contains_char(s: &str, c: char) -> (r: bool)
    ensures
        r == s@.contains(c),
{
    let mut found = false;
    for d in it: s.chars()
        invariant
            it.seq() == s@,
            found == s@.take(it.index() as int).contains(c),
    {
        let ghost prev = s@.take(it.index() as int);
        assert(s@.take(it.index() + 1) =~= prev.push(d));
        proof {
            if d == c {
                assert(prev.push(d)[prev.len() as int] == c);
            } else if prev.push(d).contains(c) {
                let j = choose|j: int| 0 <= j < prev.push(d).len() && prev.push(d)[j] == c;
                assert(prev[j] == c);
            }
        }
        if d == c {
            found = true;
        }
    }
    assert(s@.take(s@.len() as int) =~= s@);
    found
}

/// Whether `v` takes at most `i32::MAX` UTF-16 code units.
pub fn utf16_fits_i32(v: &Vec<char>) -> (r: bool)
    ensures
        r == (utf16_len(v@) <= i32::MAX),
{
    let mut sum: u128 = 0;
    let mut k: usize = 0;
    assert(v@.take(0) =~= Seq::<char>::empty());
    while k < v.len()
        invariant
            k <= v.len(),
            sum == utf16_len(v@.take(k as int)),
            sum <= 2 * k,
        decreases v.len() - k,
    {
        proof {
            assert(v@.take(k + 1) =~= v@.take(k as int).push(v@[k as int]));
            lemma_utf16_len_push(v@.take(k as int), v@[k as int]);
        }
        sum = sum + len_utf16(v[k]) as u128;
        k = k + 1;
    }
    assert(v@.take(v@.len() as int) =~= v@);
    sum <= 0x7fff_ffff
}

/// Whether `v` takes at most `usize::MAX` bytes in UTF-8.
pub fn utf8_fits_usize(v: &Vec<char>) -> (r: bool)
    ensures
        r == (utf8_len(v@) <= usize::MAX),
{
    let mut sum: u128 = 0;
    let mut k: usize = 0;
    assert(v@.take(0) =~= Seq::<char>::empty());
    while k < v.len()
        invariant
            k <= v.len(),
            sum == utf8_len(v@.take(k as int)),
            sum <= 4 * k,
        decreases v.len() - k,
    {
        proof {
            assert(v@.take(k + 1) =~= v@.take(k as int).push(v@[k as int]));
            lemma_utf8_len_push(v@.take(k as int), v@[k as int]);
        }
        sum = sum + len_utf8(v[k]) as u128;
        k = k + 1;
    }
    assert(v@.take(v@.len() as int) =~= v@);
    sum <= usize::MAX as u128
}

} // verus!
