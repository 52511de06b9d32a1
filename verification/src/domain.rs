//! Checks on the host of a URL: labels that mix Latin with other scripts,
//! where a valid top-level domain ends, and whether the host has an ASCII
//! form that keeps the URL within the length the service accepts.
use vstd::prelude::*;
use vstd::string::*;
use crate::chars::{is_digit, is_digit_char, is_latin, is_latin_char};
use crate::scanner::{has_char, has_char_in};
use crate::text::{chars_of, prefix_byte_len, slice_chars, utf8_len};
use crate::tlds::{is_tld_ci, is_valid_tld_case_insensitive};

verus! {

broadcast use vstd::string::group_string_axioms;

// ---------------------------------------------------------------------------
// Labels that mix scripts.

/// A character at `j` of the label that is neither Latin, a digit nor a
/// hyphen, after a Latin letter.
pub open spec fn mixing_at(l: Seq<char>, j: int) -> bool {
    &&& 0 <= j < l.len()
    &&& !(is_latin(l[j]) || is_digit(l[j]) || l[j] == '-')
    &&& exists|k: int| 0 <= k < j && is_latin(#[trigger] l[k])
}

/// The label is punycode: it starts with `xn--` or `XN--`.
pub open spec fn starts_with_xn(l: Seq<char>) -> bool {
    &&& l.len() >= 4
    &&& ((l[0] == 'x' && l[1] == 'n') || (l[0] == 'X' && l[1] == 'N'))
    &&& l[2] == '-'
    &&& l[3] == '-'
}

/// The label mixes scripts: a Latin letter is followed by a character of
/// another script. Punycode labels never do.
pub open spec fn script_mixing(l: Seq<char>) -> bool {
    !starts_with_xn(l) && exists|j: int| mixing_at(l, j)
}

/// `j` is the first position at which the label mixes scripts.
pub open spec fn first_mixing(l: Seq<char>, j: int) -> bool {
    mixing_at(l, j) && forall|k: int| 0 <= k < j ==> !mixing_at(l, k)
}

/// The length of the part of the label before it mixes scripts.
pub open spec fn script_boundary(l: Seq<char>) -> int {
    if exists|j: int| mixing_at(l, j) {
        choose|j: int| first_mixing(l, j)
    } else {
        l.len() as int
    }
}

pub proof fn lemma_script_boundary(l: Seq<char>, j: int)
    requires
        first_mixing(l, j),
    ensures
        script_boundary(l) == j,
{
    let c = choose|c: int| first_mixing(l, c);
    assert(first_mixing(l, c));
    if c < j {
        assert(!mixing_at(l, c));
    } else if c > j {
        assert(!mixing_at(l, j));
    }
}

/// The first position at which `l` mixes scripts, if any.
fn first_mixing_index(l: &Vec<char>) -> (r: Option<usize>)
    ensures
        match r {
            Some(j) => first_mixing(l@, j as int),
            None => forall|j: int| !mixing_at(l@, j),
        },
{
    let mut seen: bool = false;
    let mut i: usize = 0;
    while i < l.len()
        invariant
            i <= l.len(),
            seen <==> exists|k: int| 0 <= k < i && is_latin(#[trigger] l@[k]),
            forall|j: int| 0 <= j < i ==> !mixing_at(l@, j),
        decreases l.len() - i,
    {
        let c = l[i];
        if is_latin_char(c) {
            seen = true;
        } else if is_digit_char(c) || c == '-' {
        } else if seen {
            assert(mixing_at(l@, i as int));
            return Some(i);
        } else {
            assert(!mixing_at(l@, i as int));
        }
        assert(!mixing_at(l@, i as int));
        i = i + 1;
    }
    None
}

fn starts_with_xn_at(l: &Vec<char>) -> (r: bool)
    ensures
        r == starts_with_xn(l@),
{
    l.len() >= 4 && ((l[0] == 'x' && l[1] == 'n') || (l[0] == 'X' && l[1] == 'N')) && l[2] == '-'
        && l[3] == '-'
}

fn script_mixing_of(l: &Vec<char>) -> (r: bool)
    ensures
        r == script_mixing(l@),
{
    if starts_with_xn_at(l) {
        return false;
    }
    match first_mixing_index(l) {
        Some(j) => true,
        None => false,
    }
}

fn script_boundary_of(l: &Vec<char>) -> (r: usize)
    ensures
        r == script_boundary(l@),
        r <= l@.len(),
{
    match first_mixing_index(l) {
        Some(j) => {
            proof {
                lemma_script_boundary(l@, j as int);
            }
            j
        },
        None => l.len(),
    }
}

/// Whether the label mixes Latin with another script (as `comだよね` does).
pub fn has_script_mixing(label: &str) -> (r: bool)
    ensures
        r == script_mixing(label@),
{
    let l = chars_of(label);
    script_mixing_of(&l)
}

/// The number of bytes of the label before it mixes scripts (the whole
/// label when it does not).
pub fn find_script_boundary(label: &str) -> (r: usize)
    requires
        utf8_len(label@) <= usize::MAX,
    ensures
        r == utf8_len(label@.take(script_boundary(label@))),
{
    let l = chars_of(label);
    let b = script_boundary_of(&l);
    prefix_byte_len(label, b)
}

// ---------------------------------------------------------------------------
// Labels of a domain.

/// The first position from `j` on that holds `c`, or the end.
pub open spec fn find_char(s: Seq<char>, j: int, c: char) -> int
    decreases s.len() - j,
{
    if 0 <= j < s.len() && s[j] != c {
        find_char(s, j + 1, c)
    } else {
        j
    }
}

pub proof fn lemma_find_char(s: Seq<char>, j: int, e: int, c: char)
    requires
        0 <= j <= e <= s.len(),
        forall|k: int| j <= k < e ==> s[k] != c,
        e == s.len() || s[e] == c,
    ensures
        find_char(s, j, c) == e,
    decreases e - j,
{
    if j < e {
        lemma_find_char(s, j + 1, e, c);
    }
}

pub proof fn lemma_find_char_bounds(s: Seq<char>, j: int, c: char)
    requires
        0 <= j <= s.len(),
    ensures
        j <= find_char(s, j, c) <= s.len(),
        find_char(s, j, c) < s.len() ==> s[find_char(s, j, c)] == c,
        forall|k: int| j <= k < find_char(s, j, c) ==> s[k] != c,
    decreases s.len() - j,
{
    if j < s.len() && s[j] != c {
        lemma_find_char_bounds(s, j + 1, c);
    }
}

fn find_char_at(s: &Vec<char>, j: usize, c: char) -> (r: usize)
    requires
        j <= s.len(),
    ensures
        r == find_char(s@, j as int, c),
        j <= r <= s.len(),
{
    proof {
        lemma_find_char_bounds(s@, j as int, c);
    }
    let mut k: usize = j;
    while k < s.len() && s[k] != c
        invariant
            j <= k <= s.len(),
            find_char(s@, j as int, c) == find_char(s@, k as int, c),
        decreases s.len() - k,
    {
        k = k + 1;
    }
    k
}

/// `a` is where a label of the domain starts.
pub open spec fn label_start(d: Seq<char>, a: int) -> bool {
    0 <= a <= d.len() && (a == 0 || d[a - 1] == '.')
}

/// The label of the domain that starts at `a`.
pub open spec fn label(d: Seq<char>, a: int) -> Seq<char> {
    d.subrange(a, find_char(d, a, '.'))
}

/// The label that starts at `a` mixes scripts.
pub open spec fn mixed_label(d: Seq<char>, a: int) -> bool {
    label_start(d, a) && script_mixing(label(d, a))
}

/// `a` starts the rightmost label that mixes scripts.
pub open spec fn last_mixed_label(d: Seq<char>, a: int) -> bool {
    mixed_label(d, a) && forall|b: int| a < b ==> !mixed_label(d, b)
}

/// Where the valid part of the domain ends: within the rightmost label that
/// mixes scripts, at the point where it starts to; otherwise at the end.
pub open spec fn domain_end(d: Seq<char>) -> int {
    if exists|a: int| mixed_label(d, a) {
        let a = choose|a: int| last_mixed_label(d, a);
        a + script_boundary(label(d, a))
    } else {
        d.len() as int
    }
}

pub proof fn lemma_domain_end(d: Seq<char>, a: int)
    requires
        last_mixed_label(d, a),
    ensures
        domain_end(d) == a + script_boundary(label(d, a)),
{
    let c = choose|c: int| last_mixed_label(d, c);
    assert(last_mixed_label(d, c));
    if c < a {
        assert(!mixed_label(d, a));
    } else if c > a {
        assert(!mixed_label(d, c));
    }
}

/// `domain_end` of the characters `d`.
pub fn domain_end_of(d: &Vec<char>) -> (r: usize)
    ensures
        r == domain_end(d@),
        r <= d@.len(),
{
    let n = d.len();
    let mut pos: usize = n;
    loop
        invariant
            pos <= n == d@.len(),
            pos == n || d@[pos as int] == '.',
            forall|b: int| pos < b ==> !mixed_label(d@, b),
        decreases pos,
    {
        let mut a: usize = pos;
        while a > 0 && d[a - 1] != '.'
            invariant
                a <= pos <= n == d@.len(),
                forall|k: int| a <= k < pos ==> d@[k] != '.',
            decreases a,
        {
            a = a - 1;
        }
        proof {
            lemma_find_char(d@, a as int, pos as int, '.');
            assert forall|b: int| a < b <= pos implies !label_start(d@, b) by {
                assert(d@[b - 1] != '.');
            }
        }
        let l = slice_chars(d, a, pos);
        if script_mixing_of(&l) {
            let j = script_boundary_of(&l);
            proof {
                assert(mixed_label(d@, a as int));
                assert(last_mixed_label(d@, a as int));
                lemma_domain_end(d@, a as int);
            }
            return a + j;
        }
        assert(!mixed_label(d@, a as int));
        if a == 0 {
            assert forall|b: int| !mixed_label(d@, b) by {
                if 0 <= b <= pos {
                    assert(b == 0 || !label_start(d@, b));
                }
            }
            return n;
        }
        pos = a - 1;
    }
}

/// The number of bytes of the domain that are valid: all of it, unless a
/// label mixes scripts, in which case the valid part ends where the
/// rightmost such label starts to.
pub fn find_valid_domain_end(domain: &str) -> (r: usize)
    requires
        utf8_len(domain@) <= usize::MAX,
    ensures
        r == utf8_len(domain@.take(domain_end(domain@))),
{
    let d = chars_of(domain);
    let e = domain_end_of(&d);
    prefix_byte_len(domain, e)
}


// ---------------------------------------------------------------------------
// Where the top-level domain ends.

/// Behind the dot at `p`, a label that mixes scripts whose part before the
/// mixing is a top-level domain: the domain may end after that part.
pub open spec fn mixed_candidate(d: Seq<char>, p: int) -> Option<int> {
    let seg = label(d, p + 1);
    if script_mixing(seg) {
        let b = script_boundary(seg);
        if b > 0 && is_tld_ci(seg.take(b)) {
            Some(p + 1 + b)
        } else {
            None
        }
    } else {
        None
    }
}

/// The first candidate of `mixed_candidate` at a dot from `j` on.
pub open spec fn scan_mixed(d: Seq<char>, j: int) -> Option<int>
    decreases d.len() - j,
{
    if j < 0 || j >= d.len() {
        None
    } else if d[j] == '.' && mixed_candidate(d, j) is Some {
        mixed_candidate(d, j)
    } else {
        scan_mixed(d, j + 1)
    }
}

/// Where the label that ends at `p` begins.
pub open spec fn label_begin(d: Seq<char>, p: int) -> int
    decreases p,
{
    if 0 < p <= d.len() && d[p - 1] != '.' {
        label_begin(d, p - 1)
    } else {
        p
    }
}

/// Every character is ASCII.
pub open spec fn all_ascii(s: Seq<char>) -> bool {
    forall|k: int| 0 <= k < s.len() ==> s[k] <= '\u{7F}'
}

/// The shortest prefix of `seg`, of at least `k` characters and shorter
/// than `seg`, that is a top-level domain.
pub open spec fn tld_prefix_from(seg: Seq<char>, k: int) -> Option<int>
    decreases seg.len() - k,
{
    if k < 0 || k >= seg.len() {
        None
    } else if is_tld_ci(seg.take(k)) {
        Some(k)
    } else {
        tld_prefix_from(seg, k + 1)
    }
}

/// Where the domain may end, judged by the label behind the dot at `p`: the
/// label is a top-level domain, or its part before a hyphen is; neither
/// counts when the label before the dot holds an underscore. Without a
/// protocol, a non-ASCII label may also start with a top-level domain.
pub open spec fn rtl_candidate(d: Seq<char>, p: int, exact: bool) -> Option<int> {
    let seg = label(d, p + 1);
    let prev_underscore = has_char(d, label_begin(d, p), p, '_');
    if is_tld_ci(seg) {
        if prev_underscore {
            None
        } else {
            Some(p + 1 + seg.len())
        }
    } else {
        let h = find_char(seg, 0, '-');
        if h < seg.len() && is_tld_ci(seg.take(h)) {
            if prev_underscore {
                None
            } else {
                Some(p + 1 + h)
            }
        } else if exact && !all_ascii(seg) {
            match tld_prefix_from(seg, 2) {
                Some(k) => Some(p + 1 + k),
                None => None,
            }
        } else {
            None
        }
    }
}

/// The candidate of `rtl_candidate` at the rightmost dot before `j` that
/// has one.
pub open spec fn scan_rtl(d: Seq<char>, j: int, exact: bool) -> Option<int>
    decreases j,
{
    if j <= 0 || j > d.len() {
        None
    } else if d[j - 1] == '.' && rtl_candidate(d, j - 1, exact) is Some {
        rtl_candidate(d, j - 1, exact)
    } else {
        scan_rtl(d, j - 1, exact)
    }
}

/// Some label of the domain mixes scripts.
pub open spec fn has_mixed_label(d: Seq<char>) -> bool {
    exists|a: int| mixed_label(d, a)
}

/// Where the domain ends at a valid top-level domain, if it does: when a
/// label mixes scripts, the leftmost dot behind which a top-level domain
/// precedes the mixing; otherwise the rightmost dot behind which a
/// top-level domain stands.
pub open spec fn tld_boundary(d: Seq<char>, exact: bool) -> Option<int> {
    if has_mixed_label(d) && scan_mixed(d, 0) is Some {
        scan_mixed(d, 0)
    } else {
        scan_rtl(d, d.len() as int, exact)
    }
}

fn has_mixed_label_of(d: &Vec<char>) -> (r: bool)
    ensures
        r == has_mixed_label(d@),
{
    let n = d.len();
    let mut a: usize = 0;
    loop
        invariant
            a <= n == d@.len(),
            label_start(d@, a as int),
            forall|b: int| b < a ==> !mixed_label(d@, b),
        decreases n - a,
    {
        let e = find_char_at(d, a, '.');
        proof {
            lemma_find_char_bounds(d@, a as int, '.');
        }
        let l = slice_chars(d, a, e);
        if script_mixing_of(&l) {
            assert(mixed_label(d@, a as int));
            return true;
        }
        if e == n {
            assert forall|b: int| !mixed_label(d@, b) by {
                if a < b <= n {
                    assert(d@[b - 1] != '.');
                }
            }
            return false;
        }
        assert forall|b: int| b < e + 1 implies !mixed_label(d@, b) by {
            if a < b <= e {
                assert(d@[b - 1] != '.');
            }
        }
        a = e + 1;
    }
}

fn mixed_candidate_at(d: &Vec<char>, p: usize) -> (r: Option<usize>)
    requires
        p < d.len(),
    ensures
        match r {
            Some(x) => mixed_candidate(d@, p as int) == Some(x as int) && x <= d@.len(),
            None => mixed_candidate(d@, p as int) is None,
        },
{
    let e = find_char_at(d, p + 1, '.');
    let seg = slice_chars(d, p + 1, e);
    if script_mixing_of(&seg) {
        let b = script_boundary_of(&seg);
        if b > 0 {
            let pre = slice_chars(&seg, 0, b);
            assert(pre@ =~= seg@.take(b as int));
            if is_valid_tld_case_insensitive(pre.as_slice()) {
                return Some(p + 1 + b);
            }
        }
    }
    None
}

fn scan_mixed_of(d: &Vec<char>) -> (r: Option<usize>)
    ensures
        match r {
            Some(x) => scan_mixed(d@, 0) == Some(x as int) && x <= d@.len(),
            None => scan_mixed(d@, 0) is None,
        },
{
    let mut j: usize = 0;
    while j < d.len()
        invariant
            j <= d.len(),
            scan_mixed(d@, 0) == scan_mixed(d@, j as int),
        decreases d.len() - j,
    {
        if d[j] == '.' {
            match mixed_candidate_at(d, j) {
                Some(x) => {
                    return Some(x);
                },
                None => {},
            }
        }
        j = j + 1;
    }
    None
}

fn label_begin_of(d: &Vec<char>, p: usize) -> (r: usize)
    requires
        p <= d.len(),
    ensures
        r == label_begin(d@, p as int),
        r <= p,
{
    let mut a: usize = p;
    while a > 0 && d[a - 1] != '.'
        invariant
            a <= p <= d.len(),
            label_begin(d@, p as int) == label_begin(d@, a as int),
        decreases a,
    {
        a = a - 1;
    }
    a
}

fn all_ascii_of(s: &Vec<char>) -> (r: bool)
    ensures
        r == all_ascii(s@),
{
    let mut k: usize = 0;
    while k < s.len()
        invariant
            k <= s.len(),
            forall|j: int| 0 <= j < k ==> s@[j] <= '\u{7F}',
        decreases s.len() - k,
    {
        if s[k] > '\u{7F}' {
            return false;
        }
        k = k + 1;
    }
    true
}

fn tld_prefix_of(seg: &Vec<char>) -> (r: Option<usize>)
    ensures
        match r {
            Some(x) => tld_prefix_from(seg@, 2) == Some(x as int) && x < seg@.len(),
            None => tld_prefix_from(seg@, 2) is None,
        },
{
    let mut k: usize = 2;
    while k < seg.len()
        invariant
            2 <= k,
            tld_prefix_from(seg@, 2) == tld_prefix_from(seg@, k as int),
        decreases seg.len() - k,
    {
        let pre = slice_chars(seg, 0, k);
        assert(pre@ =~= seg@.take(k as int));
        if is_valid_tld_case_insensitive(pre.as_slice()) {
            return Some(k);
        }
        k = k + 1;
    }
    None
}

fn rtl_candidate_at(d: &Vec<char>, p: usize, exact: bool) -> (r: Option<usize>)
    requires
        p < d.len(),
    ensures
        match r {
            Some(x) => rtl_candidate(d@, p as int, exact) == Some(x as int) && x <= d@.len(),
            None => rtl_candidate(d@, p as int, exact) is None,
        },
{
    let e = find_char_at(d, p + 1, '.');
    let seg = slice_chars(d, p + 1, e);
    let b = label_begin_of(d, p);
    let prev_underscore = has_char_in(d, b, p, '_');
    if is_valid_tld_case_insensitive(seg.as_slice()) {
        if prev_underscore {
            None
        } else {
            Some(p + 1 + seg.len())
        }
    } else {
        let h = find_char_at(&seg, 0, '-');
        let pre = slice_chars(&seg, 0, h);
        assert(pre@ =~= seg@.take(h as int));
        if h < seg.len() && is_valid_tld_case_insensitive(pre.as_slice()) {
            if prev_underscore {
                None
            } else {
                Some(p + 1 + h)
            }
        } else if exact && !all_ascii_of(&seg) {
            match tld_prefix_of(&seg) {
                Some(k) => Some(p + 1 + k),
                None => None,
            }
        } else {
            None
        }
    }
}

fn scan_rtl_of(d: &Vec<char>, exact: bool) -> (r: Option<usize>)
    ensures
        match r {
            Some(x) => scan_rtl(d@, d@.len() as int, exact) == Some(x as int) && x <= d@.len(),
            None => scan_rtl(d@, d@.len() as int, exact) is None,
        },
{
    let mut j: usize = d.len();
    while j > 0
        invariant
            j <= d.len(),
            scan_rtl(d@, d@.len() as int, exact) == scan_rtl(d@, j as int, exact),
        decreases j,
    {
        if d[j - 1] == '.' {
            match rtl_candidate_at(d, j - 1, exact) {
                Some(x) => {
                    return Some(x);
                },
                None => {},
            }
        }
        j = j - 1;
    }
    None
}

/// `tld_boundary` of the characters `d`.
pub fn tld_boundary_of(d: &Vec<char>, exact: bool) -> (r: Option<usize>)
    ensures
        match r {
            Some(x) => tld_boundary(d@, exact) == Some(x as int) && x <= d@.len(),
            None => tld_boundary(d@, exact) is None,
        },
{
    if has_mixed_label_of(d) {
        match scan_mixed_of(d) {
            Some(x) => {
                return Some(x);
            },
            None => {},
        }
    }
    scan_rtl_of(d, exact)
}

/// The number of bytes of the domain that end at a valid top-level domain,
/// if any do (see `tld_boundary`). `requires_exact_tld` is set for URLs
/// without a protocol.
pub fn find_valid_tld_boundary(domain: &str, requires_exact_tld: bool) -> (r: Option<usize>)
    requires
        utf8_len(domain@) <= usize::MAX,
    ensures
        match tld_boundary(domain@, requires_exact_tld) {
            Some(k) => 0 <= k <= domain@.len() && r == Some(utf8_len(domain@.take(k)) as usize),
            None => r is None,
        },
{
    let d = chars_of(domain);
    proof {
        lemma_tld_boundary_bounds(d@, requires_exact_tld);
    }
    match tld_boundary_of(&d, requires_exact_tld) {
        Some(k) => Some(prefix_byte_len(domain, k)),
        None => None,
    }
}

// ---------------------------------------------------------------------------
// Where the valid part of a domain ends lies within the domain.

proof fn lemma_first_mixing_exists(l: Seq<char>, j: int)
    requires
        mixing_at(l, j),
    ensures
        exists|k: int| first_mixing(l, k),
    decreases j,
{
    if exists|k: int| 0 <= k < j && mixing_at(l, k) {
        let k = choose|k: int| 0 <= k < j && mixing_at(l, k);
        lemma_first_mixing_exists(l, k);
    } else {
        assert(first_mixing(l, j));
    }
}

/// The part of a label before it mixes scripts lies within the label.
pub proof fn lemma_script_boundary_bounds(l: Seq<char>)
    ensures
        0 <= script_boundary(l) <= l.len(),
{
    if exists|j: int| mixing_at(l, j) {
        let j = choose|j: int| mixing_at(l, j);
        lemma_first_mixing_exists(l, j);
        let c = choose|c: int| first_mixing(l, c);
        assert(first_mixing(l, c));
    }
}

proof fn lemma_last_mixed_exists(d: Seq<char>, a: int)
    requires
        mixed_label(d, a),
    ensures
        exists|b: int| last_mixed_label(d, b),
    decreases d.len() - a,
{
    if exists|b: int| a < b && mixed_label(d, b) {
        let b = choose|b: int| a < b && mixed_label(d, b);
        lemma_last_mixed_exists(d, b);
    } else {
        assert(last_mixed_label(d, a));
    }
}

/// Where the valid part of a domain ends lies within the domain.
pub proof fn lemma_domain_end_bounds(d: Seq<char>)
    ensures
        0 <= domain_end(d) <= d.len(),
{
    if exists|a: int| mixed_label(d, a) {
        let a0 = choose|a: int| mixed_label(d, a);
        lemma_last_mixed_exists(d, a0);
        let a = choose|a: int| last_mixed_label(d, a);
        assert(last_mixed_label(d, a));
        lemma_find_char_bounds(d, a, '.');
        lemma_script_boundary_bounds(label(d, a));
    }
}

proof fn lemma_scan_mixed_bounds(d: Seq<char>, j: int)
    ensures
        scan_mixed(d, j) matches Some(k) ==> 1 <= k <= d.len(),
    decreases d.len() - j,
{
    if 0 <= j < d.len() {
        lemma_find_char_bounds(d, j + 1, '.');
        lemma_script_boundary_bounds(label(d, j + 1));
        lemma_scan_mixed_bounds(d, j + 1);
    }
}

proof fn lemma_tld_prefix_bounds(seg: Seq<char>, k: int)
    ensures
        tld_prefix_from(seg, k) matches Some(r) ==> k <= r < seg.len(),
    decreases seg.len() - k,
{
    if 0 <= k < seg.len() && !is_tld_ci(seg.take(k)) {
        lemma_tld_prefix_bounds(seg, k + 1);
    }
}

proof fn lemma_scan_rtl_bounds(d: Seq<char>, j: int, exact: bool)
    ensures
        scan_rtl(d, j, exact) matches Some(k) ==> 1 <= k <= d.len(),
    decreases j,
{
    if 0 < j <= d.len() {
        lemma_find_char_bounds(d, j, '.');
        let seg = label(d, j);
        lemma_find_char_bounds(seg, 0, '-');
        lemma_tld_prefix_bounds(seg, 2);
        lemma_scan_rtl_bounds(d, j - 1, exact);
    }
}

/// Where the domain ends at a valid top-level domain lies within it, after
/// at least its first character.
pub proof fn lemma_tld_boundary_bounds(d: Seq<char>, exact: bool)
    ensures
        tld_boundary(d, exact) matches Some(k) ==> 1 <= k <= d.len(),
{
    lemma_scan_mixed_bounds(d, 0);
    lemma_scan_rtl_bounds(d, d.len() as int, exact);
}

} // verus!
