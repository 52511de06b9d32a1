//! Validation of the URLs that the grammar finds: the host must end at a
//! valid top-level domain, may be cut back to where it does, and must have
//! an ASCII form that keeps the URL within `MAX_URL_LENGTH`.
use vstd::prelude::*;
use vstd::string::*;
use crate::domain::{domain_end, domain_end_of, tld_boundary, tld_boundary_of};
use crate::scanner::NomEntity;
use crate::text::{
    chars_of, lemma_str_len, lemma_utf8_len_concat, slice_chars, utf8_len, utf8_len_capped,
};
use crate::tlds::{is_tld_ci, is_valid_tld_case_insensitive};

verus! {

broadcast use vstd::string::group_string_axioms;

/// The maximum url length that the Twitter backend supports.
pub const MAX_URL_LENGTH: usize = 4096;

/// The ASCII form of a domain name under UTS #46 processing, with no ASCII
/// deny list, hyphens allowed anywhere and DNS lengths verified, or `None`
/// when the domain has none.
pub uninterp spec fn uts46_ascii(domain: Seq<char>) -> Option<Seq<char>>;

/// Calls `idna::uts46::Uts46::to_ascii` on the domain with
/// `AsciiDenyList::EMPTY`, `Hyphens::Allow` and `DnsLength::Verify`, and
/// gives back the ASCII form, or `None` on an error. Claimed: the result is
/// `uts46_ascii` of the domain, a function of the domain alone. What that
/// form is, is not stated.
#[verifier::external_body]
fn domain_to_ascii(domain: &str) -> (r: Option<String>)
    ensures
        match r {
            Some(a) => uts46_ascii(domain@) == Some(a@),
            None => uts46_ascii(domain@) is None,
        },
{
    let uts46 = idna::uts46::Uts46::new();
    match uts46.to_ascii(
        domain.as_bytes(),
        idna::uts46::AsciiDenyList::EMPTY,
        idna::uts46::Hyphens::Allow,
        idna::uts46::DnsLength::Verify,
    ) {
        Ok(a) => Some(a.into_owned()),
        Err(_) => None,
    }
}

/// The length that a missing `https://` adds to a URL without a scheme.
pub open spec fn scheme_allowance(has_scheme: bool) -> int {
    if has_scheme {
        0
    } else {
        8
    }
}

/// A URL whose domain is replaced by its ASCII form, and which is given a
/// scheme if it has none, is shorter than `MAX_URL_LENGTH` bytes.
pub open spec fn length_ok(original: int, domain: int, punycode: int, has_scheme: bool) -> bool {
    scheme_allowance(has_scheme) + original - domain + punycode < MAX_URL_LENGTH
}

/// Whether the URL `original`, with its domain `original_domain` replaced by
/// `punycode_domain` (and `https://` added when `has_scheme` is false), is
/// shorter than `MAX_URL_LENGTH` bytes.
pub fn length_check(
    original: &str,
    original_domain: &str,
    punycode_domain: &str,
    has_scheme: bool,
) -> (r: bool)
    requires
        utf8_len(original_domain@) <= scheme_allowance(has_scheme) + utf8_len(original@),
        scheme_allowance(has_scheme) + utf8_len(original@) <= usize::MAX,
        scheme_allowance(has_scheme) + utf8_len(original@) - utf8_len(original_domain@) + utf8_len(
            punycode_domain@,
        ) <= usize::MAX,
    ensures
        r == length_ok(
            utf8_len(original@) as int,
            utf8_len(original_domain@) as int,
            utf8_len(punycode_domain@) as int,
            has_scheme,
        ),
{
    proof {
        lemma_str_len(original);
        lemma_str_len(original_domain);
        lemma_str_len(punycode_domain);
    }
    let length: usize = if has_scheme { 0 } else { 8 };
    (length + original.len() - original_domain.len() + punycode_domain.len()) < MAX_URL_LENGTH
}

/// The URL starts with `http://` or `https://`, in lower case.
pub open spec fn starts_with_http(o: Seq<char>) -> bool {
    &&& o.len() >= 7
    &&& o[0] == 'h' && o[1] == 't' && o[2] == 't' && o[3] == 'p'
    &&& ((o[4] == ':' && o[5] == '/' && o[6] == '/') || (o.len() >= 8 && o[4] == 's' && o[5] == ':'
        && o[6] == '/' && o[7] == '/'))
}

fn starts_with_http_of(o: &Vec<char>) -> (r: bool)
    ensures
        r == starts_with_http(o@),
{
    o.len() >= 7 && o[0] == 'h' && o[1] == 't' && o[2] == 't' && o[3] == 'p' && ((o[4] == ':'
        && o[5] == '/' && o[6] == '/') || (o.len() >= 8 && o[4] == 's' && o[5] == ':' && o[6]
        == '/' && o[7] == '/'))
}

/// The domain of the URL has an ASCII form, and the URL with it stays
/// within the length limit.
pub open spec fn valid_punycode(o: Seq<char>, d: Seq<char>) -> bool {
    match uts46_ascii(d) {
        Some(a) => length_ok(
            utf8_len(o) as int,
            utf8_len(d) as int,
            utf8_len(a) as int,
            starts_with_http(o),
        ),
        None => false,
    }
}

fn valid_punycode_str(original: &str, domain: &str) -> (r: bool)
    requires
        utf8_len(domain@) <= utf8_len(original@) <= usize::MAX,
    ensures
        r == valid_punycode(original@, domain@),
{
    proof {
        lemma_str_len(original);
        lemma_str_len(domain);
    }
    match domain_to_ascii(domain) {
        Some(a) => {
            let a_str = a.as_str();
            let a_chars = chars_of(a_str);
            let al = utf8_len_capped(&a_chars, MAX_URL_LENGTH);
            let o = chars_of(original);
            let has_protocol = starts_with_http_of(&o);
            if original.len() - domain.len() >= MAX_URL_LENGTH || al >= MAX_URL_LENGTH {
                return false;
            }
            if original.len() <= usize::MAX - 8 {
                length_check(original, domain, a_str, has_protocol)
            } else {
                let allowance: usize = if has_protocol { 0 } else { 8 };
                allowance + (original.len() - domain.len()) + al < MAX_URL_LENGTH
            }
        },
        None => false,
    }
}

/// The position of the last dot before `j`, or -1.
pub open spec fn rfind_dot(s: Seq<char>, j: int) -> int
    decreases j,
{
    if j <= 0 {
        -1
    } else if s[j - 1] == '.' {
        j - 1
    } else {
        rfind_dot(s, j - 1)
    }
}

proof fn lemma_rfind_dot_bounds(s: Seq<char>, j: int)
    ensures
        rfind_dot(s, j) >= 0 ==> rfind_dot(s, j) < j,
    decreases j,
{
    if j > 0 && s[j - 1] != '.' {
        lemma_rfind_dot_bounds(s, j - 1);
    }
}

fn rfind_dot_of(s: &Vec<char>, j: usize) -> (r: Option<usize>)
    requires
        j <= s.len(),
    ensures
        match r {
            Some(x) => rfind_dot(s@, j as int) == x as int && x < j,
            None => rfind_dot(s@, j as int) == -1,
        },
{
    let mut k: usize = j;
    while k > 0
        invariant
            k <= j <= s.len(),
            rfind_dot(s@, j as int) == rfind_dot(s@, k as int),
        decreases k,
    {
        if s[k - 1] == '.' {
            return Some(k - 1);
        }
        k = k - 1;
    }
    None
}

/// The host `t.co`, which needs no top-level domain check.
pub open spec fn tco() -> Seq<char> {
    seq!['t', '.', 'c', 'o']
}

/// The span of the URL and of its host, in the text.
pub open spec fn url_text(s: Seq<char>, t: NomEntity) -> Seq<char> {
    s.subrange(t.start as int, t.end as int)
}

pub open spec fn url_host(s: Seq<char>, t: NomEntity) -> Seq<char> {
    s.subrange(t.host_start as int, t.host_end as int)
}

/// The URL is well placed in the text.
pub open spec fn url_in_text(s: Seq<char>, t: NomEntity) -> bool {
    t.start <= t.host_start <= t.host_end <= t.end <= s.len()
}

/// Whether the URL `t` of the text is valid, and if so, how many characters
/// to cut from its end. A URL whose host does not lie within it is not
/// valid. `exact` is set for URLs without a protocol, which are cut at a
/// label that mixes scripts; otherwise the host is cut back to its valid
/// top-level domain (see `tld_boundary`), and everything after the host
/// goes with what is cut. A URL that keeps its whole host must have a valid
/// ASCII form (see `valid_punycode`).
pub open spec fn validate_url(s: Seq<char>, t: NomEntity, exact: bool) -> Option<int> {
    let o = url_text(s, t);
    let d = url_host(s, t);
    let after = t.end - t.host_end;
    if !url_in_text(s, t) {
        None
    } else if d == tco() {
        if valid_punycode(o, d) {
            Some(0)
        } else {
            None
        }
    } else if exact && domain_end(d) < d.len() {
        let ve = domain_end(d);
        let ld = rfind_dot(d, ve);
        if ld >= 0 && is_tld_ci(d.subrange(ld + 1, ve)) {
            Some(d.len() - ve + after)
        } else {
            None
        }
    } else {
        match tld_boundary(d, exact) {
            Some(k) => if k == d.len() {
                if valid_punycode(o, d) {
                    Some(0)
                } else {
                    None
                }
            } else {
                Some(d.len() - k + after)
            },
            None => None,
        }
    }
}

fn is_tco(d: &Vec<char>) -> (r: bool)
    ensures
        r == (d@ == tco()),
{
    if d.len() == 4 && d[0] == 't' && d[1] == '.' && d[2] == 'c' && d[3] == 'o' {
        assert(d@ =~= tco());
        true
    } else {
        assert(d@.len() != 4 || d@[0] != tco()[0] || d@[1] != tco()[1] || d@[2] != tco()[2]
            || d@[3] != tco()[3]);
        false
    }
}

proof fn lemma_utf8_len_sub(s: Seq<char>, a: int, b: int, c: int, e: int)
    requires
        0 <= a <= b <= c <= e <= s.len(),
    ensures
        utf8_len(s.subrange(b, c)) <= utf8_len(s.subrange(a, e)),
{
    lemma_utf8_len_concat(s.subrange(a, b), s.subrange(b, c));
    lemma_utf8_len_concat(s.subrange(a, c), s.subrange(c, e));
    assert(s.subrange(a, b) + s.subrange(b, c) =~= s.subrange(a, c));
    assert(s.subrange(a, c) + s.subrange(c, e) =~= s.subrange(a, e));
}

/// Validates the URL `entity` of the text: `Some(n)` when it is valid once
/// its last `n` characters are cut, `None` when it is not valid, and so
/// when its host ends after it or starts after its own end.
#[verifier::rlimit(40)]
pub fn validate_url_nom(
    text: &str,
    v: &Vec<char>,
    entity: &NomEntity,
    requires_exact_tld: bool,
) -> (r: Option<usize>)
    requires
        v@ == text@,
        entity.start <= entity.end <= v@.len(),
        entity.start <= entity.host_start,
        entity.start <= entity.host_end,
        utf8_len(text@) <= usize::MAX,
    ensures
        match r {
            Some(n) => validate_url(v@, *entity, requires_exact_tld) == Some(n as int) && n
                < entity.end - entity.start && n <= entity.end - entity.host_start,
            None => validate_url(v@, *entity, requires_exact_tld) is None,
        },
        !url_in_text(v@, *entity) ==> r is None,
{
    let start = entity.start;
    let end = entity.end;
    let hs = entity.host_start;
    let he = entity.host_end;
    if he > end || hs > he {
        return None;
    }
    proof {
        crate::domain::lemma_domain_end_bounds(v@.subrange(hs as int, he as int));
        crate::domain::lemma_tld_boundary_bounds(
            v@.subrange(hs as int, he as int),
            requires_exact_tld,
        );
        lemma_rfind_dot_bounds(
            v@.subrange(hs as int, he as int),
            domain_end(v@.subrange(hs as int, he as int)),
        );
    }
    let d = slice_chars(v, hs, he);
    let original = text.substring_char(start, end);
    let domain = text.substring_char(hs, he);
    proof {
        lemma_utf8_len_sub(v@, start as int, hs as int, he as int, end as int);
        lemma_utf8_len_sub(v@, 0, start as int, end as int, v@.len() as int);
        assert(v@.subrange(0, v@.len() as int) =~= v@);
    }
    if is_tco(&d) {
        return if valid_punycode_str(original, domain) {
            Some(0)
        } else {
            None
        };
    }
    if requires_exact_tld {
        let ve = domain_end_of(&d);
        if ve < d.len() {
            match rfind_dot_of(&d, ve) {
                Some(ld) => {
                    let t = slice_chars(&d, ld + 1, ve);
                    if is_valid_tld_case_insensitive(t.as_slice()) {
                        return Some(d.len() - ve + (end - he));
                    }
                },
                None => {},
            }
            return None;
        }
    }
    match tld_boundary_of(&d, requires_exact_tld) {
        Some(k) => {
            if k == d.len() {
                if valid_punycode_str(original, domain) {
                    Some(0)
                } else {
                    None
                }
            } else {
                Some(d.len() - k + (end - he))
            }
        },
        None => None,
    }
}

/// A valid URL lies within the text, and is cut at most back to the start
/// of its host, keeping at least its first character.
pub proof fn lemma_validate_url_bounds(s: Seq<char>, t: NomEntity, exact: bool)
    ensures
        validate_url(s, t, exact) matches Some(n) ==> url_in_text(s, t) && 0 <= n
            <= t.end - t.host_start && n < t.end - t.start,
{
    let d = url_host(s, t);
    crate::domain::lemma_domain_end_bounds(d);
    crate::domain::lemma_tld_boundary_bounds(d, exact);
    lemma_rfind_dot_bounds(d, domain_end(d));
}

} // verus!
