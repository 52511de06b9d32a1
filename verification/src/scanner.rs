//! The tweet grammar: which spans of a text are URLs, hashtags, cashtags,
//! mentions, lists, federated mentions, emoji and invalid characters.
//!
//! The text is scanned from left to right; at each position the first rule
//! that matches there yields an entity, and scanning resumes after it.
use vstd::prelude::*;
use crate::chars::{
    is_alnum, is_alpha, is_at_sign, is_digit, is_domain_char, is_emoji_extender,
    is_emoji_modifier, is_hash_sign, is_invalid_char, is_latin, is_path_char, is_path_end_char,
    is_pictographic, is_regional_indicator, is_space, is_unicode_word, is_username_char,
    is_word_char, is_zwj,
};
use crate::chars::{
    is_alnum_char, is_alpha_char, is_at, is_digit_char, is_domain, is_emoji_extender_char,
    is_emoji_modifier_char, is_hash, is_invalid, is_latin_char, is_path, is_path_end,
    is_pictographic_char, is_regional_indicator_char, is_space_char, is_unicode_word_char,
    is_username, is_word,
};
use crate::tlds::{ascii_lower, to_ascii_lower};

verus! {

/// The kinds of entity that the grammar finds.
#[derive(PartialEq, Eq, Structural, Clone, Copy, Debug)]
pub enum NomEntityType {
    Url,
    UrlWithoutProtocol,
    Hashtag,
    Cashtag,
    Username,
    List,
    FederatedMention,
    Emoji,
    InvalidChar,
}

/// An entity found in a text: its kind and its span, as character indices
/// `start..end`. For URLs, `host_start..host_end` is the span of the host;
/// for other kinds both are `start`.
#[derive(PartialEq, Eq, Structural, Clone, Copy, Debug)]
pub struct NomEntity {
    pub entity_type: NomEntityType,
    pub start: usize,
    pub end: usize,
    pub host_start: usize,
    pub host_end: usize,
}

/// The classes of character whose runs the grammar measures.
#[derive(PartialEq, Eq, Structural, Clone, Copy)]
pub enum CharClass {
    Word,
    DomainOrDot,
    Username,
    ListChar,
    Alpha,
    Digit,
    Path,
    Space,
}

pub open spec fn in_class(cls: CharClass, c: char) -> bool {
    match cls {
        CharClass::Word => is_word_char(c),
        CharClass::DomainOrDot => is_domain_char(c) || c == '.',
        CharClass::Username => is_username_char(c),
        CharClass::ListChar => is_username_char(c) || c == '-',
        CharClass::Alpha => is_alpha(c),
        CharClass::Digit => is_digit(c),
        CharClass::Path => is_path_char(c),
        CharClass::Space => is_space(c),
    }
}

/// The end of the run of characters of class `cls` that starts at `i`.
pub open spec fn run_end(s: Seq<char>, i: int, cls: CharClass) -> int
    decreases s.len() - i,
{
    if 0 <= i < s.len() && in_class(cls, s[i]) {
        run_end(s, i + 1, cls)
    } else {
        i
    }
}

/// `hi`, moved left past the dots that end `s[lo..hi]`.
pub open spec fn trim_dots(s: Seq<char>, lo: int, hi: int) -> int
    decreases hi - lo,
{
    if lo < hi && s[hi - 1] == '.' {
        trim_dots(s, lo, hi - 1)
    } else {
        hi
    }
}

/// How many times `c` occurs in `s[lo..hi]`.
pub open spec fn count_in(s: Seq<char>, lo: int, hi: int, c: char) -> int
    decreases hi - lo,
{
    if hi <= lo {
        0
    } else {
        count_in(s, lo, hi - 1, c) + if s[hi - 1] == c { 1int } else { 0int }
    }
}

/// A path `s[p..e]` may end at `e`: its last character is one that can end
/// a URL, or a closing parenthesis that closes one the path opened.
pub open spec fn path_end_ok(s: Seq<char>, p: int, e: int) -> bool {
    ||| is_path_end_char(s[e - 1])
    ||| (s[e - 1] == ')' && count_in(s, p, e, '(') >= count_in(s, p, e, ')'))
}

/// The end of the path that starts at `p`, when its characters reach `e`:
/// the last position at which the path may end, or `p` when there is none.
pub open spec fn trim_path(s: Seq<char>, p: int, e: int) -> int
    decreases e - p,
{
    if e <= p {
        p
    } else if path_end_ok(s, p, e) {
        e
    } else {
        trim_path(s, p, e - 1)
    }
}

/// `c` is the letter `l` (given in lower case) in either case.
pub open spec fn letter_is(c: char, l: char) -> bool {
    ascii_lower(c) == l
}

/// `s[i..i+3]` is `://`.
pub open spec fn scheme_separator_at(s: Seq<char>, i: int) -> bool {
    0 <= i && i + 3 <= s.len() && s[i] == ':' && s[i + 1] == '/' && s[i + 2] == '/'
}

/// The length of the `http://` or `https://` that starts at `i`, in either
/// case, or 0.
pub open spec fn protocol_len(s: Seq<char>, i: int) -> int {
    if 0 <= i && i + 4 <= s.len() && letter_is(s[i], 'h') && letter_is(s[i + 1], 't')
        && letter_is(s[i + 2], 't') && letter_is(s[i + 3], 'p') {
        if scheme_separator_at(s, i + 4) {
            7
        } else if i + 5 <= s.len() && letter_is(s[i + 4], 's') && scheme_separator_at(s, i + 5) {
            8
        } else {
            0
        }
    } else {
        0
    }
}

/// The end of the host that starts at `hs`: the run of domain characters
/// and dots, without the dots that end it.
pub open spec fn host_end(s: Seq<char>, hs: int) -> int {
    trim_dots(s, hs, run_end(s, hs, CharClass::DomainOrDot))
}

/// `s[lo..hi]` holds the character `c`.
pub open spec fn has_char(s: Seq<char>, lo: int, hi: int, c: char) -> bool {
    exists|k: int| lo <= k < hi && s[k] == c
}

/// `s[hs..he]` is a host: it starts with a letter or digit and holds a dot.
pub open spec fn host_ok(s: Seq<char>, hs: int, he: int) -> bool {
    &&& 0 <= hs < he <= s.len()
    &&& (is_alnum(s[hs]) || is_unicode_word(s[hs]))
    &&& has_char(s, hs, he, '.')
}

/// The end of the port that may follow a host ending at `he`.
pub open spec fn port_end(s: Seq<char>, he: int) -> int {
    if 0 <= he && he + 1 < s.len() && s[he] == ':' && is_digit(s[he + 1]) {
        run_end(s, he + 1, CharClass::Digit)
    } else {
        he
    }
}

/// The end of the URL whose host and port end at `pe`: a path, query or
/// fragment may follow.
pub open spec fn url_end(s: Seq<char>, pe: int) -> int {
    if 0 <= pe < s.len() && (s[pe] == '/' || s[pe] == '?' || s[pe] == '#') {
        trim_path(s, pe, run_end(s, pe, CharClass::Path))
    } else {
        pe
    }
}

pub open spec fn entity(k: NomEntityType, i: int, e: int) -> NomEntity {
    NomEntity { entity_type: k, start: i as usize, end: e as usize, host_start: i as usize, host_end: i as usize }
}

/// What may stand before a URL with a protocol.
pub open spec fn url_prefix_ok(s: Seq<char>, i: int) -> bool {
    i == 0 || !(is_alnum(s[i - 1]) || is_at_sign(s[i - 1]) || s[i - 1] == '$' || is_hash_sign(
        s[i - 1],
    ))
}

/// What may stand before a URL without a protocol.
pub open spec fn uwp_prefix_ok(s: Seq<char>, i: int) -> bool {
    i == 0 || !(is_domain_char(s[i - 1]) || s[i - 1] == '.' || s[i - 1] == '/' || is_at_sign(
        s[i - 1],
    ) || s[i - 1] == '$' || is_hash_sign(s[i - 1]))
}

/// A URL with a protocol at `i`.
pub open spec fn url_at(s: Seq<char>, i: int) -> Option<NomEntity> {
    let pl = protocol_len(s, i);
    if pl > 0 && url_prefix_ok(s, i) {
        let hs = i + pl;
        let he = host_end(s, hs);
        if host_ok(s, hs, he) {
            Some(
                NomEntity {
                    entity_type: NomEntityType::Url,
                    start: i as usize,
                    end: url_end(s, port_end(s, he)) as usize,
                    host_start: hs as usize,
                    host_end: he as usize,
                },
            )
        } else {
            None
        }
    } else {
        None
    }
}

/// A URL without a protocol at `i`. It may not be followed by an at sign,
/// as in an e-mail address.
pub open spec fn uwp_at(s: Seq<char>, i: int) -> Option<NomEntity> {
    if uwp_prefix_ok(s, i) {
        let he = host_end(s, i);
        if host_ok(s, i, he) && !(he < s.len() && is_at_sign(s[he])) {
            Some(
                NomEntity {
                    entity_type: NomEntityType::UrlWithoutProtocol,
                    start: i as usize,
                    end: url_end(s, port_end(s, he)) as usize,
                    host_start: i as usize,
                    host_end: he as usize,
                },
            )
        } else {
            None
        }
    } else {
        None
    }
}

/// The end of the modifiers, variation selectors, tags and joined
/// pictographs that continue an emoji from `j`.
pub open spec fn emoji_tail(s: Seq<char>, j: int) -> int
    decreases s.len() - j,
{
    if 0 <= j < s.len() && (is_emoji_modifier(s[j]) || is_emoji_extender(s[j])) {
        emoji_tail(s, j + 1)
    } else if 0 <= j && j + 1 < s.len() && is_zwj(s[j]) && is_pictographic(s[j + 1]) {
        emoji_tail(s, j + 2)
    } else {
        j
    }
}

/// `c` starts a keycap emoji when the combining keycap follows it.
pub open spec fn is_keycap_base(c: char) -> bool {
    is_digit(c) || c == '#' || c == '*'
}

/// The end of the emoji at `i`, or `i` when none starts there.
pub open spec fn emoji_end(s: Seq<char>, i: int) -> int {
    if is_pictographic(s[i]) {
        emoji_tail(s, i + 1)
    } else if is_regional_indicator(s[i]) {
        if i + 1 < s.len() && is_regional_indicator(s[i + 1]) {
            emoji_tail(s, i + 2)
        } else {
            i + 1
        }
    } else if is_keycap_base(s[i]) {
        if i + 1 < s.len() && s[i + 1] == '\u{20E3}' {
            i + 2
        } else if i + 2 < s.len() && s[i + 1] == '\u{FE0F}' && s[i + 2] == '\u{20E3}' {
            i + 3
        } else {
            i
        }
    } else {
        i
    }
}

/// `s[a..b]` holds a character other than an ASCII digit.
pub open spec fn has_non_digit(s: Seq<char>, a: int, b: int) -> bool {
    exists|k: int| a <= k < b && !is_digit(s[k])
}

/// A hashtag at `i`: a hash sign that no word character or `&` precedes,
/// then word characters, not all digits, not followed by another hash sign
/// or by `://`.
pub open spec fn hashtag_at(s: Seq<char>, i: int) -> Option<NomEntity> {
    if is_hash_sign(s[i]) && (i == 0 || !(is_word_char(s[i - 1]) || s[i - 1] == '&')) {
        let e = run_end(s, i + 1, CharClass::Word);
        if e > i + 1 && has_non_digit(s, i + 1, e) && !(e < s.len() && is_hash_sign(s[e]))
            && !scheme_separator_at(s, e) {
            Some(entity(NomEntityType::Hashtag, i, e))
        } else {
            None
        }
    } else {
        None
    }
}

/// ASCII punctuation.
pub open spec fn is_ascii_punct(c: char) -> bool {
    ('!' <= c <= '/') || (':' <= c <= '@') || ('[' <= c <= '`') || ('{' <= c <= '~')
}

/// What may follow a cashtag.
pub open spec fn cashtag_end_ok(s: Seq<char>, e: int) -> bool {
    e >= s.len() || is_space(s[e]) || is_ascii_punct(s[e])
}

/// A cashtag at `i`: a dollar sign at the start or after white space, one
/// to six letters, and optionally `.` or `_` and one or two letters.
pub open spec fn cashtag_at(s: Seq<char>, i: int) -> Option<NomEntity> {
    if s[i] == '$' && (i == 0 || is_space(s[i - 1])) {
        let a = run_end(s, i + 1, CharClass::Alpha);
        if 1 <= a - (i + 1) <= 6 {
            let b = if a + 1 < s.len() && (s[a] == '.' || s[a] == '_') && is_alpha(s[a + 1]) {
                run_end(s, a + 1, CharClass::Alpha)
            } else {
                a
            };
            if b > a && b - (a + 1) <= 2 && cashtag_end_ok(s, b) {
                Some(entity(NomEntityType::Cashtag, i, b))
            } else if cashtag_end_ok(s, a) {
                Some(entity(NomEntityType::Cashtag, i, a))
            } else {
                None
            }
        } else {
            None
        }
    } else {
        None
    }
}

/// What may stand before a mention.
pub open spec fn mention_prefix_ok(s: Seq<char>, i: int) -> bool {
    i == 0 || {
        let p = s[i - 1];
        !(is_username_char(p) || p == '!' || p == '#' || p == '$' || p == '%' || p == '&' || p
            == '*' || is_at_sign(p))
    }
}

/// The end of a part of a federated mention from `j`: runs of user name
/// characters joined by single `.` or `-`.
pub open spec fn fed_part_end(s: Seq<char>, j: int) -> int
    decreases s.len() - j,
{
    let w = run_end(s, j, CharClass::Username);
    if w > j && w + 1 < s.len() && (s[w] == '.' || s[w] == '-') && is_username_char(s[w + 1]) {
        fed_part_end(s, w + 1)
    } else {
        w
    }
}

/// The longest federated domain.
pub open spec fn max_domain_len() -> int {
    253
}

/// A federated mention at `i`: `@user@domain`, where the domain holds a dot.
pub open spec fn federated_at(s: Seq<char>, i: int) -> Option<NomEntity> {
    let u = fed_part_end(s, i + 1);
    if u > i + 1 && u < s.len() && s[u] == '@' {
        let d = fed_part_end(s, u + 1);
        if d > u + 1 && d - (u + 1) <= max_domain_len() && has_char(s, u + 1, d, '.') && !(d
            < s.len() && is_at_sign(s[d])) {
            Some(entity(NomEntityType::FederatedMention, i, d))
        } else {
            None
        }
    } else {
        None
    }
}

/// The longest user name, and the longest list slug after its `/`.
pub open spec fn max_username_len() -> int {
    20
}

pub open spec fn max_slug_len() -> int {
    25
}

/// A mention or a list at `i`: one to twenty user name characters, then
/// either `/` and a slug (a list), or nothing that continues the name.
pub open spec fn mention_or_list_at(s: Seq<char>, i: int) -> Option<NomEntity> {
    let u = run_end(s, i + 1, CharClass::Username);
    if 1 <= u - (i + 1) <= max_username_len() {
        if u + 1 < s.len() && s[u] == '/' && is_alpha(s[u + 1]) {
            let le = run_end(s, u + 1, CharClass::ListChar);
            let le2 = if le - (u + 1) <= max_slug_len() { le } else { u + 1 + max_slug_len() };
            Some(entity(NomEntityType::List, i, le2))
        } else if u < s.len() && (is_at_sign(s[u]) || is_latin(s[u])) {
            None
        } else if scheme_separator_at(s, u) {
            None
        } else {
            Some(entity(NomEntityType::Username, i, u))
        }
    } else {
        None
    }
}

/// The entity that an at sign at `i` starts, if any.
pub open spec fn at_token(s: Seq<char>, i: int) -> Option<NomEntity> {
    if mention_prefix_ok(s, i) {
        match federated_at(s, i) {
            Some(t) => Some(t),
            None => mention_or_list_at(s, i),
        }
    } else {
        None
    }
}

/// The entity that starts at `i`, if any; the rules are tried in order.
pub open spec fn token_at(s: Seq<char>, i: int) -> Option<NomEntity> {
    if is_invalid_char(s[i]) {
        Some(entity(NomEntityType::InvalidChar, i, i + 1))
    } else if emoji_end(s, i) > i {
        Some(entity(NomEntityType::Emoji, i, emoji_end(s, i)))
    } else if is_at_sign(s[i]) {
        at_token(s, i)
    } else if is_hash_sign(s[i]) {
        hashtag_at(s, i)
    } else if s[i] == '$' {
        cashtag_at(s, i)
    } else {
        match url_at(s, i) {
            Some(t) => Some(t),
            None => uwp_at(s, i),
        }
    }
}

/// The entities of `s[i..]`, in order.
pub open spec fn tokens_from(s: Seq<char>, i: int) -> Seq<NomEntity>
    decreases s.len() - i,
{
    if i < 0 || i >= s.len() {
        Seq::empty()
    } else {
        match token_at(s, i) {
            Some(t) => if i < t.end <= s.len() {
                seq![t] + tokens_from(s, t.end as int)
            } else {
                tokens_from(s, i + 1)
            },
            None => tokens_from(s, i + 1),
        }
    }
}

/// The entities of `s`, in order.
pub open spec fn tokens(s: Seq<char>) -> Seq<NomEntity> {
    tokens_from(s, 0)
}


// ---------------------------------------------------------------------------
// Facts about the grammar.

pub proof fn lemma_run_end(s: Seq<char>, i: int, cls: CharClass)
    requires
        0 <= i <= s.len(),
    ensures
        i <= run_end(s, i, cls) <= s.len(),
        forall|k: int| i <= k < run_end(s, i, cls) ==> in_class(cls, #[trigger] s[k]),
        run_end(s, i, cls) < s.len() ==> !in_class(cls, s[run_end(s, i, cls)]),
    decreases s.len() - i,
{
    if i < s.len() && in_class(cls, s[i]) {
        lemma_run_end(s, i + 1, cls);
    }
}

pub proof fn lemma_trim_dots(s: Seq<char>, lo: int, hi: int)
    requires
        lo <= hi,
    ensures
        lo <= trim_dots(s, lo, hi) <= hi,
    decreases hi - lo,
{
    if lo < hi && s[hi - 1] == '.' {
        lemma_trim_dots(s, lo, hi - 1);
    }
}

pub proof fn lemma_trim_path(s: Seq<char>, p: int, e: int)
    requires
        p <= e,
    ensures
        p <= trim_path(s, p, e) <= e,
    decreases e - p,
{
    if p < e && !path_end_ok(s, p, e) {
        lemma_trim_path(s, p, e - 1);
    }
}

pub proof fn lemma_emoji_tail(s: Seq<char>, j: int)
    requires
        0 <= j <= s.len(),
    ensures
        j <= emoji_tail(s, j) <= s.len(),
    decreases s.len() - j,
{
    if j < s.len() && (is_emoji_modifier(s[j]) || is_emoji_extender(s[j])) {
        lemma_emoji_tail(s, j + 1);
    } else if j + 1 < s.len() && is_zwj(s[j]) && is_pictographic(s[j + 1]) {
        lemma_emoji_tail(s, j + 2);
    }
}

pub proof fn lemma_fed_part_end(s: Seq<char>, j: int)
    requires
        0 <= j <= s.len(),
    ensures
        j <= fed_part_end(s, j) <= s.len(),
    decreases s.len() - j,
{
    let w = run_end(s, j, CharClass::Username);
    lemma_run_end(s, j, CharClass::Username);
    if w > j && w + 1 < s.len() && (s[w] == '.' || s[w] == '-') && is_username_char(s[w + 1]) {
        lemma_fed_part_end(s, w + 1);
    }
}

pub proof fn lemma_url_end(s: Seq<char>, he: int)
    requires
        0 <= he <= s.len(),
    ensures
        he <= port_end(s, he) <= url_end(s, port_end(s, he)) <= s.len(),
{
    if he + 1 < s.len() && s[he] == ':' && is_digit(s[he + 1]) {
        lemma_run_end(s, he + 1, CharClass::Digit);
    }
    let pe = port_end(s, he);
    if pe < s.len() && (s[pe] == '/' || s[pe] == '?' || s[pe] == '#') {
        lemma_run_end(s, pe, CharClass::Path);
        lemma_trim_path(s, pe, run_end(s, pe, CharClass::Path));
    }
}

pub proof fn lemma_host_end(s: Seq<char>, hs: int)
    requires
        0 <= hs <= s.len(),
    ensures
        hs <= host_end(s, hs) <= s.len(),
{
    lemma_run_end(s, hs, CharClass::DomainOrDot);
    lemma_trim_dots(s, hs, run_end(s, hs, CharClass::DomainOrDot));
}

/// An entity that the grammar finds at `i` starts there, ends after it and
/// within the text, and a URL's host lies within it.
pub open spec fn token_in_bounds(s: Seq<char>, i: int, t: NomEntity) -> bool {
    &&& t.start == i
    &&& i < t.end <= s.len()
    &&& t.start <= t.host_start <= t.host_end <= t.end
    &&& list_name_ok(s, t)
}

/// A list's user name ends before the list does.
pub open spec fn list_name_ok(s: Seq<char>, t: NomEntity) -> bool {
    t.entity_type == NomEntityType::List ==> run_end(s, t.start + 1, CharClass::Username) < t.end
}

pub proof fn lemma_token_at(s: Seq<char>, i: int)
    requires
        0 <= i < s.len(),
        s.len() <= usize::MAX,
    ensures
        token_at(s, i) matches Some(t) ==> token_in_bounds(s, i, t),
{
    if is_invalid_char(s[i]) {
    } else if emoji_end(s, i) > i {
        lemma_emoji_tail(s, i + 1);
        if i + 2 <= s.len() {
            lemma_emoji_tail(s, i + 2);
        }
    } else if is_at_sign(s[i]) {
        lemma_fed_part_end(s, i + 1);
        let fu = fed_part_end(s, i + 1);
        if fu < s.len() {
            lemma_fed_part_end(s, fu + 1);
        }
        lemma_run_end(s, i + 1, CharClass::Username);
        let u = run_end(s, i + 1, CharClass::Username);
        if u + 1 < s.len() {
            lemma_run_end(s, u + 1, CharClass::ListChar);
        }
    } else if is_hash_sign(s[i]) {
        lemma_run_end(s, i + 1, CharClass::Word);
    } else if s[i] == '$' {
        lemma_run_end(s, i + 1, CharClass::Alpha);
        let a = run_end(s, i + 1, CharClass::Alpha);
        if a + 1 < s.len() {
            lemma_run_end(s, a + 1, CharClass::Alpha);
        }
    } else {
        let pl = protocol_len(s, i);
        if pl > 0 {
            lemma_host_end(s, i + pl);
            lemma_url_end(s, host_end(s, i + pl));
        }
        lemma_host_end(s, i);
        lemma_url_end(s, host_end(s, i));
    }
}


/// The entities of `s[i..]` lie within it, each after the one before.
pub open spec fn tokens_ordered(s: Seq<char>, i: int, toks: Seq<NomEntity>) -> bool {
    &&& forall|k: int|
        0 <= k < toks.len() ==> {
            &&& i <= #[trigger] toks[k].start
            &&& toks[k].start < toks[k].end <= s.len()
            &&& toks[k].start <= toks[k].host_start <= toks[k].host_end <= toks[k].end
            &&& list_name_ok(s, toks[k])
        }
    &&& forall|k: int| 0 <= k < toks.len() - 1 ==> #[trigger] toks[k].end <= toks[k + 1].start
}

pub proof fn lemma_tokens_ordered(s: Seq<char>, i: int)
    requires
        0 <= i,
        s.len() <= usize::MAX,
    ensures
        tokens_ordered(s, i, tokens_from(s, i)),
    decreases s.len() - i,
{
    if i < s.len() {
        lemma_token_at(s, i);
        match token_at(s, i) {
            Some(t) => {
                if i < t.end <= s.len() {
                    lemma_tokens_ordered(s, t.end as int);
                    let rest = tokens_from(s, t.end as int);
                    let all = seq![t] + rest;
                    assert(tokens_from(s, i) == all);
                    assert forall|k: int| 0 <= k < all.len() - 1 implies #[trigger] all[k].end
                        <= all[k + 1].start by {
                        if k > 0 {
                            assert(all[k] == rest[k - 1]);
                            assert(all[k + 1] == rest[k]);
                        } else if rest.len() > 0 {
                            assert(all[1] == rest[0]);
                        }
                    }
                    assert forall|k: int| 0 <= k < all.len() implies i <= #[trigger] all[k].start by {
                        if k > 0 {
                            assert(all[k] == rest[k - 1]);
                        }
                    }
                    assert forall|k: int| 0 <= k < all.len() implies (#[trigger] all[k]).start
                        < all[k].end <= s.len() && all[k].start <= all[k].host_start
                        <= all[k].host_end <= all[k].end && list_name_ok(s, all[k]) by {
                        if k > 0 {
                            assert(all[k] == rest[k - 1]);
                        }
                    }
                } else {
                    lemma_tokens_ordered(s, i + 1);
                }
            },
            None => {
                lemma_tokens_ordered(s, i + 1);
            },
        }
    }
}

// ---------------------------------------------------------------------------
// The scanner.

fn class_has(cls: CharClass, c: char) -> (r: bool)
    ensures
        r == in_class(cls, c),
{
    match cls {
        CharClass::Word => is_word(c),
        CharClass::DomainOrDot => is_domain(c) || c == '.',
        CharClass::Username => is_username(c),
        CharClass::ListChar => is_username(c) || c == '-',
        CharClass::Alpha => is_alpha_char(c),
        CharClass::Digit => is_digit_char(c),
        CharClass::Path => is_path(c),
        CharClass::Space => is_space_char(c),
    }
}

pub fn run_while(v: &Vec<char>, i: usize, cls: CharClass) -> (r: usize)
    requires
        i <= v.len(),
    ensures
        r == run_end(v@, i as int, cls),
{
    let mut j: usize = i;
    while j < v.len() && class_has(cls, v[j])
        invariant
            i <= j <= v.len(),
            run_end(v@, i as int, cls) == run_end(v@, j as int, cls),
        decreases v.len() - j,
    {
        j = j + 1;
    }
    j
}

fn trim_dots_at(v: &Vec<char>, lo: usize, hi: usize) -> (r: usize)
    requires
        lo <= hi <= v.len(),
    ensures
        r == trim_dots(v@, lo as int, hi as int),
{
    let mut h: usize = hi;
    while h > lo && v[h - 1] == '.'
        invariant
            lo <= h <= hi <= v.len(),
            trim_dots(v@, lo as int, hi as int) == trim_dots(v@, lo as int, h as int),
        decreases h,
    {
        h = h - 1;
    }
    h
}

pub fn has_char_in(v: &Vec<char>, lo: usize, hi: usize, c: char) -> (r: bool)
    requires
        lo <= hi <= v.len(),
    ensures
        r == has_char(v@, lo as int, hi as int, c),
{
    let mut k: usize = lo;
    while k < hi
        invariant
            lo <= k <= hi <= v.len(),
            forall|j: int| lo <= j < k ==> v@[j] != c,
        decreases hi - k,
    {
        if v[k] == c {
            return true;
        }
        k = k + 1;
    }
    false
}

fn host_end_at(v: &Vec<char>, hs: usize) -> (r: usize)
    requires
        hs <= v.len(),
    ensures
        r == host_end(v@, hs as int),
{
    let e = run_while(v, hs, CharClass::DomainOrDot);
    proof {
        lemma_run_end(v@, hs as int, CharClass::DomainOrDot);
    }
    trim_dots_at(v, hs, e)
}

fn host_ok_at(v: &Vec<char>, hs: usize, he: usize) -> (r: bool)
    requires
        hs <= he <= v.len(),
    ensures
        r == host_ok(v@, hs as int, he as int),
{
    hs < he && (is_alnum_char(v[hs]) || is_unicode_word_char(v[hs])) && has_char_in(v, hs, he, '.')
}

fn port_end_at(v: &Vec<char>, he: usize) -> (r: usize)
    requires
        he <= v.len(),
    ensures
        r == port_end(v@, he as int),
{
    if he < v.len() && v.len() - he > 1 && v[he] == ':' && is_digit_char(v[he + 1]) {
        run_while(v, he + 1, CharClass::Digit)
    } else {
        he
    }
}

fn trim_path_at(v: &Vec<char>, p: usize, e: usize) -> (r: usize)
    requires
        p <= e <= v.len(),
    ensures
        r == trim_path(v@, p as int, e as int),
{
    let mut opens: usize = 0;
    let mut closes: usize = 0;
    let mut k: usize = p;
    while k < e
        invariant
            p <= k <= e <= v.len(),
            opens == count_in(v@, p as int, k as int, '('),
            closes == count_in(v@, p as int, k as int, ')'),
            opens + closes <= k - p,
        decreases e - k,
    {
        if v[k] == '(' {
            opens = opens + 1;
        } else if v[k] == ')' {
            closes = closes + 1;
        }
        k = k + 1;
    }
    let mut h: usize = e;
    while h > p
        invariant
            p <= h <= e <= v.len(),
            opens == count_in(v@, p as int, h as int, '('),
            closes == count_in(v@, p as int, h as int, ')'),
            trim_path(v@, p as int, e as int) == trim_path(v@, p as int, h as int),
        decreases h,
    {
        let c = v[h - 1];
        if is_path_end(c) || (c == ')' && opens >= closes) {
            return h;
        }
        proof {
            assert(count_in(v@, p as int, h as int, '(') >= 0) by {
                lemma_count_nonneg(v@, p as int, h as int, '(');
            }
        }
        if c == '(' {
            proof { lemma_count_nonneg(v@, p as int, h - 1, '('); }
            opens = opens - 1;
        } else if c == ')' {
            proof { lemma_count_nonneg(v@, p as int, h - 1, ')'); }
            closes = closes - 1;
        }
        h = h - 1;
    }
    h
}

pub proof fn lemma_count_nonneg(s: Seq<char>, lo: int, hi: int, c: char)
    ensures
        count_in(s, lo, hi, c) >= 0,
    decreases hi - lo,
{
    if hi > lo {
        lemma_count_nonneg(s, lo, hi - 1, c);
    }
}

fn url_end_at(v: &Vec<char>, pe: usize) -> (r: usize)
    requires
        pe <= v.len(),
    ensures
        r == url_end(v@, pe as int),
{
    if pe < v.len() && (v[pe] == '/' || v[pe] == '?' || v[pe] == '#') {
        let e = run_while(v, pe, CharClass::Path);
        proof {
            lemma_run_end(v@, pe as int, CharClass::Path);
        }
        trim_path_at(v, pe, e)
    } else {
        pe
    }
}

fn letter_is_at(c: char, l: char) -> (r: bool)
    ensures
        r == letter_is(c, l),
{
    to_ascii_lower(c) == l
}

fn scheme_separator(v: &Vec<char>, i: usize) -> (r: bool)
    ensures
        r == scheme_separator_at(v@, i as int),
{
    i <= v.len() && v.len() - i >= 3 && v[i] == ':' && v[i + 1] == '/' && v[i + 2] == '/'
}

fn protocol_len_at(v: &Vec<char>, i: usize) -> (r: usize)
    ensures
        r == protocol_len(v@, i as int),
{
    if i <= v.len() && v.len() - i >= 4 && letter_is_at(v[i], 'h') && letter_is_at(v[i + 1], 't')
        && letter_is_at(v[i + 2], 't') && letter_is_at(v[i + 3], 'p') {
        if scheme_separator(v, i + 4) {
            7
        } else if v.len() - i >= 5 && letter_is_at(v[i + 4], 's') && scheme_separator(v, i + 5) {
            8
        } else {
            0
        }
    } else {
        0
    }
}

fn url_at_exec(v: &Vec<char>, i: usize) -> (r: Option<NomEntity>)
    requires
        i < v.len(),
    ensures
        r == url_at(v@, i as int),
{
    let pl = protocol_len_at(v, i);
    let prefix_ok = i == 0 || !(is_alnum_char(v[i - 1]) || is_at(v[i - 1]) || v[i - 1] == '$'
        || is_hash(v[i - 1]));
    if pl > 0 && prefix_ok {
        let hs = i + pl;
        let he = host_end_at(v, hs);
        proof {
            lemma_host_end(v@, hs as int);
        }
        if host_ok_at(v, hs, he) {
            let pe = port_end_at(v, he);
            proof {
                lemma_url_end(v@, he as int);
            }
            let e = url_end_at(v, pe);
            Some(
                NomEntity {
                    entity_type: NomEntityType::Url,
                    start: i,
                    end: e,
                    host_start: hs,
                    host_end: he,
                },
            )
        } else {
            None
        }
    } else {
        None
    }
}

fn uwp_at_exec(v: &Vec<char>, i: usize) -> (r: Option<NomEntity>)
    requires
        i < v.len(),
    ensures
        r == uwp_at(v@, i as int),
{
    let prefix_ok = i == 0 || !(is_domain(v[i - 1]) || v[i - 1] == '.' || v[i - 1] == '/' || is_at(
        v[i - 1],
    ) || v[i - 1] == '$' || is_hash(v[i - 1]));
    if prefix_ok {
        let he = host_end_at(v, i);
        proof {
            lemma_host_end(v@, i as int);
        }
        if host_ok_at(v, i, he) && !(he < v.len() && is_at(v[he])) {
            let pe = port_end_at(v, he);
            proof {
                lemma_url_end(v@, he as int);
            }
            let e = url_end_at(v, pe);
            Some(
                NomEntity {
                    entity_type: NomEntityType::UrlWithoutProtocol,
                    start: i,
                    end: e,
                    host_start: i,
                    host_end: he,
                },
            )
        } else {
            None
        }
    } else {
        None
    }
}

fn emoji_tail_at(v: &Vec<char>, j: usize) -> (r: usize)
    requires
        j <= v.len(),
    ensures
        r == emoji_tail(v@, j as int),
{
    let mut k: usize = j;
    loop
        invariant
            j <= k <= v.len(),
            emoji_tail(v@, j as int) == emoji_tail(v@, k as int),
        decreases v.len() - k,
    {
        if k < v.len() && (is_emoji_modifier_char(v[k]) || is_emoji_extender_char(v[k])) {
            k = k + 1;
        } else if k < v.len() && v.len() - k > 1 && v[k] == '\u{200D}' && is_pictographic_char(v[k + 1]) {
            k = k + 2;
        } else {
            return k;
        }
    }
}

fn emoji_end_at(v: &Vec<char>, i: usize) -> (r: usize)
    requires
        i < v.len(),
    ensures
        r == emoji_end(v@, i as int),
{
    let c = v[i];
    if is_pictographic_char(c) {
        emoji_tail_at(v, i + 1)
    } else if is_regional_indicator_char(c) {
        if i + 1 < v.len() && is_regional_indicator_char(v[i + 1]) {
            emoji_tail_at(v, i + 2)
        } else {
            i + 1
        }
    } else if is_digit_char(c) || c == '#' || c == '*' {
        if i + 1 < v.len() && v[i + 1] == '\u{20E3}' {
            i + 2
        } else if v.len() - i > 2 && v[i + 1] == '\u{FE0F}' && v[i + 2] == '\u{20E3}' {
            i + 3
        } else {
            i
        }
    } else {
        i
    }
}

fn has_non_digit_in(v: &Vec<char>, a: usize, b: usize) -> (r: bool)
    requires
        a <= b <= v.len(),
    ensures
        r == has_non_digit(v@, a as int, b as int),
{
    let mut k: usize = a;
    while k < b
        invariant
            a <= k <= b <= v.len(),
            forall|j: int| a <= j < k ==> is_digit(v@[j]),
        decreases b - k,
    {
        if !is_digit_char(v[k]) {
            return true;
        }
        k = k + 1;
    }
    false
}

fn hashtag_at_exec(v: &Vec<char>, i: usize) -> (r: Option<NomEntity>)
    requires
        i < v.len(),
    ensures
        r == hashtag_at(v@, i as int),
{
    if is_hash(v[i]) && (i == 0 || !(is_word(v[i - 1]) || v[i - 1] == '&')) {
        let e = run_while(v, i + 1, CharClass::Word);
        proof {
            lemma_run_end(v@, i + 1, CharClass::Word);
        }
        if e > i + 1 && has_non_digit_in(v, i + 1, e) && !(e < v.len() && is_hash(v[e]))
            && !scheme_separator(v, e) {
            Some(
                NomEntity {
                    entity_type: NomEntityType::Hashtag,
                    start: i,
                    end: e,
                    host_start: i,
                    host_end: i,
                },
            )
        } else {
            None
        }
    } else {
        None
    }
}

fn is_ascii_punct_char(c: char) -> (r: bool)
    ensures
        r == is_ascii_punct(c),
{
    ('!' <= c && c <= '/') || (':' <= c && c <= '@') || ('[' <= c && c <= '`') || ('{' <= c && c
        <= '~')
}

fn cashtag_end_ok_at(v: &Vec<char>, e: usize) -> (r: bool)
    ensures
        r == cashtag_end_ok(v@, e as int),
{
    e >= v.len() || is_space_char(v[e]) || is_ascii_punct_char(v[e])
}

fn cashtag_at_exec(v: &Vec<char>, i: usize) -> (r: Option<NomEntity>)
    requires
        i < v.len(),
    ensures
        r == cashtag_at(v@, i as int),
{
    if v[i] == '$' && (i == 0 || is_space_char(v[i - 1])) {
        let a = run_while(v, i + 1, CharClass::Alpha);
        proof {
            lemma_run_end(v@, i + 1, CharClass::Alpha);
        }
        if 1 <= a - (i + 1) && a - (i + 1) <= 6 {
            let b = if a < v.len() && v.len() - a > 1 && (v[a] == '.' || v[a] == '_') && is_alpha_char(v[a + 1]) {
                proof {
                    lemma_run_end(v@, a + 1, CharClass::Alpha);
                }
                run_while(v, a + 1, CharClass::Alpha)
            } else {
                a
            };
            if b > a && b - (a + 1) <= 2 && cashtag_end_ok_at(v, b) {
                Some(
                    NomEntity {
                        entity_type: NomEntityType::Cashtag,
                        start: i,
                        end: b,
                        host_start: i,
                        host_end: i,
                    },
                )
            } else if cashtag_end_ok_at(v, a) {
                Some(
                    NomEntity {
                        entity_type: NomEntityType::Cashtag,
                        start: i,
                        end: a,
                        host_start: i,
                        host_end: i,
                    },
                )
            } else {
                None
            }
        } else {
            None
        }
    } else {
        None
    }
}

fn fed_part_end_at(v: &Vec<char>, j: usize) -> (r: usize)
    requires
        j <= v.len(),
    ensures
        r == fed_part_end(v@, j as int),
{
    let mut k: usize = j;
    loop
        invariant
            j <= k <= v.len(),
            fed_part_end(v@, j as int) == fed_part_end(v@, k as int),
        decreases v.len() - k,
    {
        let w = run_while(v, k, CharClass::Username);
        proof {
            lemma_run_end(v@, k as int, CharClass::Username);
        }
        if w > k && w < v.len() && v.len() - w > 1 && (v[w] == '.' || v[w] == '-') && is_username(v[w + 1]) {
            k = w + 1;
        } else {
            return w;
        }
    }
}

fn federated_at_exec(v: &Vec<char>, i: usize) -> (r: Option<NomEntity>)
    requires
        i < v.len(),
    ensures
        r == federated_at(v@, i as int),
{
    let u = fed_part_end_at(v, i + 1);
    proof {
        lemma_fed_part_end(v@, i + 1);
    }
    if u > i + 1 && u < v.len() && v[u] == '@' {
        let d = fed_part_end_at(v, u + 1);
        proof {
            lemma_fed_part_end(v@, u + 1);
        }
        if d > u + 1 && d - (u + 1) <= 253 && has_char_in(v, u + 1, d, '.') && !(d < v.len()
            && is_at(v[d])) {
            Some(
                NomEntity {
                    entity_type: NomEntityType::FederatedMention,
                    start: i,
                    end: d,
                    host_start: i,
                    host_end: i,
                },
            )
        } else {
            None
        }
    } else {
        None
    }
}

fn mention_or_list_at_exec(v: &Vec<char>, i: usize) -> (r: Option<NomEntity>)
    requires
        i < v.len(),
    ensures
        r == mention_or_list_at(v@, i as int),
{
    let u = run_while(v, i + 1, CharClass::Username);
    proof {
        lemma_run_end(v@, i + 1, CharClass::Username);
    }
    if 1 <= u - (i + 1) && u - (i + 1) <= 20 {
        if u < v.len() && v.len() - u > 1 && v[u] == '/' && is_alpha_char(v[u + 1]) {
            let le = run_while(v, u + 1, CharClass::ListChar);
            proof {
                lemma_run_end(v@, u + 1, CharClass::ListChar);
            }
            let le2 = if le - (u + 1) <= 25 { le } else { u + 1 + 25 };
            Some(
                NomEntity {
                    entity_type: NomEntityType::List,
                    start: i,
                    end: le2,
                    host_start: i,
                    host_end: i,
                },
            )
        } else if u < v.len() && (is_at(v[u]) || is_latin_char(v[u])) {
            None
        } else if scheme_separator(v, u) {
            None
        } else {
            Some(
                NomEntity {
                    entity_type: NomEntityType::Username,
                    start: i,
                    end: u,
                    host_start: i,
                    host_end: i,
                },
            )
        }
    } else {
        None
    }
}

fn at_token_exec(v: &Vec<char>, i: usize) -> (r: Option<NomEntity>)
    requires
        i < v.len(),
    ensures
        r == at_token(v@, i as int),
{
    let p_ok = i == 0 || {
        let p = v[i - 1];
        !(is_username(p) || p == '!' || p == '#' || p == '$' || p == '%' || p == '&' || p == '*'
            || is_at(p))
    };
    if p_ok {
        match federated_at_exec(v, i) {
            Some(t) => Some(t),
            None => mention_or_list_at_exec(v, i),
        }
    } else {
        None
    }
}

pub fn token_at_exec(v: &Vec<char>, i: usize) -> (r: Option<NomEntity>)
    requires
        i < v.len(),
    ensures
        r == token_at(v@, i as int),
{
    let c = v[i];
    if is_invalid(c) {
        return Some(
            NomEntity {
                entity_type: NomEntityType::InvalidChar,
                start: i,
                end: i + 1,
                host_start: i,
                host_end: i,
            },
        );
    }
    let ee = emoji_end_at(v, i);
    if ee > i {
        return Some(
            NomEntity {
                entity_type: NomEntityType::Emoji,
                start: i,
                end: ee,
                host_start: i,
                host_end: i,
            },
        );
    }
    if is_at(c) {
        at_token_exec(v, i)
    } else if is_hash(c) {
        hashtag_at_exec(v, i)
    } else if c == '$' {
        cashtag_at_exec(v, i)
    } else {
        match url_at_exec(v, i) {
            Some(t) => Some(t),
            None => uwp_at_exec(v, i),
        }
    }
}

/// The entities of the text `v`, in order.
pub fn parse_tweet(v: &Vec<char>) -> (r: Vec<NomEntity>)
    ensures
        r@ == tokens(v@),
{
    let mut out: Vec<NomEntity> = Vec::new();
    let mut i: usize = 0;
    while i < v.len()
        invariant
            i <= v.len(),
            out@ + tokens_from(v@, i as int) == tokens(v@),
        decreases v.len() - i,
    {
        proof {
            lemma_token_at(v@, i as int);
        }
        match token_at_exec(v, i) {
            Some(t) => {
                assert(out@.push(t) + tokens_from(v@, t.end as int) =~= out@ + tokens_from(
                    v@,
                    i as int,
                ));
                out.push(t);
                i = t.end;
            },
            None => {
                i = i + 1;
            },
        }
    }
    assert(tokens_from(v@, i as int) =~= Seq::<NomEntity>::empty());
    assert(out@ + Seq::<NomEntity>::empty() =~= out@);
    out
}

} // verus!
