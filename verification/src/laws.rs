//! Laws of extraction and weighing, and the facts about the grammar that
//! they rest on.
use vstd::prelude::*;
use crate::chars::{is_at_sign, is_hash_sign, is_invalid_char};
use crate::config::{weight_of, Configuration, Range};
use crate::entity::{EntityModel, Type};
use crate::extractor::{
    cashtag_selector, entities_of, entity_of, entity_selector, extracted, extracted_values,
    federated_selector, hashtag_selector, kept_end, mention_or_list_selector, mention_selector,
    nothing, reply_token, u16_at, url_selector, values_of, Selector,
};
use crate::scanner::{
    at_token, emoji_end, emoji_tail, entity, fed_part_end, host_end, in_class, lemma_emoji_tail,
    lemma_fed_part_end, lemma_host_end, lemma_run_end, lemma_token_at, lemma_trim_dots,
    lemma_trim_path, lemma_url_end, port_end, protocol_len, run_end, token_at, tokens, tokens_from,
    tokens_ordered, url_at, url_end, uwp_at, CharClass, NomEntity, NomEntityType,
};
use crate::text::{
    lemma_utf16_len_concat, lemma_utf16_len_prefix_mono, lemma_utf16_len_push, utf16_len,
};
use crate::url::lemma_validate_url_bounds;
use crate::validating::{
    div_toward_zero, has_at_sign, has_hash_sign, lengths_of, model_values, nfc, prepared_lengths,
    results_fit, results_of, tally, token_step, weigh_tokens, weighted_length_of, LengthData,
};
use crate::weighting::{emoji_run, lemma_emoji_run, text_run, url_run, url_weight, Metrics};
use crate::{parse_fits, parse_selector, parse_spec};

verus! {

// ---------------------------------------------------------------------------
// Invalid characters stand alone.

/// The text holds a character that makes a tweet invalid.
pub open spec fn has_invalid_char(s: Seq<char>) -> bool {
    exists|j: int| 0 <= j < s.len() && is_invalid_char(s[j])
}

/// One of the entities is an invalid character.
pub open spec fn has_invalid_token(toks: Seq<NomEntity>) -> bool {
    exists|k: int| 0 <= k < toks.len() && toks[k].entity_type == NomEntityType::InvalidChar
}

/// `s[a..b]` holds no invalid character.
pub open spec fn clean(s: Seq<char>, a: int, b: int) -> bool {
    forall|k: int| a <= k < b ==> !is_invalid_char(#[trigger] s[k])
}

proof fn lemma_run_clean(s: Seq<char>, i: int, cls: CharClass)
    requires
        0 <= i <= s.len(),
    ensures
        clean(s, i, run_end(s, i, cls)),
{
    lemma_run_end(s, i, cls);
    assert forall|k: int| i <= k < run_end(s, i, cls) implies !is_invalid_char(#[trigger] s[k]) by {
        assert(in_class(cls, s[k]));
    }
}

proof fn lemma_emoji_tail_clean(s: Seq<char>, j: int)
    requires
        0 <= j <= s.len(),
    ensures
        clean(s, j, emoji_tail(s, j)),
    decreases s.len() - j,
{
    lemma_emoji_tail(s, j);
    if j < s.len() && (crate::chars::is_emoji_modifier(s[j]) || crate::chars::is_emoji_extender(
        s[j],
    )) {
        lemma_emoji_tail_clean(s, j + 1);
    } else if j + 1 < s.len() && crate::chars::is_zwj(s[j]) && crate::chars::is_pictographic(
        s[j + 1],
    ) {
        lemma_emoji_tail_clean(s, j + 2);
    }
}

proof fn lemma_fed_part_clean(s: Seq<char>, j: int)
    requires
        0 <= j <= s.len(),
    ensures
        clean(s, j, fed_part_end(s, j)),
    decreases s.len() - j,
{
    let w = run_end(s, j, CharClass::Username);
    lemma_run_end(s, j, CharClass::Username);
    lemma_run_clean(s, j, CharClass::Username);
    lemma_fed_part_end(s, j);
    if w > j && w + 1 < s.len() && (s[w] == '.' || s[w] == '-') && crate::chars::is_username_char(
        s[w + 1],
    ) {
        lemma_fed_part_clean(s, w + 1);
    }
}

/// The host, port and path that a URL has from `hs` on hold no invalid
/// character.
proof fn lemma_url_rest_clean(s: Seq<char>, hs: int)
    requires
        0 <= hs <= s.len(),
    ensures
        clean(s, hs, url_end(s, port_end(s, host_end(s, hs)))),
{
    let r = run_end(s, hs, CharClass::DomainOrDot);
    lemma_run_end(s, hs, CharClass::DomainOrDot);
    lemma_run_clean(s, hs, CharClass::DomainOrDot);
    lemma_trim_dots(s, hs, r);
    lemma_host_end(s, hs);
    let he = host_end(s, hs);
    lemma_url_end(s, he);
    if he + 1 < s.len() && s[he] == ':' && crate::chars::is_digit(s[he + 1]) {
        lemma_run_end(s, he + 1, CharClass::Digit);
        lemma_run_clean(s, he + 1, CharClass::Digit);
    }
    let pe = port_end(s, he);
    if pe < s.len() && (s[pe] == '/' || s[pe] == '?' || s[pe] == '#') {
        lemma_run_end(s, pe, CharClass::Path);
        lemma_run_clean(s, pe, CharClass::Path);
        lemma_trim_path(s, pe, run_end(s, pe, CharClass::Path));
    }
}

proof fn lemma_letter_clean(c: char, l: char)
    requires
        crate::scanner::letter_is(c, l),
        !is_invalid_char(l),
    ensures
        !is_invalid_char(c),
{
}

/// The `http://` or `https://` at `i` holds no invalid character.
proof fn lemma_protocol_clean(s: Seq<char>, i: int)
    requires
        0 <= i,
        protocol_len(s, i) > 0,
    ensures
        clean(s, i, i + protocol_len(s, i)),
{
    lemma_letter_clean(s[i], 'h');
    lemma_letter_clean(s[i + 1], 't');
    lemma_letter_clean(s[i + 2], 't');
    lemma_letter_clean(s[i + 3], 'p');
    if protocol_len(s, i) == 8 {
        lemma_letter_clean(s[i + 4], 's');
    }
}

/// `s[a..c]` is clean when `s[a..b]` and `s[b..c]` are.
proof fn lemma_clean_join(s: Seq<char>, a: int, b: int, c: int)
    requires
        clean(s, a, b),
        clean(s, b, c),
    ensures
        clean(s, a, c),
{
    assert forall|k: int| a <= k < c implies !is_invalid_char(#[trigger] s[k]) by {
        if k < b {
            assert(!is_invalid_char(s[k]));
        } else {
            assert(!is_invalid_char(s[k]));
        }
    }
}

/// A clean stretch is clean in every part.
proof fn lemma_clean_sub(s: Seq<char>, a: int, b: int, c: int, e: int)
    requires
        clean(s, a, e),
        a <= b,
        c <= e,
    ensures
        clean(s, b, c),
{
    assert forall|k: int| b <= k < c implies !is_invalid_char(#[trigger] s[k]) by {
        assert(!is_invalid_char(s[k]));
    }
}

proof fn lemma_url_clean(s: Seq<char>, i: int)
    requires
        0 <= i < s.len(),
        s.len() <= usize::MAX,
        !is_invalid_char(s[i]),
    ensures
        url_at(s, i) matches Some(t) ==> clean(s, i, t.end as int),
        uwp_at(s, i) matches Some(t) ==> clean(s, i, t.end as int),
{
    let pl = protocol_len(s, i);
    lemma_host_end(s, i);
    lemma_url_end(s, host_end(s, i));
    if pl > 0 && i + pl <= s.len() {
        lemma_host_end(s, i + pl);
        lemma_url_end(s, host_end(s, i + pl));
        lemma_protocol_clean(s, i);
        lemma_url_rest_clean(s, i + pl);
        lemma_clean_join(s, i, i + pl, url_end(s, port_end(s, host_end(s, i + pl))));
    }
    lemma_url_rest_clean(s, i);
}

proof fn lemma_at_clean(s: Seq<char>, i: int)
    requires
        0 <= i < s.len(),
        crate::chars::is_at_sign(s[i]),
    ensures
        at_token(s, i) matches Some(t) ==> clean(s, i, t.end as int),
{
    lemma_fed_part_clean(s, i + 1);
    lemma_fed_part_end(s, i + 1);
    let u = fed_part_end(s, i + 1);
    if u < s.len() && s[u] == '@' {
        lemma_fed_part_clean(s, u + 1);
        lemma_fed_part_end(s, u + 1);
        let d = fed_part_end(s, u + 1);
        assert(clean(s, i, i + 1));
        lemma_clean_join(s, i, i + 1, u);
        assert(clean(s, u, u + 1));
        lemma_clean_join(s, i, u, u + 1);
        lemma_clean_join(s, i, u + 1, d);
    }
    lemma_run_clean(s, i + 1, CharClass::Username);
    lemma_run_end(s, i + 1, CharClass::Username);
    let un = run_end(s, i + 1, CharClass::Username);
    assert(clean(s, i, i + 1));
    lemma_clean_join(s, i, i + 1, un);
    if un + 1 < s.len() && s[un] == '/' {
        lemma_run_clean(s, un + 1, CharClass::ListChar);
        lemma_run_end(s, un + 1, CharClass::ListChar);
        let le = run_end(s, un + 1, CharClass::ListChar);
        assert(clean(s, un, un + 1));
        lemma_clean_join(s, i, un, un + 1);
        lemma_clean_join(s, i, un + 1, le);
        let le2 = if le - (un + 1) <= crate::scanner::max_slug_len() {
            le
        } else {
            un + 1 + crate::scanner::max_slug_len()
        };
        lemma_clean_sub(s, i, i, le2, le);
    }
}

/// An entity other than an invalid character holds no invalid character.
pub proof fn lemma_token_clean(s: Seq<char>, i: int)
    requires
        0 <= i < s.len(),
        s.len() <= usize::MAX,
    ensures
        token_at(s, i) matches Some(t) ==> (t.entity_type != NomEntityType::InvalidChar ==> clean(
            s,
            i,
            t.end as int,
        )),
{
    lemma_token_at(s, i);
    if is_invalid_char(s[i]) {
    } else if emoji_end(s, i) > i {
        assert(clean(s, i, i + 1));
        if crate::chars::is_pictographic(s[i]) {
            lemma_emoji_tail_clean(s, i + 1);
            lemma_clean_join(s, i, i + 1, emoji_tail(s, i + 1));
        } else if crate::chars::is_regional_indicator(s[i]) {
            if i + 1 < s.len() && crate::chars::is_regional_indicator(s[i + 1]) {
                lemma_emoji_tail_clean(s, i + 2);
                assert(clean(s, i, i + 2));
                lemma_clean_join(s, i, i + 2, emoji_tail(s, i + 2));
            }
        } else {
            assert(clean(s, i, emoji_end(s, i)));
        }
    } else if crate::chars::is_at_sign(s[i]) {
        lemma_at_clean(s, i);
    } else if crate::chars::is_hash_sign(s[i]) {
        lemma_run_clean(s, i + 1, CharClass::Word);
        assert(clean(s, i, i + 1));
        lemma_clean_join(s, i, i + 1, run_end(s, i + 1, CharClass::Word));
    } else if s[i] == '$' {
        lemma_run_clean(s, i + 1, CharClass::Alpha);
        lemma_run_end(s, i + 1, CharClass::Alpha);
        let a = run_end(s, i + 1, CharClass::Alpha);
        assert(clean(s, i, i + 1));
        lemma_clean_join(s, i, i + 1, a);
        if a + 1 < s.len() {
            lemma_run_clean(s, a + 1, CharClass::Alpha);
            lemma_run_end(s, a + 1, CharClass::Alpha);
            if s[a] == '.' || s[a] == '_' {
                assert(clean(s, a, a + 1));
                lemma_clean_join(s, i, a, a + 1);
                lemma_clean_join(s, i, a + 1, run_end(s, a + 1, CharClass::Alpha));
            }
        }
    } else {
        lemma_url_clean(s, i);
    }
}

/// Every entity of `tokens_from(s, i)` is what the grammar finds where it
/// starts, at or after `i`.
pub proof fn lemma_tokens_from_at(s: Seq<char>, i: int)
    requires
        0 <= i,
        s.len() <= usize::MAX,
    ensures
        forall|k: int|
            0 <= k < tokens_from(s, i).len() ==> i <= (#[trigger] tokens_from(s, i)[k]).start
                && token_at(s, tokens_from(s, i)[k].start as int) == Some(tokens_from(s, i)[k]),
    decreases s.len() - i,
{
    if i < s.len() {
        lemma_token_at(s, i);
        match token_at(s, i) {
            Some(t) => {
                if i < t.end <= s.len() {
                    lemma_tokens_from_at(s, t.end as int);
                    let rest = tokens_from(s, t.end as int);
                    assert forall|k: int| 0 <= k < tokens_from(s, i).len() implies i <= (
                    #[trigger] tokens_from(s, i)[k]).start && token_at(
                        s,
                        tokens_from(s, i)[k].start as int,
                    ) == Some(tokens_from(s, i)[k]) by {
                        if k > 0 {
                            assert(tokens_from(s, i)[k] == rest[k - 1]);
                        }
                    }
                } else {
                    lemma_tokens_from_at(s, i + 1);
                }
            },
            None => {
                lemma_tokens_from_at(s, i + 1);
            },
        }
    }
}

/// An invalid character at `j` is an entity of its own among those found
/// from `i <= j` on.
pub proof fn lemma_invalid_found(s: Seq<char>, i: int, j: int)
    requires
        0 <= i <= j < s.len(),
        s.len() <= usize::MAX,
        is_invalid_char(s[j]),
    ensures
        has_invalid_token(tokens_from(s, i)),
    decreases j - i,
{
    lemma_token_at(s, i);
    if i == j {
        let t = entity(NomEntityType::InvalidChar, i, i + 1);
        assert(tokens_from(s, i)[0] == t);
    } else {
        match token_at(s, i) {
            Some(t) => {
                if i < t.end <= s.len() {
                    if t.end <= j {
                        lemma_invalid_found(s, t.end as int, j);
                        let rest = tokens_from(s, t.end as int);
                        let k = choose|k: int|
                            0 <= k < rest.len() && rest[k].entity_type
                                == NomEntityType::InvalidChar;
                        assert(tokens_from(s, i)[k + 1] == rest[k]);
                    } else {
                        lemma_token_clean(s, i);
                        if t.entity_type == NomEntityType::InvalidChar {
                            assert(tokens_from(s, i)[0] == t);
                        } else {
                            assert(!is_invalid_char(s[j]));
                        }
                    }
                } else {
                    lemma_invalid_found(s, i + 1, j);
                }
            },
            None => {
                lemma_invalid_found(s, i + 1, j);
            },
        }
    }
}

/// The entities of a text include an invalid character exactly when the
/// text holds one.
pub proof fn lemma_invalid_tokens(s: Seq<char>)
    requires
        s.len() <= usize::MAX,
    ensures
        has_invalid_token(tokens(s)) == has_invalid_char(s),
{
    if has_invalid_char(s) {
        let j = choose|j: int| 0 <= j < s.len() && is_invalid_char(s[j]);
        lemma_invalid_found(s, 0, j);
    }
    if has_invalid_token(tokens(s)) {
        let toks = tokens(s);
        let k = choose|k: int| 0 <= k < toks.len() && toks[k].entity_type == NomEntityType::InvalidChar;
        lemma_tokens_from_at(s, 0);
        crate::scanner::lemma_tokens_ordered(s, 0);
        lemma_token_at(s, toks[k].start as int);
        assert(token_at(s, toks[k].start as int) == Some(toks[k]));
        let st = toks[k].start as int;
        if !is_invalid_char(s[st]) {
            assert(toks[k].entity_type != NomEntityType::InvalidChar);
        }
    }
}

// ---------------------------------------------------------------------------
// Validity through weighing.

proof fn lemma_text_run_validity(cfg: &Configuration, nl: int, m: Metrics, s: Seq<char>, a: int, b: int)
    ensures
        text_run(cfg, nl, m, s, a, b).is_valid == m.is_valid,
    decreases b - a,
{
    if b > a {
        lemma_text_run_validity(cfg, nl, m, s, a, b - 1);
    }
}

proof fn lemma_emoji_run_validity(cfg: &Configuration, m: Metrics, s: Seq<char>, a: int, b: int)
    ensures
        emoji_run(cfg, m, s, a, b).is_valid == m.is_valid,
    decreases b - a,
{
    if b > a {
        lemma_emoji_run_validity(cfg, m, s, a, b - 1);
    }
}

/// Weighing entities keeps the text valid until an invalid character.
pub proof fn lemma_weigh_tokens_validity(
    cfg: &Configuration,
    nl: int,
    s: Seq<char>,
    sel: Selector,
    toks: Seq<NomEntity>,
)
    ensures
        weigh_tokens(cfg, nl, s, sel, toks).0.is_valid == !has_invalid_token(toks),
    decreases toks.len(),
{
    if toks.len() > 0 {
        let prev = toks.drop_last();
        lemma_weigh_tokens_validity(cfg, nl, s, sel, prev);
        let st = weigh_tokens(cfg, nl, s, sel, prev);
        let t = toks.last();
        lemma_text_run_validity(cfg, nl, st.0, s, st.1, t.start as int);
        let m1 = text_run(cfg, nl, st.0, s, st.1, t.start as int);
        lemma_text_run_validity(cfg, nl, m1, s, t.start as int, t.end as int);
        lemma_emoji_run_validity(
            cfg,
            Metrics { weighted: m1.weighted + cfg.default_weight, ..m1 },
            s,
            t.start as int,
            t.end as int,
        );
        match crate::extractor::kept_end(s, t, sel) {
            Some(e) => {
                lemma_text_run_validity(cfg, nl, m1, s, t.start as int, e);
            },
            None => {},
        }
        if has_invalid_token(prev) {
            let k = choose|k: int| 0 <= k < prev.len() && prev[k].entity_type == NomEntityType::InvalidChar;
            assert(toks[k] == prev[k]);
        }
        if has_invalid_token(toks) && t.entity_type != NomEntityType::InvalidChar {
            let k = choose|k: int| 0 <= k < toks.len() && toks[k].entity_type == NomEntityType::InvalidChar;
            assert(k < prev.len());
            assert(prev[k] == toks[k]);
        }
        if t.entity_type == NomEntityType::InvalidChar {
            assert(toks[toks.len() - 1] == t);
        }
    }
}

/// Weighing a text keeps it valid exactly when it holds no invalid
/// character.
pub proof fn lemma_tally_validity(cfg: &Configuration, nl: int, s: Seq<char>, sel: Selector)
    requires
        s.len() <= usize::MAX,
    ensures
        tally(cfg, nl, s, sel).is_valid == !has_invalid_char(s),
{
    lemma_weigh_tokens_validity(cfg, nl, s, sel, tokens(s));
    lemma_invalid_tokens(s);
    let st = weigh_tokens(cfg, nl, s, sel, tokens(s));
    lemma_text_run_validity(cfg, nl, st.0, s, st.1, s.len() as int);
}

/// A weighed text is valid exactly when it holds no invalid character and
/// its weighted length is within the maximum.
pub proof fn law_validity(cfg: &Configuration, ld: LengthData, s: Seq<char>, sel: Selector)
    requires
        s.len() <= usize::MAX,
    ensures
        results_of(cfg, ld, tally(cfg, ld.normalized_length as int, s, sel)).is_valid == (
        !has_invalid_char(s) && crate::validating::weighted_length_of(
            cfg,
            tally(cfg, ld.normalized_length as int, s, sel),
        ) <= cfg.max_weighted_tweet_length),
{
    lemma_tally_validity(cfg, ld.normalized_length as int, s, sel);
}

// ---------------------------------------------------------------------------
// Offsets and weights, weighed exactly.

/// The total weight of the characters `s[a..b]`.
pub open spec fn weight_sum(cfg: &Configuration, s: Seq<char>, a: int, b: int) -> int
    decreases b - a,
{
    if b <= a {
        0
    } else {
        weight_sum(cfg, s, a, b - 1) + weight_of(cfg, s[b - 1])
    }
}

/// Weights add up over consecutive stretches.
pub proof fn lemma_weight_sum_split(cfg: &Configuration, s: Seq<char>, a: int, b: int, c: int)
    requires
        a <= b <= c,
    ensures
        weight_sum(cfg, s, a, c) == weight_sum(cfg, s, a, b) + weight_sum(cfg, s, b, c),
    decreases c - b,
{
    if c > b {
        lemma_weight_sum_split(cfg, s, a, b, c - 1);
    }
}

/// Weighing text whose offset is where the text stands, short of the
/// normalized length, moves the offset over the text and adds its weights.
proof fn lemma_text_run_exact(cfg: &Configuration, nl: int, m: Metrics, s: Seq<char>, a: int, b: int)
    requires
        0 <= a <= b <= s.len(),
        nl == utf16_len(s),
        m.offset == utf16_len(s.take(a)),
        0 <= m.valid_offset <= m.offset,
    ensures
        text_run(cfg, nl, m, s, a, b).offset == utf16_len(s.take(b)),
        text_run(cfg, nl, m, s, a, b).weighted == m.weighted + weight_sum(cfg, s, a, b),
        0 <= text_run(cfg, nl, m, s, a, b).valid_offset <= text_run(cfg, nl, m, s, a, b).offset,
    decreases b - a,
{
    if b > a {
        lemma_text_run_exact(cfg, nl, m, s, a, b - 1);
        assert(s.take(b) =~= s.take(b - 1).push(s[b - 1]));
        lemma_utf16_len_push(s.take(b - 1), s[b - 1]);
        lemma_utf16_len_prefix_mono(s, b, s.len() as int);
        assert(s.take(s.len() as int) =~= s);
    }
}

/// Moving over an emoji moves the offset over it.
proof fn lemma_emoji_run_exact(cfg: &Configuration, m: Metrics, s: Seq<char>, a: int, b: int)
    requires
        0 <= a <= b <= s.len(),
        m.offset == utf16_len(s.take(a)),
        0 <= m.valid_offset <= m.offset,
    ensures
        emoji_run(cfg, m, s, a, b).offset == utf16_len(s.take(b)),
        emoji_run(cfg, m, s, a, b).weighted == m.weighted,
        0 <= emoji_run(cfg, m, s, a, b).valid_offset <= emoji_run(cfg, m, s, a, b).offset,
{
    lemma_emoji_run(cfg, m, s, a, b);
    assert(s.take(b) =~= s.take(a) + s.subrange(a, b));
    lemma_utf16_len_concat(s.take(a), s.subrange(a, b));
}

/// A URL weighed whole moves the offset over it.
proof fn lemma_url_run_exact(cfg: &Configuration, m: Metrics, s: Seq<char>, a: int, b: int)
    requires
        0 <= a <= b <= s.len(),
        m.offset == utf16_len(s.take(a)),
        0 <= m.valid_offset <= m.offset,
    ensures
        url_run(cfg, m, s, a, b).offset == utf16_len(s.take(b)),
        0 <= url_run(cfg, m, s, a, b).valid_offset <= url_run(cfg, m, s, a, b).offset,
{
    assert(s.take(b) =~= s.take(a) + s.subrange(a, b));
    lemma_utf16_len_concat(s.take(a), s.subrange(a, b));
}

/// No entity is an emoji.
pub open spec fn has_emoji_token(toks: Seq<NomEntity>) -> bool {
    exists|k: int| 0 <= k < toks.len() && toks[k].entity_type == NomEntityType::Emoji
}

/// Weighing that counts every character by its own weight: no entity is
/// taken, and no emoji is weighed whole.
pub open spec fn plain(cfg: &Configuration, sel: Selector, toks: Seq<NomEntity>) -> bool {
    sel == nothing() && (!cfg.emoji_parsing_enabled || !has_emoji_token(toks))
}

/// Weighing the entities of a text whose normalized length is its own
/// keeps the offset where the text stands, and the valid offset within it;
/// with plain weighing, the weight is that of the characters passed.
proof fn lemma_weigh_tokens_exact(
    cfg: &Configuration,
    nl: int,
    s: Seq<char>,
    sel: Selector,
    toks: Seq<NomEntity>,
)
    requires
        nl == utf16_len(s),
        tokens_ordered(s, 0, toks),
    ensures
        0 <= weigh_tokens(cfg, nl, s, sel, toks).1 <= s.len(),
        toks.len() > 0 ==> weigh_tokens(cfg, nl, s, sel, toks).1 <= toks.last().end,
        weigh_tokens(cfg, nl, s, sel, toks).0.offset == utf16_len(
            s.take(weigh_tokens(cfg, nl, s, sel, toks).1),
        ),
        0 <= weigh_tokens(cfg, nl, s, sel, toks).0.valid_offset <= weigh_tokens(
            cfg,
            nl,
            s,
            sel,
            toks,
        ).0.offset,
        plain(cfg, sel, toks) ==> weigh_tokens(cfg, nl, s, sel, toks).0.weighted == weight_sum(
            cfg,
            s,
            0,
            weigh_tokens(cfg, nl, s, sel, toks).1,
        ),
    decreases toks.len(),
{
    if toks.len() == 0 {
        assert(s.take(0) =~= Seq::<char>::empty());
    } else {
        let prev = toks.drop_last();
        let t = toks.last();
        assert(tokens_ordered(s, 0, prev)) by {
            assert forall|k: int| 0 <= k < prev.len() implies prev[k] == toks[k] by {}
            assert forall|k: int| 0 <= k < prev.len() - 1 implies #[trigger] prev[k].end
                <= prev[k + 1].start by {
                assert(toks[k].end <= toks[k + 1].start);
            }
        }
        if has_emoji_token(prev) {
            let k = choose|k: int| 0 <= k < prev.len() && prev[k].entity_type == NomEntityType::Emoji;
            assert(toks[k] == prev[k]);
        }
        lemma_weigh_tokens_exact(cfg, nl, s, sel, prev);
        let st = weigh_tokens(cfg, nl, s, sel, prev);
        let m = st.0;
        let pos = st.1;
        assert(toks[toks.len() - 1] == t);
        assert(0 <= t.start < t.end <= s.len());
        if prev.len() > 0 {
            assert(prev.last() == toks[toks.len() - 2]);
            assert(toks[toks.len() - 2].end <= toks[toks.len() - 1].start);
        }
        let a = t.start as int;
        let b = t.end as int;
        lemma_text_run_exact(cfg, nl, m, s, pos, a);
        let m1 = text_run(cfg, nl, m, s, pos, a);
        lemma_weight_sum_split(cfg, s, 0, pos, a);
        lemma_text_run_exact(cfg, nl, m1, s, a, b);
        lemma_weight_sum_split(cfg, s, 0, a, b);
        lemma_emoji_run_exact(
            cfg,
            Metrics { weighted: m1.weighted + cfg.default_weight, ..m1 },
            s,
            a,
            b,
        );
        match kept_end(s, t, sel) {
            Some(e) => {
                if t.entity_type == NomEntityType::Url || t.entity_type
                    == NomEntityType::UrlWithoutProtocol {
                    lemma_validate_url_bounds(s, t, false);
                    lemma_validate_url_bounds(s, t, true);
                }
                assert(a <= e <= b);
                lemma_text_run_exact(cfg, nl, m1, s, a, e);
                lemma_url_run_exact(cfg, m1, s, a, e);
            },
            None => {},
        }
        if plain(cfg, sel, toks) && t.entity_type == NomEntityType::Emoji {
            assert(has_emoji_token(toks));
        }
    }
}

/// Weighing a whole text whose normalized length is its own reaches its
/// UTF-16 length, with the valid offset within it; with plain weighing, the
/// weight is that of all its characters.
pub proof fn lemma_tally_exact(cfg: &Configuration, s: Seq<char>, sel: Selector)
    requires
        s.len() <= usize::MAX,
    ensures
        tally(cfg, utf16_len(s) as int, s, sel).offset == utf16_len(s),
        0 <= tally(cfg, utf16_len(s) as int, s, sel).valid_offset <= tally(
            cfg,
            utf16_len(s) as int,
            s,
            sel,
        ).offset,
        plain(cfg, sel, tokens(s)) ==> tally(cfg, utf16_len(s) as int, s, sel).weighted
            == weight_sum(cfg, s, 0, s.len() as int),
{
    let nl = utf16_len(s) as int;
    crate::scanner::lemma_tokens_ordered(s, 0);
    lemma_weigh_tokens_exact(cfg, nl, s, sel, tokens(s));
    let st = weigh_tokens(cfg, nl, s, sel, tokens(s));
    lemma_text_run_exact(cfg, nl, st.0, s, st.1, s.len() as int);
    lemma_weight_sum_split(cfg, s, 0, st.1, s.len() as int);
    assert(s.take(s.len() as int) =~= s);
}

// ---------------------------------------------------------------------------
// Laws of weighing.

/// The weighted length in thousandths of the maximum is the weighted length
/// times 1000 divided by the maximum, rounded toward zero.
pub proof fn law_permillage(cfg: &Configuration, ld: LengthData, m: Metrics)
    requires
        results_fit(cfg, ld, m),
    ensures
        results_of(cfg, ld, m).permillage == div_toward_zero(
            results_of(cfg, ld, m).weighted_length * 1000,
            cfg.max_weighted_tweet_length as int,
        ),
{
}

/// A parsed tweet is valid exactly when its normalized text is not empty,
/// holds no invalid character, and weighs no more than the maximum.
pub proof fn law_parse_validity(text: Seq<char>, cfg: &Configuration, extract_urls: bool)
    ensures
        nfc(text).len() <= usize::MAX ==> parse_spec(text, cfg, extract_urls).is_valid == (nfc(
            text,
        ).len() > 0 && !has_invalid_char(nfc(text)) && weighted_length_of(
            cfg,
            tally(cfg, utf16_len(nfc(text)) as int, nfc(text), parse_selector(extract_urls)),
        ) <= cfg.max_weighted_tweet_length),
{
    if nfc(text).len() <= usize::MAX {
        lemma_tally_validity(
            cfg,
            utf16_len(nfc(text)) as int,
            nfc(text),
            parse_selector(extract_urls),
        );
    }
}

/// The display range of a parsed tweet covers the original text: it ends at
/// the original text's last UTF-16 code unit.
pub proof fn law_parse_display_range(text: Seq<char>, cfg: &Configuration, extract_urls: bool)
    ensures
        (nfc(text).len() > 0 && nfc(text).len() <= usize::MAX && utf16_len(text) <= i32::MAX
            && utf16_len(nfc(text)) <= i32::MAX) ==> parse_spec(
            text,
            cfg,
            extract_urls,
        ).display_text_range == (Range { start: 0, end: (utf16_len(text) - 1) as i32 }),
{
    if nfc(text).len() > 0 && nfc(text).len() <= usize::MAX && utf16_len(text) <= i32::MAX
        && utf16_len(nfc(text)) <= i32::MAX {
        lemma_tally_exact(cfg, nfc(text), parse_selector(extract_urls));
    }
}

/// The valid range of a parsed tweet ends no later than its display range.
pub proof fn law_parse_valid_range_within(text: Seq<char>, cfg: &Configuration, extract_urls: bool)
    ensures
        (parse_fits(text, cfg, extract_urls) && nfc(text).len() <= usize::MAX) ==> parse_spec(
            text,
            cfg,
            extract_urls,
        ).valid_text_range.end <= parse_spec(text, cfg, extract_urls).display_text_range.end,
{
    if parse_fits(text, cfg, extract_urls) && nfc(text).len() <= usize::MAX && nfc(text).len() > 0 {
        lemma_tally_exact(cfg, nfc(text), parse_selector(extract_urls));
    }
}

/// Parsing text that is already in NFC gives what weighing it with its own
/// lengths gives, as an extractor made with `new_with_nfc_input` does.
pub proof fn law_nfc_input_same(text: Seq<char>, cfg: &Configuration, extract_urls: bool)
    ensures
        (nfc(text) == text && utf16_len(text) <= i32::MAX) ==> parse_spec(text, cfg, extract_urls)
            == (if text.len() == 0 {
            crate::empty_results()
        } else {
            results_of(
                cfg,
                lengths_of(text),
                tally(
                    cfg,
                    lengths_of(text).normalized_length as int,
                    text,
                    parse_selector(extract_urls),
                ),
            )
        }),
{
    if nfc(text) == text && utf16_len(text) <= i32::MAX {
        crate::text::lemma_utf16_len_bounds(text);
        assert(prepared_lengths(text) == lengths_of(text));
    }
}

/// Where no entity is taken and no emoji is weighed whole, a text weighs
/// the sum of the weights of its characters.
pub proof fn law_plain_weight(cfg: &Configuration, s: Seq<char>)
    requires
        s.len() <= usize::MAX,
        !cfg.emoji_parsing_enabled || !has_emoji_token(tokens(s)),
    ensures
        tally(cfg, utf16_len(s) as int, s, nothing()).weighted == weight_sum(cfg, s, 0, s.len() as int),
{
    lemma_tally_exact(cfg, s, nothing());
}

/// Parsed without URLs, and with no emoji weighed whole, a tweet's weighted
/// length is the sum of the weights of its normalized characters divided by
/// the scale.
pub proof fn law_parse_plain_weight(text: Seq<char>, cfg: &Configuration)
    ensures
        (nfc(text).len() > 0 && nfc(text).len() <= usize::MAX && parse_fits(text, cfg, false) && (
        !cfg.emoji_parsing_enabled || !has_emoji_token(tokens(nfc(text))))) ==> parse_spec(
            text,
            cfg,
            false,
        ).weighted_length == div_toward_zero(
            weight_sum(cfg, nfc(text), 0, nfc(text).len() as int),
            cfg.scale as int,
        ),
{
    if nfc(text).len() > 0 && nfc(text).len() <= usize::MAX && parse_fits(text, cfg, false) && (
    !cfg.emoji_parsing_enabled || !has_emoji_token(tokens(nfc(text)))) {
        lemma_tally_exact(cfg, nfc(text), nothing());
    }
}

/// With no weighted ranges, every character weighs the default weight.
pub proof fn law_no_ranges_weight(cfg: &Configuration, s: Seq<char>, a: int, b: int)
    requires
        cfg.ranges@.len() == 0,
        a <= b,
    ensures
        weight_sum(cfg, s, a, b) == (b - a) * cfg.default_weight,
    decreases b - a,
{
    if b > a {
        law_no_ranges_weight(cfg, s, a, b - 1);
        let d = cfg.default_weight as int;
        crate::config::lemma_no_ranges(cfg.ranges@, cfg.default_weight, s[b - 1] as int);
        assert(weight_of(cfg, s[b - 1]) == d);
        assert(weight_sum(cfg, s, a, b) == weight_sum(cfg, s, a, b - 1) + d);
        assert((b - a) * d == (b - 1 - a) * d + d) by (nonlinear_arith);
    } else {
        assert((b - a) * cfg.default_weight == 0) by (nonlinear_arith)
            requires
                b == a,
        ;
    }
}

/// Texts whose characters weigh the same one for one weigh the same.
pub proof fn law_transliteration_weight(cfg: &Configuration, s1: Seq<char>, s2: Seq<char>, b: int)
    requires
        0 <= b <= s1.len(),
        s1.len() == s2.len(),
        forall|k: int| 0 <= k < s1.len() ==> weight_of(cfg, #[trigger] s1[k]) == weight_of(cfg, s2[k]),
    ensures
        weight_sum(cfg, s1, 0, b) == weight_sum(cfg, s2, 0, b),
    decreases b,
{
    if b > 0 {
        law_transliteration_weight(cfg, s1, s2, b - 1);
        assert(weight_of(cfg, s1[b - 1]) == weight_of(cfg, s2[b - 1]));
    }
}

/// A tweet transliterated one character for one character of the same
/// weight, where no entity is taken and no emoji is weighed whole, weighs
/// the same.
pub proof fn law_transliteration(cfg: &Configuration, s1: Seq<char>, s2: Seq<char>)
    requires
        s1.len() <= usize::MAX,
        s1.len() == s2.len(),
        forall|k: int| 0 <= k < s1.len() ==> weight_of(cfg, #[trigger] s1[k]) == weight_of(cfg, s2[k]),
        !cfg.emoji_parsing_enabled || (!has_emoji_token(tokens(s1)) && !has_emoji_token(tokens(s2))),
    ensures
        tally(cfg, utf16_len(s1) as int, s1, nothing()).weighted == tally(
            cfg,
            utf16_len(s2) as int,
            s2,
            nothing(),
        ).weighted,
{
    law_plain_weight(cfg, s1);
    law_plain_weight(cfg, s2);
    law_transliteration_weight(cfg, s1, s2, s1.len() as int);
}

/// Two tweets in NFC, one written in place of the other character for
/// character with characters of the same weight, parsed without URLs and
/// with no emoji weighed whole, have the same weighted length; where
/// neither holds an invalid character, both are valid or neither is.
pub proof fn law_parse_transliteration(s1: Seq<char>, s2: Seq<char>, cfg: &Configuration)
    ensures
        ({
            &&& nfc(s1) == s1
            &&& nfc(s2) == s2
            &&& 0 < s1.len() <= usize::MAX
            &&& s1.len() == s2.len()
            &&& parse_fits(s1, cfg, false)
            &&& parse_fits(s2, cfg, false)
            &&& forall|k: int|
                0 <= k < s1.len() ==> weight_of(cfg, #[trigger] s1[k]) == weight_of(cfg, s2[k])
            &&& !cfg.emoji_parsing_enabled || (!has_emoji_token(tokens(s1)) && !has_emoji_token(
                tokens(s2),
            ))
        }) ==> {
            &&& parse_spec(s1, cfg, false).weighted_length == parse_spec(s2, cfg, false).weighted_length
            &&& (!has_invalid_char(s1) && !has_invalid_char(s2)) ==> parse_spec(s1, cfg, false).is_valid
                == parse_spec(s2, cfg, false).is_valid
        },
{
    if nfc(s1) == s1 && nfc(s2) == s2 && 0 < s1.len() <= usize::MAX && s1.len() == s2.len()
        && parse_fits(s1, cfg, false) && parse_fits(s2, cfg, false) && (forall|k: int|
        0 <= k < s1.len() ==> weight_of(cfg, #[trigger] s1[k]) == weight_of(cfg, s2[k])) && (
    !cfg.emoji_parsing_enabled || (!has_emoji_token(tokens(s1)) && !has_emoji_token(tokens(s2)))) {
        law_parse_plain_weight(s1, cfg);
        law_parse_plain_weight(s2, cfg);
        law_transliteration_weight(cfg, s1, s2, s1.len() as int);
        law_plain_weight(cfg, s1);
        law_plain_weight(cfg, s2);
        law_parse_validity(s1, cfg, false);
        law_parse_validity(s2, cfg, false);
    }
}

/// A URL that weighing takes, with or without a protocol, weighs the
/// configured URL weight whatever its length: the weight after it is the
/// weight of the text before it plus that of a URL.
pub proof fn law_url_weight(
    cfg: &Configuration,
    nl: int,
    s: Seq<char>,
    sel: Selector,
    st: (Metrics, int),
    t: NomEntity,
)
    requires
        t.entity_type == NomEntityType::Url || t.entity_type == NomEntityType::UrlWithoutProtocol,
        kept_end(s, t, sel) is Some,
    ensures
        token_step(cfg, nl, s, sel, st, t).0.weighted == text_run(
            cfg,
            nl,
            st.0,
            s,
            st.1,
            t.start as int,
        ).weighted + url_weight(cfg),
{
}

/// A text that is a single URL, taken whole, weighs the configured URL
/// weight, whatever its length.
pub proof fn law_whole_url_weight(cfg: &Configuration, nl: int, s: Seq<char>, sel: Selector)
    requires
        tokens(s).len() == 1,
        tokens(s)[0].entity_type == NomEntityType::Url || tokens(s)[0].entity_type
            == NomEntityType::UrlWithoutProtocol,
        tokens(s)[0].start == 0,
        kept_end(s, tokens(s)[0], sel) == Some(s.len() as int),
    ensures
        tally(cfg, nl, s, sel).weighted == url_weight(cfg),
{
    let toks = tokens(s);
    assert(toks.drop_last() =~= Seq::<NomEntity>::empty());
    assert(toks.last() == toks[0]);
    law_url_weight(cfg, nl, s, sel, weigh_tokens(cfg, nl, s, sel, toks.drop_last()), toks[0]);
}

// ---------------------------------------------------------------------------
// Laws of extraction.

/// The values of the entities extracted are those reported alone.
proof fn lemma_values_of(s: Seq<char>, toks: Seq<NomEntity>, sel: Selector)
    ensures
        values_of(s, toks, sel) == model_values(entities_of(s, toks, sel)),
    decreases toks.len(),
{
    if toks.len() > 0 {
        lemma_values_of(s, toks.drop_last(), sel);
        let prev = entities_of(s, toks.drop_last(), sel);
        match entity_of(s, toks.last(), sel) {
            Some(m) => {
                assert(model_values(prev.push(m)) =~= model_values(prev).push(m.value));
            },
            None => {},
        }
    }
}

/// Extracting values gives the values of the entities extracted with
/// indices.
pub proof fn law_values_match_entities(s: Seq<char>, sel: Selector)
    ensures
        extracted_values(s, sel) == model_values(extracted(s, sel)),
{
    lemma_values_of(s, tokens(s), sel);
}

/// The entities of a given kind.
pub open spec fn of_kind(t: Type) -> spec_fn(EntityModel) -> bool {
    |m: EntityModel| m.t == t
}

/// The entities of any kind but one.
pub open spec fn not_of_kind(t: Type) -> spec_fn(EntityModel) -> bool {
    |m: EntityModel| m.t != t
}

proof fn lemma_mentions_filter(s: Seq<char>, toks: Seq<NomEntity>)
    ensures
        entities_of(s, toks, mention_selector()) == entities_of(s, toks, federated_selector()).filter(
            of_kind(Type::MENTION),
        ),
    decreases toks.len(),
{
    if toks.len() > 0 {
        let prev = toks.drop_last();
        lemma_mentions_filter(s, prev);
        let fed = entities_of(s, prev, federated_selector());
        match entity_of(s, toks.last(), federated_selector()) {
            Some(m) => {
                fed.lemma_filter_push(m, of_kind(Type::MENTION));
            },
            None => {},
        }
    }
}

/// The mentions of a text are the mentions, not federated, among its
/// mentions and federated mentions.
pub proof fn law_mentions_within_federated(s: Seq<char>)
    ensures
        extracted(s, mention_selector()) == extracted(s, federated_selector()).filter(
            of_kind(Type::MENTION),
        ),
{
    lemma_mentions_filter(s, tokens(s));
}

proof fn lemma_federated_filter(s: Seq<char>, toks: Seq<NomEntity>)
    ensures
        entities_of(s, toks, entity_selector(false)) == entities_of(
            s,
            toks,
            entity_selector(true),
        ).filter(not_of_kind(Type::FEDERATEDMENTION)),
    decreases toks.len(),
{
    if toks.len() > 0 {
        let prev = toks.drop_last();
        lemma_federated_filter(s, prev);
        let all = entities_of(s, prev, entity_selector(true));
        match entity_of(s, toks.last(), entity_selector(true)) {
            Some(m) => {
                all.lemma_filter_push(m, not_of_kind(Type::FEDERATEDMENTION));
            },
            None => {},
        }
    }
}

/// Extracting all entities but federated mentions gives the entities of
/// the full extraction, federated mentions left out.
pub proof fn law_entities_without_federated(s: Seq<char>)
    ensures
        extracted(s, entity_selector(false)) == extracted(s, entity_selector(true)).filter(
            not_of_kind(Type::FEDERATEDMENTION),
        ),
{
    lemma_federated_filter(s, tokens(s));
}

/// Each mention, list or federated mention starts at an at sign, each
/// hashtag at a hash sign and each cashtag at a dollar sign.
proof fn lemma_token_signs(s: Seq<char>, i: int)
    requires
        0 <= i < s.len(),
    ensures
        token_at(s, i) matches Some(t) ==> ((t.entity_type == NomEntityType::Username
            || t.entity_type == NomEntityType::List || t.entity_type
            == NomEntityType::FederatedMention) ==> is_at_sign(s[i])) && (t.entity_type
            == NomEntityType::Hashtag ==> is_hash_sign(s[i])) && (t.entity_type
            == NomEntityType::Cashtag ==> s[i] == '$'),
{
}

/// With no sign of their kind, a text has no entities of that kind.
proof fn lemma_no_sign_no_entities(s: Seq<char>, toks: Seq<NomEntity>, sel: Selector)
    requires
        s.len() <= usize::MAX,
        forall|k: int|
            0 <= k < toks.len() ==> 0 <= (#[trigger] toks[k]).start < s.len() && token_at(
                s,
                toks[k].start as int,
            ) == Some(toks[k]),
        (sel.mentions || sel.lists || sel.federated) ==> !has_at_sign(s),
        sel.hashtags ==> !has_hash_sign(s),
        sel.cashtags ==> !s.contains('$'),
        !sel.urls,
        !sel.urls_without_protocol,
    ensures
        entities_of(s, toks, sel).len() == 0,
    decreases toks.len(),
{
    if toks.len() > 0 {
        let prev = toks.drop_last();
        assert forall|k: int| 0 <= k < prev.len() implies 0 <= (#[trigger] prev[k]).start < s.len()
            && token_at(s, prev[k].start as int) == Some(prev[k]) by {
            assert(prev[k] == toks[k]);
        }
        lemma_no_sign_no_entities(s, prev, sel);
        let t = toks.last();
        assert(toks[toks.len() - 1] == t);
        let i = t.start as int;
        lemma_token_signs(s, i);
        if t.entity_type == NomEntityType::Username || t.entity_type == NomEntityType::List
            || t.entity_type == NomEntityType::FederatedMention {
            if sel.mentions || sel.lists || sel.federated {
                if is_at_sign(s[i]) {
                    if s[i] == '@' {
                        assert(s.contains('@'));
                    } else {
                        assert(s.contains('\u{FF20}'));
                    }
                }
            }
        }
        if t.entity_type == NomEntityType::Hashtag && sel.hashtags {
            if s[i] == '#' {
                assert(s.contains('#'));
            } else {
                assert(s.contains('\u{FF03}'));
            }
        }
        if t.entity_type == NomEntityType::Cashtag && sel.cashtags {
            assert(s.contains('$'));
        }
    }
}

/// A text with no at sign has no mentions, lists or federated mentions.
pub proof fn law_no_at_sign_no_mentions(s: Seq<char>)
    requires
        s.len() <= usize::MAX,
        !has_at_sign(s),
    ensures
        extracted(s, federated_selector()).len() == 0,
        extracted(s, mention_or_list_selector()).len() == 0,
        extracted(s, mention_selector()).len() == 0,
{
    crate::scanner::lemma_tokens_ordered(s, 0);
    lemma_tokens_from_at(s, 0);
    lemma_no_sign_no_entities(s, tokens(s), federated_selector());
    lemma_no_sign_no_entities(s, tokens(s), mention_or_list_selector());
    lemma_no_sign_no_entities(s, tokens(s), mention_selector());
}

/// A text with no hash sign has no hashtags.
pub proof fn law_no_hash_sign_no_hashtags(s: Seq<char>)
    requires
        s.len() <= usize::MAX,
        !has_hash_sign(s),
    ensures
        extracted(s, hashtag_selector()).len() == 0,
{
    crate::scanner::lemma_tokens_ordered(s, 0);
    lemma_tokens_from_at(s, 0);
    lemma_no_sign_no_entities(s, tokens(s), hashtag_selector());
}

/// A text with no dollar sign has no cashtags.
pub proof fn law_no_dollar_sign_no_cashtags(s: Seq<char>)
    requires
        s.len() <= usize::MAX,
        !s.contains('$'),
    ensures
        extracted(s, cashtag_selector()).len() == 0,
{
    crate::scanner::lemma_tokens_ordered(s, 0);
    lemma_tokens_from_at(s, 0);
    lemma_no_sign_no_entities(s, tokens(s), cashtag_selector());
}

/// `v` follows a dollar sign somewhere in `s`.
pub open spec fn after_dollar_sign(s: Seq<char>, v: Seq<char>) -> bool {
    exists|j: int|
        0 <= j && j + 1 + v.len() <= s.len() && s[j] == '$' && s.subrange(j + 1, j + 1 + v.len())
            == v
}

proof fn lemma_cashtags_after_dollar_signs(s: Seq<char>, toks: Seq<NomEntity>)
    requires
        s.len() <= usize::MAX,
        forall|k: int|
            0 <= k < toks.len() ==> 0 <= (#[trigger] toks[k]).start < s.len() && token_at(
                s,
                toks[k].start as int,
            ) == Some(toks[k]),
    ensures
        forall|k: int|
            0 <= k < entities_of(s, toks, cashtag_selector()).len() ==> after_dollar_sign(
                s,
                (#[trigger] entities_of(s, toks, cashtag_selector())[k]).value,
            ),
    decreases toks.len(),
{
    if toks.len() > 0 {
        let prev = toks.drop_last();
        assert forall|k: int| 0 <= k < prev.len() implies 0 <= (#[trigger] prev[k]).start < s.len()
            && token_at(s, prev[k].start as int) == Some(prev[k]) by {
            assert(prev[k] == toks[k]);
        }
        lemma_cashtags_after_dollar_signs(s, prev);
        let t = toks.last();
        assert(toks[toks.len() - 1] == t);
        let a = t.start as int;
        lemma_token_signs(s, a);
        lemma_token_at(s, a);
        match entity_of(s, t, cashtag_selector()) {
            Some(m) => {
                assert(t.entity_type == NomEntityType::Cashtag);
                assert(m.value == s.subrange(a + 1, t.end as int));
                assert(s.subrange(a + 1, a + 1 + m.value.len()) == m.value);
                assert(after_dollar_sign(s, m.value));
            },
            None => {},
        }
    }
}

/// Every cashtag extracted is its text with the dollar sign that precedes
/// it in the text left out.
pub proof fn law_cashtags_after_dollar_signs(s: Seq<char>)
    requires
        s.len() <= usize::MAX,
    ensures
        forall|k: int|
            0 <= k < extracted(s, cashtag_selector()).len() ==> after_dollar_sign(
                s,
                (#[trigger] extracted(s, cashtag_selector())[k]).value,
            ),
{
    crate::scanner::lemma_tokens_ordered(s, 0);
    lemma_tokens_from_at(s, 0);
    lemma_cashtags_after_dollar_signs(s, tokens(s));
}

/// The entities extracted from `toks` lie within the text, each ending
/// before the next starts, and none ends after the last entity of `toks`.
#[verifier::rlimit(50)]
#[verifier::spinoff_prover]
proof fn lemma_entities_ordered(s: Seq<char>, toks: Seq<NomEntity>, sel: Selector)
    requires
        tokens_ordered(s, 0, toks),
    ensures
        forall|k: int|
            0 <= k < entities_of(s, toks, sel).len() ==> 0 <= (#[trigger] entities_of(
                s,
                toks,
                sel,
            )[k]).start <= entities_of(s, toks, sel)[k].end <= utf16_len(s),
        forall|j: int, k: int|
            0 <= j < k < entities_of(s, toks, sel).len() ==> (#[trigger] entities_of(
                s,
                toks,
                sel,
            )[j]).end <= (#[trigger] entities_of(s, toks, sel)[k]).start,
        toks.len() > 0 ==> forall|k: int|
            0 <= k < entities_of(s, toks, sel).len() ==> (#[trigger] entities_of(
                s,
                toks,
                sel,
            )[k]).end <= u16_at(s, toks.last().end as int),
    decreases toks.len(),
{
    if toks.len() > 0 {
        let prev = toks.drop_last();
        let t = toks.last();
        assert(tokens_ordered(s, 0, prev)) by {
            assert forall|k: int| 0 <= k < prev.len() implies prev[k] == toks[k] by {}
            assert forall|k: int| 0 <= k < prev.len() - 1 implies #[trigger] prev[k].end
                <= prev[k + 1].start by {
                assert(toks[k].end <= toks[k + 1].start);
            }
        }
        lemma_entities_ordered(s, prev, sel);
        assert(toks[toks.len() - 1] == t);
        let es = entities_of(s, prev, sel);
        let a = t.start as int;
        let b = t.end as int;
        if prev.len() > 0 {
            assert(prev.last() == toks[toks.len() - 2]);
            assert(toks[toks.len() - 2].end <= toks[toks.len() - 1].start);
            lemma_utf16_len_prefix_mono(s, prev.last().end as int, a);
        }
        lemma_utf16_len_prefix_mono(s, a, b);
        lemma_utf16_len_prefix_mono(s, b, s.len() as int);
        assert(s.take(s.len() as int) =~= s);
        assert forall|k: int| 0 <= k < es.len() implies (#[trigger] es[k]).end <= u16_at(s, b) by {
            if prev.len() > 0 {
                lemma_utf16_len_prefix_mono(s, prev.last().end as int, b);
            }
        }
        match entity_of(s, t, sel) {
            Some(m) => {
                lemma_validate_url_bounds(s, t, false);
                lemma_validate_url_bounds(s, t, true);
                crate::scanner::lemma_run_end(s, a + 1, CharClass::Username);
                let e = if t.entity_type == NomEntityType::Url || t.entity_type
                    == NomEntityType::UrlWithoutProtocol {
                    kept_end(s, t, sel).unwrap()
                } else {
                    b
                };
                lemma_utf16_len_prefix_mono(s, a, e);
                lemma_utf16_len_prefix_mono(s, e, b);
                let all = es.push(m);
                assert forall|j: int, k: int| 0 <= j < k < all.len() implies (#[trigger] all[j]).end
                    <= (#[trigger] all[k]).start by {
                    if k == es.len() {
                        assert(all[j] == es[j]);
                        if prev.len() > 0 {
                            assert(es[j].end <= u16_at(s, prev.last().end as int));
                        }
                    } else {
                        assert(all[j] == es[j]);
                        assert(all[k] == es[k]);
                    }
                }
                assert forall|k: int| 0 <= k < all.len() implies 0 <= (#[trigger] all[k]).start
                    <= all[k].end <= utf16_len(s) by {
                    if k < es.len() {
                        assert(all[k] == es[k]);
                    }
                }
                assert forall|k: int| 0 <= k < all.len() implies (#[trigger] all[k]).end <= u16_at(
                    s,
                    b,
                ) by {
                    if k < es.len() {
                        assert(all[k] == es[k]);
                    }
                }
            },
            None => {},
        }
    }
}

/// The entities of a text lie within it, in order, none overlapping the
/// next.
pub proof fn law_entities_ordered(s: Seq<char>, sel: Selector)
    requires
        s.len() <= usize::MAX,
    ensures
        forall|k: int|
            0 <= k < extracted(s, sel).len() ==> 0 <= (#[trigger] extracted(s, sel)[k]).start
                <= extracted(s, sel)[k].end <= utf16_len(s),
        forall|j: int, k: int|
            0 <= j < k < extracted(s, sel).len() ==> (#[trigger] extracted(s, sel)[j]).end <= (
            #[trigger] extracted(s, sel)[k]).start,
{
    crate::scanner::lemma_tokens_ordered(s, 0);
    lemma_entities_ordered(s, tokens(s), sel);
}

// ---------------------------------------------------------------------------
// Replies.

/// No entity starts at white space.
proof fn lemma_space_no_token(s: Seq<char>, j: int)
    requires
        0 <= j < s.len(),
        crate::chars::is_space(s[j]),
    ensures
        token_at(s, j) is None,
{
    assert(protocol_len(s, j) == 0);
}

/// White space before `i` holds no entity.
proof fn lemma_spaces_skip(s: Seq<char>, j: int, i: int)
    requires
        0 <= j <= i <= s.len(),
        forall|k: int| j <= k < i ==> crate::chars::is_space(#[trigger] s[k]),
    ensures
        tokens_from(s, j) == tokens_from(s, i),
    decreases i - j,
{
    if j < i {
        lemma_space_no_token(s, j);
        lemma_spaces_skip(s, j + 1, i);
    }
}

/// Extracting from consecutive entities gives the entities of each, in
/// order.
proof fn lemma_entities_of_concat(s: Seq<char>, a: Seq<NomEntity>, b: Seq<NomEntity>, sel: Selector)
    ensures
        entities_of(s, a + b, sel) == entities_of(s, a, sel) + entities_of(s, b, sel),
    decreases b.len(),
{
    if b.len() == 0 {
        assert(a + b =~= a);
        assert(entities_of(s, a, sel) + entities_of(s, b, sel) =~= entities_of(s, a, sel));
    } else {
        lemma_entities_of_concat(s, a, b.drop_last(), sel);
        assert((a + b).drop_last() =~= a + b.drop_last());
        assert((a + b).last() == b.last());
        let x = entities_of(s, a, sel);
        let y = entities_of(s, b.drop_last(), sel);
        match entity_of(s, b.last(), sel) {
            Some(m) => {
                assert((x + y).push(m) =~= x + y.push(m));
            },
            None => {},
        }
    }
}

/// The user name that a reply starts with is the first entity of the text.
pub proof fn lemma_reply_first_entity(s: Seq<char>)
    requires
        s.len() <= usize::MAX,
        reply_token(s) is Some,
    ensures
        extracted(s, entity_selector(false)).len() > 0,
        Some(extracted(s, entity_selector(false))[0]) == entity_of(
            s,
            reply_token(s).unwrap(),
            mention_selector(),
        ),
{
    let i = run_end(s, 0, CharClass::Space);
    lemma_run_end(s, 0, CharClass::Space);
    lemma_spaces_skip(s, 0, i);
    let t = reply_token(s).unwrap();
    lemma_token_at(s, i);
    let rest = tokens_from(s, t.end as int);
    assert(tokens(s) == seq![t] + rest);
    lemma_entities_of_concat(s, seq![t], rest, entity_selector(false));
    assert(seq![t].drop_last() =~= Seq::<NomEntity>::empty());
    assert(seq![t].last() == t);
    assert(t.entity_type == NomEntityType::Username);
    let m = entity_of(s, t, entity_selector(false)).unwrap();
    assert(entity_of(s, t, entity_selector(false)) == entity_of(s, t, mention_selector()));
    assert(entities_of(s, Seq::<NomEntity>::empty(), entity_selector(false)) =~= Seq::<
        EntityModel,
    >::empty());
    assert(entities_of(s, seq![t], entity_selector(false)) =~= seq![m]);
    assert((seq![m] + entities_of(s, rest, entity_selector(false)))[0] == m);
}

// ---------------------------------------------------------------------------
// URLs without a protocol.

/// The value starts with `http://` or `https://`, in either case.
pub open spec fn has_protocol(v: Seq<char>) -> bool {
    protocol_len(v, 0) > 0
}

/// The entities whose values start with a protocol.
pub open spec fn with_protocol() -> spec_fn(EntityModel) -> bool {
    |m: EntityModel| has_protocol(m.value)
}

/// A URL found with a protocol keeps it; a URL found without one does not
/// start with one.
proof fn lemma_url_protocols(s: Seq<char>, t: NomEntity)
    requires
        0 <= t.start < s.len(),
        s.len() <= usize::MAX,
        token_at(s, t.start as int) == Some(t),
    ensures
        entity_of(s, t, url_selector(true)) matches Some(m) ==> (has_protocol(m.value) <==> (
        t.entity_type == NomEntityType::Url)),
{
    let a = t.start as int;
    lemma_token_at(s, a);
    crate::url::lemma_validate_url_bounds(s, t, false);
    crate::url::lemma_validate_url_bounds(s, t, true);
    match entity_of(s, t, url_selector(true)) {
        Some(m) => {
            if t.entity_type == NomEntityType::Url {
                let pl = protocol_len(s, a);
                lemma_host_end(s, a + pl);
                lemma_url_end(s, host_end(s, a + pl));
                let v = m.value;
                assert(v.len() >= pl);
                assert(v[0] == s[a] && v[1] == s[a + 1] && v[2] == s[a + 2] && v[3] == s[a + 3]);
                assert(v[4] == s[a + 4] && v[5] == s[a + 5] && v[6] == s[a + 6]);
                if pl == 8 {
                    assert(v[7] == s[a + 7]);
                }
            } else {
                assert(t.entity_type == NomEntityType::UrlWithoutProtocol);
                let v = m.value;
                if has_protocol(v) {
                    assert(v[0] == s[a] && v[1] == s[a + 1] && v[2] == s[a + 2] && v[3]
                        == s[a + 3]);
                    assert(v[4] == s[a + 4] && v[5] == s[a + 5]);
                    lemma_run_end(s, a, CharClass::DomainOrDot);
                    let r = run_end(s, a, CharClass::DomainOrDot);
                    lemma_trim_dots(s, a, r);
                    assert(!in_class(CharClass::DomainOrDot, s[a + 4]) || !in_class(
                        CharClass::DomainOrDot,
                        s[a + 5],
                    ));
                    assert(r <= a + 5);
                    let he = host_end(s, a);
                    assert forall|k: int| a <= k < he implies s[k] != '.' by {
                        assert(k < a + 5);
                    }
                }
            }
        },
        None => {},
    }
}

proof fn lemma_protocol_filter(s: Seq<char>, toks: Seq<NomEntity>)
    requires
        s.len() <= usize::MAX,
        forall|k: int|
            0 <= k < toks.len() ==> 0 <= (#[trigger] toks[k]).start < s.len() && token_at(
                s,
                toks[k].start as int,
            ) == Some(toks[k]),
    ensures
        entities_of(s, toks, url_selector(false)) == entities_of(s, toks, url_selector(true)).filter(
            with_protocol(),
        ),
    decreases toks.len(),
{
    if toks.len() > 0 {
        let prev = toks.drop_last();
        assert forall|k: int| 0 <= k < prev.len() implies 0 <= (#[trigger] prev[k]).start < s.len()
            && token_at(s, prev[k].start as int) == Some(prev[k]) by {
            assert(prev[k] == toks[k]);
        }
        lemma_protocol_filter(s, prev);
        let t = toks.last();
        assert(toks[toks.len() - 1] == t);
        lemma_url_protocols(s, t);
        let all = entities_of(s, prev, url_selector(true));
        match entity_of(s, t, url_selector(true)) {
            Some(m) => {
                all.lemma_filter_push(m, with_protocol());
            },
            None => {},
        }
    }
}

/// The URLs extracted without those lacking a protocol are those extracted
/// with them that start with a protocol.
pub proof fn law_urls_without_protocol(s: Seq<char>)
    requires
        s.len() <= usize::MAX,
    ensures
        extracted(s, url_selector(false)) == extracted(s, url_selector(true)).filter(with_protocol()),
{
    crate::scanner::lemma_tokens_ordered(s, 0);
    lemma_tokens_from_at(s, 0);
    lemma_protocol_filter(s, tokens(s));
}

} // verus!
