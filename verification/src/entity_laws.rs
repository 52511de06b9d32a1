//! What each kind of entity that extraction reports looks like in the text,
//! stated over the characters of the text, whatever the selector.
use vstd::prelude::*;
use crate::chars::{
    is_at_sign, is_emoji_extender, is_emoji_modifier, is_hash_sign, is_invalid_char, is_pictographic,
    is_regional_indicator,
};
use crate::config::Configuration;
use crate::entity::{EntityModel, Type};
use crate::extractor::{entities_of, entity_of, extracted, u16_at, Selector};
use crate::laws::lemma_tokens_from_at;
use crate::scanner::{
    at_token, cashtag_at, emoji_end, emoji_tail, federated_at, hashtag_at, host_end, host_ok,
    in_class, is_keycap_base, lemma_run_end, lemma_token_at, lemma_tokens_ordered, lemma_url_end,
    mention_or_list_at, mention_prefix_ok, port_end, protocol_len, run_end, token_at,
    token_in_bounds, tokens, tokens_from, url_at, url_end, uwp_at, CharClass, NomEntity,
    NomEntityType,
};
use crate::text::lemma_utf16_len_bounds;
use crate::url::{lemma_validate_url_bounds, url_host};
use crate::validating::{known_emoji, tally, token_step, weigh_tokens};
use crate::weighting::{emoji_run, lemma_emoji_run, start_metrics, text_run, Metrics};

verus! {

/// `c` is an ASCII digit.
pub open spec fn ascii_digit(c: char) -> bool {
    '0' <= c <= '9'
}

/// `c` is an ASCII letter.
pub open spec fn ascii_letter(c: char) -> bool {
    ('a' <= c <= 'z') || ('A' <= c <= 'Z')
}

/// Which rule of the grammar gave the entity at `i`, by its kind.
proof fn lemma_token_rule(s: Seq<char>, i: int)
    requires
        0 <= i < s.len(),
        s.len() <= usize::MAX,
    ensures
        token_at(s, i) matches Some(t) ==> {
            &&& t.entity_type == NomEntityType::Hashtag ==> hashtag_at(s, i) == Some(t)
            &&& t.entity_type == NomEntityType::Cashtag ==> cashtag_at(s, i) == Some(t)
            &&& (t.entity_type == NomEntityType::Username || t.entity_type == NomEntityType::List)
                ==> is_at_sign(s[i]) && at_token(s, i) == Some(t)
            &&& t.entity_type == NomEntityType::Url ==> url_at(s, i) == Some(t)
            &&& t.entity_type == NomEntityType::Emoji ==> t.end == emoji_end(s, i)
        },
{
    if is_invalid_char(s[i]) {
    } else if emoji_end(s, i) > i {
        crate::scanner::lemma_emoji_tail(s, i + 1);
        if i + 2 <= s.len() {
            crate::scanner::lemma_emoji_tail(s, i + 2);
        }
    } else if is_at_sign(s[i]) {
        if mention_prefix_ok(s, i) {
            match federated_at(s, i) {
                Some(f) => {
                    assert(f.entity_type == NomEntityType::FederatedMention);
                },
                None => {
                    match mention_or_list_at(s, i) {
                        Some(m) => {
                            assert(m.entity_type == NomEntityType::Username || m.entity_type
                                == NomEntityType::List);
                        },
                        None => {},
                    }
                },
            }
        }
    } else if is_hash_sign(s[i]) {
        match hashtag_at(s, i) {
            Some(h) => {
                assert(h.entity_type == NomEntityType::Hashtag);
            },
            None => {},
        }
    } else if s[i] == '$' {
        match cashtag_at(s, i) {
            Some(c) => {
                assert(c.entity_type == NomEntityType::Cashtag);
            },
            None => {},
        }
    } else {
        match url_at(s, i) {
            Some(u) => {
                assert(u.entity_type == NomEntityType::Url);
            },
            None => {
                match uwp_at(s, i) {
                    Some(w) => {
                        assert(w.entity_type == NomEntityType::UrlWithoutProtocol);
                    },
                    None => {},
                }
            },
        }
    }
}

/// Every entity reported from `toks` is what one of them is reported as.
proof fn lemma_entity_source(s: Seq<char>, toks: Seq<NomEntity>, sel: Selector)
    ensures
        forall|k: int|
            #![trigger entities_of(s, toks, sel)[k]]
            0 <= k < entities_of(s, toks, sel).len() ==> exists|j: int|
                0 <= j < toks.len() && entity_of(s, #[trigger] toks[j], sel) == Some(
                    entities_of(s, toks, sel)[k],
                ),
    decreases toks.len(),
{
    if toks.len() > 0 {
        let prev = toks.drop_last();
        lemma_entity_source(s, prev, sel);
        let es = entities_of(s, toks, sel);
        let ps = entities_of(s, prev, sel);
        assert forall|k: int| #![trigger es[k]] 0 <= k < es.len() implies exists|j: int|
            0 <= j < toks.len() && entity_of(s, #[trigger] toks[j], sel) == Some(es[k]) by {
            if k < ps.len() {
                let j = choose|j: int|
                    0 <= j < prev.len() && entity_of(s, #[trigger] prev[j], sel) == Some(ps[k]);
                assert(prev[j] == toks[j]);
                assert(es[k] == ps[k]);
            } else {
                assert(toks[toks.len() - 1] == toks.last());
            }
        }
    }
}

/// Every entity extracted from `s` is what the grammar's entity at some
/// position of `s` is reported as.
proof fn lemma_extracted_source(s: Seq<char>, sel: Selector, k: int) -> (t: NomEntity)
    requires
        s.len() <= usize::MAX,
        0 <= k < extracted(s, sel).len(),
    ensures
        0 <= t.start < s.len(),
        token_at(s, t.start as int) == Some(t),
        token_in_bounds(s, t.start as int, t),
        entity_of(s, t, sel) == Some(extracted(s, sel)[k]),
{
    let toks = tokens(s);
    lemma_entity_source(s, toks, sel);
    lemma_tokens_from_at(s, 0);
    lemma_tokens_ordered(s, 0);
    let j = choose|j: int|
        0 <= j < toks.len() && entity_of(s, #[trigger] toks[j], sel) == Some(extracted(s, sel)[k]);
    let t = toks[j];
    lemma_token_at(s, t.start as int);
    t
}

/// Every hashtag extracted holds a character other than an ASCII digit: a
/// run of digits after a hash sign is not a hashtag.
pub proof fn law_hashtags_not_all_digits(s: Seq<char>, sel: Selector)
    requires
        s.len() <= usize::MAX,
    ensures
        forall|k: int|
            0 <= k < extracted(s, sel).len() && (#[trigger] extracted(s, sel)[k]).t == Type::HASHTAG
                ==> exists|x: int|
                0 <= x < extracted(s, sel)[k].value.len() && !ascii_digit(
                    extracted(s, sel)[k].value[x],
                ),
{
    assert forall|k: int|
        0 <= k < extracted(s, sel).len() && (#[trigger] extracted(s, sel)[k]).t
            == Type::HASHTAG implies exists|x: int|
        0 <= x < extracted(s, sel)[k].value.len() && !ascii_digit(extracted(s, sel)[k].value[x]) by {
        let t = lemma_extracted_source(s, sel, k);
        let a = t.start as int;
        let e = t.end as int;
        let v = extracted(s, sel)[k].value;
        lemma_token_rule(s, a);
        assert(t.entity_type == NomEntityType::Hashtag);
        assert(hashtag_at(s, a) == Some(t));
        lemma_run_end(s, a + 1, CharClass::Word);
        assert(crate::scanner::has_non_digit(s, a + 1, e));
        assert(v == s.subrange(a + 1, e));
        let y = choose|y: int| a + 1 <= y < e && !crate::chars::is_digit(s[y]);
        assert(v[y - (a + 1)] == s[y]);
    }
}

/// `c` can stand in a user name: an ASCII letter or digit, or `_`.
pub open spec fn ascii_name_char(c: char) -> bool {
    ascii_letter(c) || ascii_digit(c) || c == '_'
}

/// `c` is an at sign, plain or full width.
pub open spec fn at_sign(c: char) -> bool {
    c == '@' || c == '\u{FF20}'
}

/// The entity `m` is the text after an at sign at `a` of `s`, and nothing
/// that can stand in a user name comes right before that at sign.
pub open spec fn mention_at(s: Seq<char>, m: EntityModel, a: int) -> bool {
    &&& 0 <= a
    &&& a + 1 + m.value.len() <= s.len()
    &&& u16_at(s, a) == m.start
    &&& at_sign(s[a])
    &&& s.subrange(a + 1, a + 1 + m.value.len()) == m.value
    &&& (a == 0 || !ascii_name_char(s[a - 1]))
}

/// Every mention extracted (a user name, also that of a list) is the text
/// after an at sign, and no letter, digit or underscore comes right before
/// that at sign: the `@` of an e-mail address starts no mention.
pub proof fn law_mentions_not_after_name_chars(s: Seq<char>, sel: Selector)
    requires
        s.len() <= usize::MAX,
    ensures
        forall|k: int|
            0 <= k < extracted(s, sel).len() && (#[trigger] extracted(s, sel)[k]).t == Type::MENTION
                ==> exists|a: int| mention_at(s, extracted(s, sel)[k], a),
{
    assert forall|k: int|
        0 <= k < extracted(s, sel).len() && (#[trigger] extracted(s, sel)[k]).t
            == Type::MENTION implies exists|a: int| mention_at(s, extracted(s, sel)[k], a) by {
        let t = lemma_extracted_source(s, sel, k);
        let a = t.start as int;
        let m = extracted(s, sel)[k];
        lemma_token_rule(s, a);
        lemma_run_end(s, a + 1, CharClass::Username);
        assert(t.entity_type == NomEntityType::Username || t.entity_type == NomEntityType::List);
        assert(at_token(s, a) == Some(t));
        assert(mention_prefix_ok(s, a));
        assert(s.subrange(a + 1, a + 1 + m.value.len()) == m.value);
        assert(mention_at(s, m, a));
    }
}

/// The value `v` is `p` ASCII letters, one to six of them, then, where
/// anything follows, `.` or `_` and one or two ASCII letters.
pub open spec fn cashtag_split(v: Seq<char>, p: int) -> bool {
    &&& 1 <= p <= 6
    &&& p <= v.len()
    &&& forall|x: int| 0 <= x < p ==> ascii_letter(#[trigger] v[x])
    &&& p == v.len() || {
        &&& v[p] == '.' || v[p] == '_'
        &&& 2 <= v.len() - p <= 3
        &&& forall|x: int| p < x < v.len() ==> ascii_letter(#[trigger] v[x])
    }
}

/// The value `v` is one to six ASCII letters, then, optionally, `.` or `_`
/// and one or two ASCII letters.
pub open spec fn cashtag_shaped(v: Seq<char>) -> bool {
    exists|p: int| cashtag_split(v, p)
}

/// Every cashtag extracted is one to six ASCII letters, optionally followed
/// by `.` or `_` and one or two letters: it holds no digit, so a price is
/// no cashtag.
pub proof fn law_cashtags_are_letters(s: Seq<char>, sel: Selector)
    requires
        s.len() <= usize::MAX,
    ensures
        forall|k: int|
            0 <= k < extracted(s, sel).len() && (#[trigger] extracted(s, sel)[k]).t == Type::CASHTAG
                ==> cashtag_shaped(extracted(s, sel)[k].value),
{
    assert forall|k: int|
        0 <= k < extracted(s, sel).len() && (#[trigger] extracted(s, sel)[k]).t
            == Type::CASHTAG implies cashtag_shaped(extracted(s, sel)[k].value) by {
        let t = lemma_extracted_source(s, sel, k);
        let i = t.start as int;
        let v = extracted(s, sel)[k].value;
        lemma_token_rule(s, i);
        assert(t.entity_type == NomEntityType::Cashtag);
        assert(cashtag_at(s, i) == Some(t));
        lemma_run_end(s, i + 1, CharClass::Alpha);
        let a = run_end(s, i + 1, CharClass::Alpha);
        let p = a - (i + 1);
        let b = if a + 1 < s.len() && (s[a] == '.' || s[a] == '_') && crate::chars::is_alpha(
            s[a + 1],
        ) {
            lemma_run_end(s, a + 1, CharClass::Alpha);
            run_end(s, a + 1, CharClass::Alpha)
        } else {
            a
        };
        let e = t.end as int;
        assert(e == a || (e == b && b > a && b - (a + 1) <= 2));
        assert(v == s.subrange(i + 1, e));
        assert(v.len() == e - (i + 1));
        assert forall|x: int| 0 <= x < p implies ascii_letter(#[trigger] v[x]) by {
            assert(v[x] == s[i + 1 + x]);
        }
        if e != a {
            assert(v[p] == s[a]);
            assert forall|x: int| p < x < v.len() implies ascii_letter(#[trigger] v[x]) by {
                assert(v[x] == s[i + 1 + x]);
            }
        }
        assert(cashtag_split(v, p));
    }
}

/// A keycap: a digit, `#` or `*`, then the combining enclosing keycap,
/// with or without the emoji variation selector between them.
pub open spec fn keycap_emoji(s: Seq<char>) -> bool {
    &&& s.len() >= 2
    &&& ascii_digit(s[0]) || s[0] == '#' || s[0] == '*'
    &&& (s.len() == 2 && s[1] == '\u{20E3}') || (s.len() == 3 && s[1] == '\u{FE0F}' && s[2]
        == '\u{20E3}')
}

/// A flag: two regional indicator symbols.
pub open spec fn flag_emoji(s: Seq<char>) -> bool {
    &&& s.len() == 2
    &&& '\u{1F1E6}' <= s[0] <= '\u{1F1FF}'
    &&& '\u{1F1E6}' <= s[1] <= '\u{1F1FF}'
}

/// An emoticon, alone, with the emoji variation selector, or with a skin
/// tone.
pub open spec fn emoticon_emoji(s: Seq<char>) -> bool {
    &&& 1 <= s.len() <= 2
    &&& '\u{1F600}' <= s[0] <= '\u{1F64F}'
    &&& s.len() == 2 ==> (s[1] == '\u{FE0F}' || ('\u{1F3FB}' <= s[1] <= '\u{1F3FF}'))
}

/// With emoji parsing on, a text that is one keycap, flag or emoticon that
/// the emoji table knows weighs the default weight once, whatever its
/// characters would weigh one by one.
pub proof fn law_single_emoji_weight(cfg: &Configuration, nl: int, s: Seq<char>, sel: Selector)
    requires
        cfg.emoji_parsing_enabled,
        known_emoji(s),
        keycap_emoji(s) || flag_emoji(s) || emoticon_emoji(s),
    ensures
        tally(cfg, nl, s, sel).weighted == cfg.default_weight,
{
    let n = s.len() as int;
    assert(emoji_tail(s, n) == n);
    if keycap_emoji(s) {
        assert(!is_pictographic(s[0]) && !is_regional_indicator(s[0]));
        assert(is_keycap_base(s[0]));
    } else if flag_emoji(s) {
        assert(!is_pictographic(s[0]) && is_regional_indicator(s[0]));
        assert(is_regional_indicator(s[1]));
    } else {
        assert(is_pictographic(s[0]));
        if n == 2 {
            assert(is_emoji_modifier(s[1]) || is_emoji_extender(s[1]));
            assert(emoji_tail(s, 1) == emoji_tail(s, 2));
        }
    }
    assert(emoji_end(s, 0) == n);
    let t = NomEntity {
        entity_type: NomEntityType::Emoji,
        start: 0,
        end: n as usize,
        host_start: 0,
        host_end: 0,
    };
    assert(token_at(s, 0) == Some(t));
    assert(tokens_from(s, n) =~= Seq::<NomEntity>::empty());
    assert(tokens(s) =~= seq![t]);
    assert(tokens(s).drop_last() =~= Seq::<NomEntity>::empty());
    assert(s.subrange(0, n) =~= s);
    let toks = tokens(s);
    assert(toks.last() == t);
    assert(weigh_tokens(cfg, nl, s, sel, toks.drop_last()) == (start_metrics(), 0int));
    assert(text_run(cfg, nl, start_metrics(), s, 0, 0) == start_metrics());
    let m = Metrics { weighted: start_metrics().weighted + cfg.default_weight, ..start_metrics() };
    let st = weigh_tokens(cfg, nl, s, sel, toks);
    assert(st == token_step(cfg, nl, s, sel, (start_metrics(), 0int), t));
    assert(st == (emoji_run(cfg, m, s, 0, n), n));
    lemma_emoji_run(cfg, m, s, 0, n);
    assert(text_run(cfg, nl, st.0, s, n, n) == st.0);
}

/// `c` is an ASCII letter or digit.
pub open spec fn ascii_alnum(c: char) -> bool {
    ascii_letter(c) || ascii_digit(c)
}

/// A host name of ASCII letters, digits, hyphens and dots that starts and
/// ends with a letter or digit and holds a dot.
pub open spec fn plain_host(h: Seq<char>) -> bool {
    &&& h.len() >= 1
    &&& ascii_alnum(h[0])
    &&& ascii_alnum(h[h.len() - 1])
    &&& forall|k: int| 0 <= k < h.len() ==> ascii_alnum(#[trigger] h[k]) || h[k] == '.' || h[k] == '-'
    &&& exists|k: int| 0 <= k < h.len() && h[k] == '.'
}

/// One or more ASCII digits.
pub open spec fn port_digits(d: Seq<char>) -> bool {
    d.len() >= 1 && forall|k: int| 0 <= k < d.len() ==> ascii_digit(#[trigger] d[k])
}

/// `http://`.
pub open spec fn http_scheme() -> Seq<char> {
    seq!['h', 't', 't', 'p', ':', '/', '/']
}

/// The text `http://` + host + `:` + port + the rest.
pub open spec fn url_with_port(h: Seq<char>, d: Seq<char>, rest: Seq<char>) -> Seq<char> {
    http_scheme() + h + seq![':'] + d + rest
}

proof fn lemma_run_covers(s: Seq<char>, i: int, j: int, cls: CharClass)
    requires
        0 <= i <= j <= s.len(),
        forall|k: int| i <= k < j ==> in_class(cls, #[trigger] s[k]),
    ensures
        run_end(s, i, cls) >= j,
        j < s.len() && !in_class(cls, s[j]) ==> run_end(s, i, cls) == j,
    decreases j - i,
{
    lemma_run_end(s, i, cls);
    if i < j {
        assert(in_class(cls, s[i]));
        lemma_run_covers(s, i + 1, j, cls);
    }
}

/// A URL at the start of a text, with a plain host followed by `:` and a
/// port, is extracted with its port and whatever path follows it, unless
/// its host is cut back to a valid top-level domain: its value is a prefix
/// of the text that either ends inside the host or reaches past the port.
#[verifier::rlimit(40)]
#[verifier::spinoff_prover]
pub proof fn law_urls_keep_their_port(h: Seq<char>, d: Seq<char>, rest: Seq<char>, sel: Selector)
    requires
        plain_host(h),
        port_digits(d),
        url_with_port(h, d, rest).len() <= usize::MAX,
    ensures
        forall|k: int|
            0 <= k < extracted(url_with_port(h, d, rest), sel).len() && (#[trigger] extracted(
                url_with_port(h, d, rest),
                sel,
            )[k]).t == Type::URL && extracted(url_with_port(h, d, rest), sel)[k].start == 0 ==> {
                let v = extracted(url_with_port(h, d, rest), sel)[k].value;
                &&& v == url_with_port(h, d, rest).subrange(0, v.len() as int)
                &&& v.len() < 7 + h.len() || v.len() >= 8 + h.len() + d.len()
            },
{
    let s = url_with_port(h, d, rest);
    let he: int = 7 + h.len() as int;
    assert forall|k: int| 0 <= k < h.len() implies s[7 + k] == h[k] by {}
    assert forall|k: int| 0 <= k < d.len() implies s[he + 1 + k] == d[k] by {}
    assert(s[0] == 'h' && s[1] == 't' && s[2] == 't' && s[3] == 'p');
    assert(s[4] == ':' && s[5] == '/' && s[6] == '/');
    assert(s[he] == ':');
    assert forall|k: int| 7 <= k < he implies in_class(CharClass::DomainOrDot, #[trigger] s[k]) by {
        assert(s[k] == h[k - 7]);
    }
    lemma_run_covers(s, 7, he, CharClass::DomainOrDot);
    assert(run_end(s, 7, CharClass::DomainOrDot) == he);
    assert(s[he - 1] == h[h.len() - 1]);
    assert(host_end(s, 7) == he);
    let kd = choose|k: int| 0 <= k < h.len() && h[k] == '.';
    assert(s[7 + kd] == '.');
    assert(host_ok(s, 7, he));
    assert forall|k: int| he + 1 <= k < he + 1 + d.len() implies in_class(
        CharClass::Digit,
        #[trigger] s[k],
    ) by {
        assert(s[k] == d[k - (he + 1)]);
    }
    lemma_run_covers(s, he + 1, he + 1 + d.len(), CharClass::Digit);
    assert(port_end(s, he) >= he + 1 + d.len());
    lemma_url_end(s, he);
    let e = url_end(s, port_end(s, he));
    let u = NomEntity {
        entity_type: NomEntityType::Url,
        start: 0,
        end: e as usize,
        host_start: 7,
        host_end: he as usize,
    };
    assert(protocol_len(s, 0) == 7);
    assert(url_at(s, 0) == Some(u));
    assert(emoji_end(s, 0) == 0);
    assert(token_at(s, 0) == Some(u));
    assert forall|k: int|
        0 <= k < extracted(s, sel).len() && (#[trigger] extracted(s, sel)[k]).t == Type::URL
            && extracted(s, sel)[k].start == 0 implies {
        let v = extracted(s, sel)[k].value;
        &&& v == s.subrange(0, v.len() as int)
        &&& v.len() < 7 + h.len() || v.len() >= 8 + h.len() + d.len()
    } by {
        let t = lemma_extracted_source(s, sel, k);
        let a = t.start as int;
        lemma_utf16_len_bounds(s.take(a));
        assert(a == 0);
        assert(t == u);
        lemma_validate_url_bounds(s, u, false);
        crate::domain::lemma_tld_boundary_bounds(url_host(s, u), false);
        assert(url_host(s, u) =~= h);
    }
}

} // verus!
