//! Extraction of URLs, hashtags, cashtags, mentions, lists and federated
//! mentions from text.
use vstd::prelude::*;
use vstd::string::*;
use crate::entity::{entity_views, string_views, Entity, EntityModel, Type};
use crate::scanner::{
    lemma_run_end, lemma_tokens_ordered, list_name_ok, parse_tweet, run_end, run_while, token_at,
    token_at_exec, tokens, tokens_ordered, CharClass, NomEntity, NomEntityType,
};
use crate::text::{chars_of, scan, substring, utf16_len, utf8_len};
use crate::url::{url_in_text, validate_url, validate_url_nom};

verus! {

broadcast use vstd::string::group_string_axioms;

/// Selects how URLs are validated. The grammar of this library validates
/// top-level domains itself, so every backend extracts the same entities;
/// the choice is kept for callers that set it.
#[derive(PartialEq, Eq, Structural, Clone, Copy, Debug)]
pub enum ParserBackend {
    Pest,
    External,
    Nom,
}

impl Default for ParserBackend {
    fn default() -> (r: ParserBackend)
        ensures
            r == ParserBackend::Nom,
    {
        ParserBackend::Nom
    }
}

/// Which kinds of entity an extraction reports.
#[derive(Clone, Copy)]
pub struct Selector {
    pub urls: bool,
    pub urls_without_protocol: bool,
    pub hashtags: bool,
    pub cashtags: bool,
    pub mentions: bool,
    pub lists: bool,
    pub federated: bool,
}

/// The UTF-16 offset of character `k` of `s`.
pub open spec fn u16_at(s: Seq<char>, k: int) -> int {
    utf16_len(s.take(k)) as int
}

/// Where the user name of a list ends, at its `/`.
pub open spec fn list_name_end(s: Seq<char>, t: NomEntity) -> int {
    run_end(s, t.start + 1, CharClass::Username)
}

/// An entity of kind `ty` over `s[a..e]` with the given value and slug.
pub open spec fn model(
    s: Seq<char>,
    ty: Type,
    a: int,
    e: int,
    value: Seq<char>,
    slug: Seq<char>,
) -> EntityModel {
    EntityModel { t: ty, start: u16_at(s, a), end: u16_at(s, e), value, list_slug: slug }
}

/// What the grammar's entity `t` of `s` is reported as, if the selector
/// takes it. URLs are validated and cut back as `validate_url` says; the sign
/// of a hashtag, cashtag or mention is not part of its value; a list's value
/// is its user name and its slug starts with `/`; a federated mention is
/// reported whole.
pub open spec fn entity_of(s: Seq<char>, t: NomEntity, sel: Selector) -> Option<EntityModel> {
    let a = t.start as int;
    let e = t.end as int;
    let none = Seq::<char>::empty();
    match t.entity_type {
        NomEntityType::Url => if sel.urls {
            match validate_url(s, t, false) {
                Some(n) => Some(model(s, Type::URL, a, e - n, s.subrange(a, e - n), none)),
                None => None,
            }
        } else {
            None
        },
        NomEntityType::UrlWithoutProtocol => if sel.urls_without_protocol {
            match validate_url(s, t, true) {
                Some(n) => Some(model(s, Type::URL, a, e - n, s.subrange(a, e - n), none)),
                None => None,
            }
        } else {
            None
        },
        NomEntityType::Hashtag => if sel.hashtags {
            Some(model(s, Type::HASHTAG, a, e, s.subrange(a + 1, e), none))
        } else {
            None
        },
        NomEntityType::Cashtag => if sel.cashtags {
            Some(model(s, Type::CASHTAG, a, e, s.subrange(a + 1, e), none))
        } else {
            None
        },
        NomEntityType::Username => if sel.mentions {
            Some(model(s, Type::MENTION, a, e, s.subrange(a + 1, e), none))
        } else {
            None
        },
        NomEntityType::List => if sel.lists {
            let m = list_name_end(s, t);
            Some(model(s, Type::MENTION, a, e, s.subrange(a + 1, m), s.subrange(m, e)))
        } else {
            None
        },
        NomEntityType::FederatedMention => if sel.federated {
            Some(model(s, Type::FEDERATEDMENTION, a, e, s.subrange(a, e), none))
        } else {
            None
        },
        _ => None,
    }
}

/// Where the grammar's entity `t` of `s` ends once the selector takes it (a
/// URL is cut back as `validate_url` says), or `None` when it is not taken.
pub open spec fn kept_end(s: Seq<char>, t: NomEntity, sel: Selector) -> Option<int> {
    let e = t.end as int;
    match t.entity_type {
        NomEntityType::Url => if sel.urls {
            match validate_url(s, t, false) {
                Some(n) => Some(e - n),
                None => None,
            }
        } else {
            None
        },
        NomEntityType::UrlWithoutProtocol => if sel.urls_without_protocol {
            match validate_url(s, t, true) {
                Some(n) => Some(e - n),
                None => None,
            }
        } else {
            None
        },
        NomEntityType::Hashtag => if sel.hashtags {
            Some(e)
        } else {
            None
        },
        NomEntityType::Cashtag => if sel.cashtags {
            Some(e)
        } else {
            None
        },
        NomEntityType::Username => if sel.mentions {
            Some(e)
        } else {
            None
        },
        NomEntityType::List => if sel.lists {
            Some(e)
        } else {
            None
        },
        NomEntityType::FederatedMention => if sel.federated {
            Some(e)
        } else {
            None
        },
        _ => None,
    }
}

/// The entities reported for the grammar's entities `toks`, in order.
pub open spec fn entities_of(s: Seq<char>, toks: Seq<NomEntity>, sel: Selector) -> Seq<
    EntityModel,
>
    decreases toks.len(),
{
    if toks.len() == 0 {
        Seq::empty()
    } else {
        let rest = entities_of(s, toks.drop_last(), sel);
        match entity_of(s, toks.last(), sel) {
            Some(m) => rest.push(m),
            None => rest,
        }
    }
}

/// The values of the entities reported for `toks`, in order.
pub open spec fn values_of(s: Seq<char>, toks: Seq<NomEntity>, sel: Selector) -> Seq<Seq<char>>
    decreases toks.len(),
{
    if toks.len() == 0 {
        Seq::empty()
    } else {
        let rest = values_of(s, toks.drop_last(), sel);
        match entity_of(s, toks.last(), sel) {
            Some(m) => rest.push(m.value),
            None => rest,
        }
    }
}

/// The entities of `s` that the selector takes.
pub open spec fn extracted(s: Seq<char>, sel: Selector) -> Seq<EntityModel> {
    entities_of(s, tokens(s), sel)
}

/// The values of the entities of `s` that the selector takes.
pub open spec fn extracted_values(s: Seq<char>, sel: Selector) -> Seq<Seq<char>> {
    values_of(s, tokens(s), sel)
}

pub open spec fn nothing() -> Selector {
    Selector {
        urls: false,
        urls_without_protocol: false,
        hashtags: false,
        cashtags: false,
        mentions: false,
        lists: false,
        federated: false,
    }
}

/// URLs with a protocol, and without one when `uwp` is set.
pub open spec fn url_selector(uwp: bool) -> Selector {
    Selector { urls: true, urls_without_protocol: uwp, ..nothing() }
}

pub open spec fn hashtag_selector() -> Selector {
    Selector { hashtags: true, ..nothing() }
}

pub open spec fn cashtag_selector() -> Selector {
    Selector { cashtags: true, ..nothing() }
}

pub open spec fn mention_selector() -> Selector {
    Selector { mentions: true, ..nothing() }
}

pub open spec fn mention_or_list_selector() -> Selector {
    Selector { mentions: true, lists: true, ..nothing() }
}

/// Mentions and federated mentions.
pub open spec fn federated_selector() -> Selector {
    Selector { mentions: true, federated: true, ..nothing() }
}

/// URLs with a protocol, hashtags, cashtags, mentions and lists; with
/// `federated`, federated mentions too.
pub open spec fn entity_selector(federated: bool) -> Selector {
    Selector {
        urls: true,
        urls_without_protocol: false,
        hashtags: true,
        cashtags: true,
        mentions: true,
        lists: true,
        federated,
    }
}

/// What `text` needs to be extracted from: its length in bytes fits a
/// `usize`, and with indices, its length in UTF-16 code units fits an `i32`.
pub open spec fn text_fits(s: Seq<char>) -> bool {
    utf8_len(s) <= usize::MAX
}

pub open spec fn text_fits_utf16(s: Seq<char>) -> bool {
    utf8_len(s) <= usize::MAX && utf16_len(s) <= i32::MAX
}

pub(crate) fn entity_value_at(text: &str, v: &Vec<char>, t: &NomEntity, sel: Selector) -> (r: Option<(
    Type,
    usize,
    usize,
    String,
    String,
)>)
    requires
        v@ == text@,
        text_fits(v@),
        url_in_text(v@, *t),
        t.start < t.end,
        list_name_ok(v@, *t),
    ensures
        match r {
            Some((ty, a, e, value, slug)) => entity_of(v@, *t, sel) matches Some(m) && m == model(
                v@,
                ty,
                a as int,
                e as int,
                value@,
                slug@,
            ) && t.start == a && a <= e <= t.end && kept_end(v@, *t, sel) == Some(e as int),
            None => entity_of(v@, *t, sel) is None && kept_end(v@, *t, sel) is None,
        },
{
    let a = t.start;
    let e = t.end;
    match t.entity_type {
        NomEntityType::Url => if sel.urls {
            match validate_url_nom(text, v, t, false) {
                Some(n) => Some((Type::URL, a, e - n, substring(text, a, e - n), String::new())),
                None => None,
            }
        } else {
            None
        },
        NomEntityType::UrlWithoutProtocol => if sel.urls_without_protocol {
            match validate_url_nom(text, v, t, true) {
                Some(n) => Some((Type::URL, a, e - n, substring(text, a, e - n), String::new())),
                None => None,
            }
        } else {
            None
        },
        NomEntityType::Hashtag => if sel.hashtags {
            Some((Type::HASHTAG, a, e, substring(text, a + 1, e), String::new()))
        } else {
            None
        },
        NomEntityType::Cashtag => if sel.cashtags {
            Some((Type::CASHTAG, a, e, substring(text, a + 1, e), String::new()))
        } else {
            None
        },
        NomEntityType::Username => if sel.mentions {
            Some((Type::MENTION, a, e, substring(text, a + 1, e), String::new()))
        } else {
            None
        },
        NomEntityType::List => if sel.lists {
            proof {
                lemma_run_end(v@, a + 1, CharClass::Username);
            }
            let m = run_while(v, a + 1, CharClass::Username);
            Some((Type::MENTION, a, e, substring(text, a + 1, m), substring(text, m, e)))
        } else {
            None
        },
        NomEntityType::FederatedMention => if sel.federated {
            Some((Type::FEDERATEDMENTION, a, e, substring(text, a, e), String::new()))
        } else {
            None
        },
        _ => None,
    }
}


pub proof fn lemma_string_views_push(v: Seq<String>, x: String)
    ensures
        string_views(v.push(x)) == string_views(v).push(x@),
{
    assert(string_views(v.push(x)) =~= string_views(v).push(x@));
}

pub proof fn lemma_entity_views_push(v: Seq<Entity>, x: Entity)
    ensures
        entity_views(v.push(x)) == entity_views(v).push(x@),
{
    assert(entity_views(v.push(x)) =~= entity_views(v).push(x@));
}

/// The values of the entities of `text` that the selector takes.
fn select_values(text: &str, v: &Vec<char>, sel: Selector) -> (r: Vec<String>)
    requires
        v@ == text@,
        text_fits(v@),
    ensures
        string_views(r@) == extracted_values(v@, sel),
{
    let toks = parse_tweet(v);
    let n: usize = v.len();
    proof {
        assert(v@.len() == n);
        lemma_tokens_ordered(v@, 0);
    }
    let mut out: Vec<String> = Vec::new();
    let mut k: usize = 0;
    while k < toks.len()
        invariant
            v@ == text@,
            text_fits(v@),
            toks@ == tokens(v@),
            tokens_ordered(v@, 0, toks@),
            k <= toks.len(),
            string_views(out@) == values_of(v@, toks@.take(k as int), sel),
        decreases toks.len() - k,
    {
        let t = toks[k];
        proof {
            assert(toks@.take(k + 1).drop_last() =~= toks@.take(k as int));
            assert(toks@.take(k + 1).last() == t);
            assert(toks@[k as int] == t);
        }
        match entity_value_at(text, v, &t, sel) {
            Some((_, _, _, value, _)) => {
                proof {
                    lemma_string_views_push(out@, value);
                }
                out.push(value);
            },
            None => {},
        }
        k = k + 1;
    }
    assert(toks@.take(toks@.len() as int) =~= toks@);
    out
}

/// The entities of `text` that the selector takes, with UTF-16 indices.
fn select_entities(text: &str, v: &Vec<char>, sel: Selector) -> (r: Vec<Entity>)
    requires
        v@ == text@,
        text_fits_utf16(v@),
    ensures
        entity_views(r@) == extracted(v@, sel),
{
    let toks = parse_tweet(v);
    let n: usize = v.len();
    proof {
        assert(v@.len() == n);
        lemma_tokens_ordered(v@, 0);
    }
    let mut out: Vec<Entity> = Vec::new();
    let mut k: usize = 0;
    while k < toks.len()
        invariant
            v@ == text@,
            text_fits_utf16(v@),
            toks@ == tokens(v@),
            tokens_ordered(v@, 0, toks@),
            k <= toks.len(),
            entity_views(out@) == entities_of(v@, toks@.take(k as int), sel),
        decreases toks.len() - k,
    {
        let t = toks[k];
        proof {
            assert(toks@.take(k + 1).drop_last() =~= toks@.take(k as int));
            assert(toks@.take(k + 1).last() == t);
            assert(toks@[k as int] == t);
        }
        match entity_value_at(text, v, &t, sel) {
            Some((ty, a, e, value, slug)) => {
                let start = scan(v, 0, a);
                let end = scan(v, 0, e);
                let ent = Entity::new_list(ty, value, slug, start, end);
                proof {
                    assert(v@.take(a as int) =~= v@.subrange(0, a as int));
                    assert(v@.take(e as int) =~= v@.subrange(0, e as int));
                    lemma_entity_views_push(out@, ent);
                }
                out.push(ent);
            },
            None => {},
        }
        k = k + 1;
    }
    assert(toks@.take(toks@.len() as int) =~= toks@);
    out
}

/// The user name that a reply starts with: after any white space, the
/// first thing in the text is a mention.
pub open spec fn reply_token(s: Seq<char>) -> Option<NomEntity> {
    let i = run_end(s, 0, CharClass::Space);
    if i < s.len() {
        match token_at(s, i) {
            Some(t) => if t.entity_type == NomEntityType::Username {
                Some(t)
            } else {
                None
            },
            None => None,
        }
    } else {
        None
    }
}

/// The user name that a reply starts with, in the characters `v`.
pub(crate) fn reply_token_exec(v: &Vec<char>) -> (r: Option<NomEntity>)
    ensures
        r == reply_token(v@),
{
    let i = run_while(v, 0, CharClass::Space);
    proof {
        lemma_run_end(v@, 0, CharClass::Space);
    }
    if i < v.len() {
        proof {
            crate::scanner::lemma_token_at(v@, i as int);
        }
        match token_at_exec(v, i) {
            Some(t) => {
                if t.entity_type == NomEntityType::Username {
                    Some(t)
                } else {
                    None
                }
            },
            None => None,
        }
    } else {
        None
    }
}

/// An extractor that reports entities with no validation data.
pub struct Extractor {
    extract_url_without_protocol: bool,
    parser_backend: ParserBackend,
}

impl Default for Extractor {
    fn default() -> (r: Extractor)
        ensures
            r.url_without_protocol(),
            r.backend() == ParserBackend::Nom,
    {
        Extractor::new()
    }
}

impl Extractor {
    /// Whether URLs without a protocol, such as `example.com`, are extracted.
    pub closed spec fn url_without_protocol(&self) -> bool {
        self.extract_url_without_protocol
    }

    /// The backend that was asked for.
    pub closed spec fn backend(&self) -> ParserBackend {
        self.parser_backend
    }

    /// A new extractor with the default backend; it extracts URLs without a
    /// protocol.
    pub fn new() -> (r: Extractor)
        ensures
            r.url_without_protocol(),
            r.backend() == ParserBackend::Nom,
    {
        Extractor { extract_url_without_protocol: true, parser_backend: ParserBackend::Nom }
    }

    /// A new extractor with the given backend.
    pub fn with_parser_backend(parser_backend: ParserBackend) -> (r: Extractor)
        ensures
            r.url_without_protocol(),
            r.backend() == parser_backend,
    {
        Extractor { extract_url_without_protocol: true, parser_backend }
    }

    pub fn get_extract_url_without_protocol(&self) -> (r: bool)
        ensures
            r == self.url_without_protocol(),
    {
        self.extract_url_without_protocol
    }

    pub fn set_extract_url_without_protocol(&mut self, extract_url_without_protocol: bool)
        ensures
            final(self).url_without_protocol() == extract_url_without_protocol,
            final(self).backend() == old(self).backend(),
    {
        self.extract_url_without_protocol = extract_url_without_protocol;
    }

    pub fn get_parser_backend(&self) -> (r: ParserBackend)
        ensures
            r == self.backend(),
    {
        self.parser_backend
    }

    fn url_selector_exec(&self) -> (r: Selector)
        ensures
            r == url_selector(self.url_without_protocol()),
    {
        Selector {
            urls: true,
            urls_without_protocol: self.extract_url_without_protocol,
            hashtags: false,
            cashtags: false,
            mentions: false,
            lists: false,
            federated: false,
        }
    }

    /// The URLs of the text, as strings: those with a protocol, and those
    /// without one when the extractor takes them.
    pub fn extract_urls(&self, s: &str) -> (r: Vec<String>)
        requires
            text_fits(s@),
        ensures
            string_views(r@) == extracted_values(s@, url_selector(self.url_without_protocol())),
    {
        let v = chars_of(s);
        select_values(s, &v, self.url_selector_exec())
    }

    /// The hashtags of the text, without their hash signs.
    pub fn extract_hashtags(&self, s: &str) -> (r: Vec<String>)
        requires
            text_fits(s@),
        ensures
            string_views(r@) == extracted_values(s@, hashtag_selector()),
    {
        let v = chars_of(s);
        select_values(s, &v, Selector { hashtags: true, ..nothing_exec() })
    }

    /// The cashtags of the text, without their dollar signs.
    pub fn extract_cashtags(&self, s: &str) -> (r: Vec<String>)
        requires
            text_fits(s@),
        ensures
            string_views(r@) == extracted_values(s@, cashtag_selector()),
    {
        let v = chars_of(s);
        select_values(s, &v, Selector { cashtags: true, ..nothing_exec() })
    }

    /// The user names that the text mentions (not lists, not federated
    /// mentions), without their at signs.
    pub fn extract_mentioned_screennames(&self, s: &str) -> (r: Vec<String>)
        requires
            text_fits(s@),
        ensures
            string_views(r@) == extracted_values(s@, mention_selector()),
    {
        let v = chars_of(s);
        select_values(s, &v, Selector { mentions: true, ..nothing_exec() })
    }

    /// The mentions of the text: user names without their at signs, and
    /// federated mentions (`@user@domain`) whole.
    pub fn extract_federated_mentions(&self, s: &str) -> (r: Vec<String>)
        requires
            text_fits(s@),
        ensures
            string_views(r@) == extracted_values(s@, federated_selector()),
    {
        let v = chars_of(s);
        select_values(s, &v, Selector { mentions: true, federated: true, ..nothing_exec() })
    }

    /// The URLs of the text, with their UTF-16 indices.
    pub fn extract_urls_with_indices(&self, s: &str) -> (r: Vec<Entity>)
        requires
            text_fits_utf16(s@),
        ensures
            entity_views(r@) == extracted(s@, url_selector(self.url_without_protocol())),
    {
        let v = chars_of(s);
        select_entities(s, &v, self.url_selector_exec())
    }

    /// The hashtags of the text, with their UTF-16 indices.
    pub fn extract_hashtags_with_indices(&self, s: &str) -> (r: Vec<Entity>)
        requires
            text_fits_utf16(s@),
        ensures
            entity_views(r@) == extracted(s@, hashtag_selector()),
    {
        let v = chars_of(s);
        select_entities(s, &v, Selector { hashtags: true, ..nothing_exec() })
    }

    /// The cashtags of the text, with their UTF-16 indices.
    pub fn extract_cashtags_with_indices(&self, s: &str) -> (r: Vec<Entity>)
        requires
            text_fits_utf16(s@),
        ensures
            entity_views(r@) == extracted(s@, cashtag_selector()),
    {
        let v = chars_of(s);
        select_entities(s, &v, Selector { cashtags: true, ..nothing_exec() })
    }

    /// The mentioned user names of the text, with their UTF-16 indices.
    pub fn extract_mentioned_screennames_with_indices(&self, s: &str) -> (r: Vec<Entity>)
        requires
            text_fits_utf16(s@),
        ensures
            entity_views(r@) == extracted(s@, mention_selector()),
    {
        let v = chars_of(s);
        select_entities(s, &v, Selector { mentions: true, ..nothing_exec() })
    }

    /// The mentions and lists of the text, with their UTF-16 indices.
    pub fn extract_mentions_or_lists_with_indices(&self, s: &str) -> (r: Vec<Entity>)
        requires
            text_fits_utf16(s@),
        ensures
            entity_views(r@) == extracted(s@, mention_or_list_selector()),
    {
        let v = chars_of(s);
        select_entities(s, &v, Selector { mentions: true, lists: true, ..nothing_exec() })
    }

    /// The mentions and federated mentions of the text, with their UTF-16
    /// indices.
    pub fn extract_federated_mentions_with_indices(&self, s: &str) -> (r: Vec<Entity>)
        requires
            text_fits_utf16(s@),
        ensures
            entity_views(r@) == extracted(s@, federated_selector()),
    {
        let v = chars_of(s);
        select_entities(s, &v, Selector { mentions: true, federated: true, ..nothing_exec() })
    }

    /// The URLs with a protocol, hashtags, cashtags, mentions and lists of
    /// the text, with their UTF-16 indices; not federated mentions.
    pub fn extract_entities_with_indices(&self, s: &str) -> (r: Vec<Entity>)
        requires
            text_fits_utf16(s@),
        ensures
            entity_views(r@) == extracted(s@, entity_selector(false)),
    {
        let v = chars_of(s);
        select_entities(s, &v, entity_selector_exec(false))
    }

    /// All entities of the text, federated mentions included, with their
    /// UTF-16 indices.
    pub fn extract_entities_with_indices_federated(&self, s: &str) -> (r: Vec<Entity>)
        requires
            text_fits_utf16(s@),
        ensures
            entity_views(r@) == extracted(s@, entity_selector(true)),
    {
        let v = chars_of(s);
        select_entities(s, &v, entity_selector_exec(true))
    }

    /// The user name that the text replies to: the mention that the text
    /// starts with, after any white space.
    pub fn extract_reply_username(&self, s: &str) -> (r: Option<Entity>)
        requires
            text_fits_utf16(s@),
        ensures
            match reply_token(s@) {
                Some(t) => r matches Some(e) && entity_of(s@, t, mention_selector()) == Some(e@),
                None => r is None,
            },
    {
        let v = chars_of(s);
        match reply_token_exec(&v) {
            Some(t) => {
                proof {
                    lemma_run_end(v@, 0, CharClass::Space);
                    crate::scanner::lemma_token_at(v@, run_end(v@, 0, CharClass::Space));
                }
                match entity_value_at(s, &v, &t, Selector { mentions: true, ..nothing_exec() }) {
                    Some((ty, a, e, value, slug)) => {
                        let start = scan(&v, 0, a);
                        let end = scan(&v, 0, e);
                        proof {
                            assert(v@.take(a as int) =~= v@.subrange(0, a as int));
                            assert(v@.take(e as int) =~= v@.subrange(0, e as int));
                        }
                        Some(Entity::new_list(ty, value, slug, start, end))
                    },
                    None => None,
                }
            },
            None => None,
        }
    }
}

pub(crate) fn nothing_exec() -> (r: Selector)
    ensures
        r == nothing(),
{
    Selector {
        urls: false,
        urls_without_protocol: false,
        hashtags: false,
        cashtags: false,
        mentions: false,
        lists: false,
        federated: false,
    }
}

pub(crate) fn entity_selector_exec(federated: bool) -> (r: Selector)
    ensures
        r == entity_selector(federated),
{
    Selector {
        urls: true,
        urls_without_protocol: false,
        hashtags: true,
        cashtags: true,
        mentions: true,
        lists: true,
        federated,
    }
}

} // verus!
