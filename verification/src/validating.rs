//! Extraction that also weighs the text: the entities of a text together
//! with its weighted length, its validity and the ranges of its valid part.
use vstd::prelude::*;
use crate::config::{Configuration, Range};
use crate::entity::{entity_views, string_views, Entity, EntityModel};
use crate::extractor::{
    cashtag_selector, entities_of, entity_of, entity_selector, entity_selector_exec,
    entity_value_at, extracted, federated_selector, hashtag_selector, kept_end,
    lemma_entity_views_push, lemma_string_views_push, mention_or_list_selector, mention_selector,
    nothing, nothing_exec, reply_token, reply_token_exec, text_fits_utf16, url_selector,
    ParserBackend, Selector,
};
use crate::laws::lemma_reply_first_entity;
use crate::scanner::{
    lemma_tokens_ordered, list_name_ok, parse_tweet, tokens, tokens_ordered, NomEntity,
    NomEntityType,
};
use crate::text::{
    contains_char, lemma_utf16_len_bounds, lemma_utf16_len_concat, lemma_utf16_len_prefix_mono,
    substring, utf16_len,
};
use crate::weighting::{
    emoji_run, lemma_emoji_run, lemma_i32_product, lemma_text_run, offsets_within, start_metrics,
    step_bound, text_run, url_run, Metrics, TextMetrics, TrackAction,
};
use crate::TwitterTextParseResults;

verus! {

broadcast use vstd::string::group_string_axioms;

/// Whether the emoji table knows `s` as an emoji, fully, minimally or not
/// qualified.
pub uninterp spec fn known_emoji(s: Seq<char>) -> bool;

/// Calls `emojis::get` and tells whether it found the text in its table.
/// Claimed: the answer is `known_emoji` of the text, which depends on the
/// text alone; which texts the table holds is not stated.
#[verifier::external_body]
fn emoji_lookup(s: &str) -> (r: bool)
    ensures
        r == known_emoji(s@),
{
    emojis::get(s).is_some()
}

/// Whether `s` is an emoji that the emoji table knows.
pub fn is_valid_emoji(s: &str) -> (r: bool)
    ensures
        r == known_emoji(s@),
{
    emoji_lookup(s)
}

/// The Unicode Normalization Form C of a text.
pub uninterp spec fn nfc(s: Seq<char>) -> Seq<char>;

/// Calls `unicode_normalization::is_nfc`. Claimed: it is true exactly when
/// the text is its own NFC normalization, as its documentation ("check if a
/// string is in NFC") says.
#[verifier::external_body]
fn is_nfc(s: &str) -> (r: bool)
    ensures
        r == (nfc(s@) == s@),
{
    unicode_normalization::is_nfc(s)
}

/// Collects `UnicodeNormalization::nfc` of the text into a `String`.
/// Claimed: the result is `nfc` of the text, which depends on the text
/// alone; it is in Normalization Form C, as the documentation ("an iterator
/// over the string in Unicode Normalization Form C") says, so normalizing
/// it again leaves it as it is (UAX #15); and it is empty exactly when the
/// text is, normalization mapping each character to at least one. What
/// else the normalization does is not stated.
#[verifier::external_body]
pub(crate) fn nfc_of(s: &str) -> (r: String)
    ensures
        r@ == nfc(s@),
        nfc(r@) == r@,
        r@.len() == 0 <==> s@.len() == 0,
{
    unicode_normalization::UnicodeNormalization::nfc(s).collect()
}

// ---------------------------------------------------------------------------
// Weighing a text, entity by entity.

/// Weighing the grammar's entity `t` of `s`, from the state `st` (the
/// metrics so far and the position reached). Text up to the entity weighs as
/// text. An invalid character makes the text invalid and is weighed later as
/// text. An emoji the table knows weighs the default weight once when emoji
/// parsing is enabled, and as text otherwise; one it does not know is left
/// to be weighed as text. A taken URL, with or without a protocol, weighs as
/// a URL, and every other taken entity as text; an entity not taken is left
/// to be weighed as text.
pub open spec fn token_step(
    cfg: &Configuration,
    nl: int,
    s: Seq<char>,
    sel: Selector,
    st: (Metrics, int),
    t: NomEntity,
) -> (Metrics, int) {
    let m = st.0;
    let pos = st.1;
    let a = t.start as int;
    let b = t.end as int;
    match t.entity_type {
        NomEntityType::InvalidChar => (
            Metrics { is_valid: false, ..text_run(cfg, nl, m, s, pos, a) },
            a,
        ),
        NomEntityType::Emoji => if known_emoji(s.subrange(a, b)) {
            let m1 = text_run(cfg, nl, m, s, pos, a);
            if cfg.emoji_parsing_enabled {
                (
                    emoji_run(
                        cfg,
                        Metrics { weighted: m1.weighted + cfg.default_weight, ..m1 },
                        s,
                        a,
                        b,
                    ),
                    b,
                )
            } else {
                (text_run(cfg, nl, m1, s, a, b), b)
            }
        } else {
            (m, pos)
        },
        _ => match kept_end(s, t, sel) {
            Some(e) => {
                let m1 = text_run(cfg, nl, m, s, pos, a);
                if t.entity_type == NomEntityType::Url || t.entity_type
                    == NomEntityType::UrlWithoutProtocol {
                    (url_run(cfg, m1, s, a, e), e)
                } else {
                    (text_run(cfg, nl, m1, s, a, e), e)
                }
            },
            None => (m, pos),
        },
    }
}

/// Weighing the entities `toks` of `s` in order, from nothing weighed.
pub open spec fn weigh_tokens(
    cfg: &Configuration,
    nl: int,
    s: Seq<char>,
    sel: Selector,
    toks: Seq<NomEntity>,
) -> (Metrics, int)
    decreases toks.len(),
{
    if toks.len() == 0 {
        (start_metrics(), 0)
    } else {
        token_step(cfg, nl, s, sel, weigh_tokens(cfg, nl, s, sel, toks.drop_last()), toks.last())
    }
}

/// Weighing all of `s`: its entities, then the text after the last one.
pub open spec fn tally(cfg: &Configuration, nl: int, s: Seq<char>, sel: Selector) -> Metrics {
    let st = weigh_tokens(cfg, nl, s, sel, tokens(s));
    text_run(cfg, nl, st.0, s, st.1, s.len() as int)
}

/// Integer division that rounds toward zero, as Rust's does.
pub open spec fn div_toward_zero(a: int, b: int) -> int {
    if a >= 0 {
        if b > 0 {
            a / b
        } else {
            -(a / (-b))
        }
    } else {
        if b > 0 {
            -((-a) / b)
        } else {
            (-a) / (-b)
        }
    }
}

/// The weighted length: the total weight divided by the scale.
pub open spec fn weighted_length_of(cfg: &Configuration, m: Metrics) -> int {
    div_toward_zero(m.weighted, cfg.scale as int)
}

/// The weighted length in thousandths of the maximum.
pub open spec fn permillage_of(cfg: &Configuration, m: Metrics) -> int {
    div_toward_zero(weighted_length_of(cfg, m) * 1000, cfg.max_weighted_tweet_length as int)
}

pub open spec fn in_i32(x: int) -> bool {
    i32::MIN <= x <= i32::MAX
}

/// How much longer the original text is than the normalized one, in UTF-16
/// code units.
pub open spec fn length_shift(ld: LengthData) -> int {
    ld.original_length - ld.normalized_length
}

/// The results can be computed: neither divisor is zero and every result
/// fits an `i32`.
pub open spec fn results_fit(cfg: &Configuration, ld: LengthData, m: Metrics) -> bool {
    &&& cfg.scale != 0
    &&& cfg.max_weighted_tweet_length != 0
    &&& in_i32(weighted_length_of(cfg, m))
    &&& in_i32(permillage_of(cfg, m))
    &&& in_i32(m.offset + length_shift(ld) - 1)
    &&& in_i32(m.valid_offset + length_shift(ld) - 1)
}

/// The results of weighing: the weighted length and its permillage; valid
/// while no invalid character was met and the weighted length is within the
/// maximum; the display range reaches the end of the original text, and the
/// valid range the point where the text stopped being valid.
pub open spec fn results_of(cfg: &Configuration, ld: LengthData, m: Metrics) -> TwitterTextParseResults {
    TwitterTextParseResults {
        weighted_length: weighted_length_of(cfg, m) as i32,
        permillage: permillage_of(cfg, m) as i32,
        is_valid: m.is_valid && weighted_length_of(cfg, m) <= cfg.max_weighted_tweet_length,
        display_text_range: Range { start: 0, end: (m.offset + length_shift(ld) - 1) as i32 },
        valid_text_range: Range { start: 0, end: (m.valid_offset + length_shift(ld) - 1) as i32 },
    }
}

fn div_toward_zero_exec(a: i128, b: i128) -> (r: i128)
    requires
        b != 0,
        a > i128::MIN,
        b > i128::MIN,
    ensures
        r == div_toward_zero(a as int, b as int),
{
    if a >= 0 {
        if b > 0 {
            a / b
        } else {
            -(a / (-b))
        }
    } else {
        if b > 0 {
            -((-a) / b)
        } else {
            (-a) / (-b)
        }
    }
}

// ---------------------------------------------------------------------------
// Lengths.

/// The UTF-16 length and the number of characters of the normalized and of
/// the original text.
#[derive(PartialEq, Eq, Structural, Clone, Copy, Debug)]
pub struct LengthData {
    pub normalized_length: i32,
    pub normalized_length_utf8: i32,
    pub original_length: i32,
    pub original_length_utf8: i32,
}

impl LengthData {
    /// All lengths zero.
    pub fn empty() -> (r: LengthData)
        ensures
            r == (LengthData {
                normalized_length: 0,
                normalized_length_utf8: 0,
                original_length: 0,
                original_length_utf8: 0,
            }),
    {
        LengthData {
            normalized_length: 0,
            normalized_length_utf8: 0,
            original_length: 0,
            original_length_utf8: 0,
        }
    }
}

/// A length as an `i32`.
pub fn as_i32(us: usize) -> (r: i32)
    requires
        us <= i32::MAX,
    ensures
        r == us,
{
    us as i32
}

/// The lengths of a text that counts as its own normalization.
pub open spec fn lengths_of(s: Seq<char>) -> LengthData {
    LengthData {
        normalized_length: utf16_len(s) as i32,
        normalized_length_utf8: s.len() as i32,
        original_length: utf16_len(s) as i32,
        original_length_utf8: s.len() as i32,
    }
}

/// The lengths of a text `s` prepared by `prep_input`, whose normalized
/// form is `nfc(s)`.
pub open spec fn prepared_lengths(s: Seq<char>) -> LengthData {
    LengthData {
        normalized_length: utf16_len(nfc(s)) as i32,
        normalized_length_utf8: nfc(s).len() as i32,
        original_length: utf16_len(s) as i32,
        original_length_utf8: s.len() as i32,
    }
}

/// The UTF-16 length of `text` and its number of characters.
pub fn calculate_length(text: &str) -> (r: (i32, i32))
    requires
        utf16_len(text@) <= i32::MAX,
    ensures
        r.0 == utf16_len(text@),
        r.1 == text@.len(),
{
    proof {
        lemma_utf16_len_bounds(text@);
    }
    let mut length: i32 = 0;
    let mut length_utf8: i32 = 0;
    for c in it: text.chars()
        invariant
            it.seq() == text@,
            utf16_len(text@) <= i32::MAX,
            text@.len() <= utf16_len(text@),
            length == utf16_len(text@.take(it.index() as int)),
            length_utf8 == it.index(),
    {
        proof {
            assert(text@.take(it.index() + 1) =~= text@.take(it.index() as int).push(c));
            crate::text::lemma_utf16_len_push(text@.take(it.index() as int), c);
            lemma_utf16_len_prefix_mono(text@, it.index() + 1, text@.len() as int);
            assert(text@.take(text@.len() as int) =~= text@);
        }
        length = length + as_i32(crate::chars::len_utf16(c));
        length_utf8 = length_utf8 + 1;
    }
    assert(text@.take(text@.len() as int) =~= text@);
    (length, length_utf8)
}

/// `s[..j]` is `s[..i]` followed by `s[i..j]`, in UTF-16 length, and no
/// longer than `s`.
proof fn lemma_prefix_split(s: Seq<char>, i: int, j: int)
    requires
        0 <= i <= j <= s.len(),
    ensures
        utf16_len(s.take(j)) == utf16_len(s.take(i)) + utf16_len(s.subrange(i, j)),
        utf16_len(s.take(j)) <= utf16_len(s),
{
    assert(s.take(j) =~= s.take(i) + s.subrange(i, j));
    lemma_utf16_len_concat(s.take(i), s.subrange(i, j));
    lemma_utf16_len_prefix_mono(s, j, s.len() as int);
    assert(s.take(s.len() as int) =~= s);
}

// ---------------------------------------------------------------------------
// Results.

/// Entities and validation data.
pub struct ExtractResult {
    pub parse_results: TwitterTextParseResults,
    pub entities: Vec<Entity>,
}

impl ExtractResult {
    pub fn new(results: TwitterTextParseResults, e: Vec<Entity>) -> (r: ExtractResult)
        ensures
            r.parse_results == results,
            r.entities@ == e@,
    {
        ExtractResult { parse_results: results, entities: e }
    }
}

/// A mention and validation data.
pub struct MentionResult {
    pub parse_results: TwitterTextParseResults,
    pub mention: Option<Entity>,
}

impl MentionResult {
    pub fn new(results: TwitterTextParseResults, e: Option<Entity>) -> (r: MentionResult)
        ensures
            r.parse_results == results,
            r.mention == e,
    {
        MentionResult { parse_results: results, mention: e }
    }
}

/// The result holds no entities and the results of empty text.
pub open spec fn is_empty_result(r: ExtractResult) -> bool {
    r.entities@.len() == 0 && r.parse_results == crate::empty_results()
}

/// The text holds an at sign, half or full width.
pub open spec fn has_at_sign(s: Seq<char>) -> bool {
    s.contains('@') || s.contains('\u{FF20}')
}

/// The text holds a hash sign, half or full width.
pub open spec fn has_hash_sign(s: Seq<char>) -> bool {
    s.contains('#') || s.contains('\u{FF03}')
}

/// The values of entities, in order.
pub open spec fn model_values(ms: Seq<EntityModel>) -> Seq<Seq<char>> {
    ms.map_values(|m: EntityModel| m.value)
}

// ---------------------------------------------------------------------------
// The extractor.

/// An extractor that weighs the text it extracts from, against a
/// configuration, and tells whether the text is a valid tweet.
pub struct ValidatingExtractor<'a> {
    extract_url_without_protocol: bool,
    parser_backend: ParserBackend,
    config: &'a Configuration,
    ld: LengthData,
}

impl<'a> ValidatingExtractor<'a> {
    /// Whether URLs without a protocol are extracted.
    pub closed spec fn url_without_protocol(&self) -> bool {
        self.extract_url_without_protocol
    }

    /// The backend that was asked for.
    pub closed spec fn backend(&self) -> ParserBackend {
        self.parser_backend
    }

    /// The configuration weighed by.
    pub closed spec fn configuration(&self) -> &'a Configuration {
        self.config
    }

    /// The lengths of the text that the extractor was prepared for.
    pub closed spec fn lengths(&self) -> LengthData {
        self.ld
    }

    /// What weighing `s` finds, for the entities that `sel` takes.
    pub open spec fn tally_of(&self, s: Seq<char>, sel: Selector) -> Metrics {
        tally(self.configuration(), self.lengths().normalized_length as int, s, sel)
    }

    /// The results of extracting from `s` can be computed.
    pub open spec fn fits(&self, s: Seq<char>, sel: Selector) -> bool {
        s.len() > 0 ==> results_fit(self.configuration(), self.lengths(), self.tally_of(s, sel))
    }

    /// The validation data of extracting from `s`: those of empty text when
    /// `s` is empty, else the results of weighing it.
    pub open spec fn results(&self, s: Seq<char>, sel: Selector) -> TwitterTextParseResults {
        if s.len() == 0 {
            crate::empty_results()
        } else {
            results_of(self.configuration(), self.lengths(), self.tally_of(s, sel))
        }
    }

    /// `r` holds the entities of `s` that `sel` takes and the validation
    /// data of `s`.
    pub open spec fn extracts(&self, s: Seq<char>, sel: Selector, r: ExtractResult) -> bool {
        &&& entity_views(r.entities@) == extracted(s, sel)
        &&& r.parse_results == self.results(s, sel)
    }

    /// A new extractor over `configuration`, with the default backend; it
    /// extracts URLs without a protocol. Its lengths are all zero until
    /// `prep_input` sets them.
    pub fn new(configuration: &'a Configuration) -> (r: ValidatingExtractor<'a>)
        ensures
            r.url_without_protocol(),
            r.backend() == ParserBackend::Nom,
            r.configuration() == configuration,
            r.lengths() == (LengthData {
                normalized_length: 0,
                normalized_length_utf8: 0,
                original_length: 0,
                original_length_utf8: 0,
            }),
    {
        ValidatingExtractor {
            extract_url_without_protocol: true,
            parser_backend: ParserBackend::Nom,
            config: configuration,
            ld: LengthData::empty(),
        }
    }

    /// A new extractor over `configuration` with the given backend.
    pub fn with_parser_backend(configuration: &'a Configuration, parser_backend: ParserBackend) -> (r:
        ValidatingExtractor<'a>)
        ensures
            r.url_without_protocol(),
            r.backend() == parser_backend,
            r.configuration() == configuration,
            r.lengths() == (LengthData {
                normalized_length: 0,
                normalized_length_utf8: 0,
                original_length: 0,
                original_length_utf8: 0,
            }),
    {
        ValidatingExtractor {
            extract_url_without_protocol: true,
            parser_backend,
            config: configuration,
            ld: LengthData::empty(),
        }
    }

    /// A new extractor for `s`, a text that is already normalized.
    pub fn new_with_nfc_input(configuration: &'a Configuration, s: &str) -> (r: ValidatingExtractor<
        'a,
    >)
        requires
            utf16_len(s@) <= i32::MAX,
        ensures
            r.url_without_protocol(),
            r.backend() == ParserBackend::Nom,
            r.configuration() == configuration,
            r.lengths() == lengths_of(s@),
    {
        let (length, length_utf8) = calculate_length(s);
        ValidatingExtractor {
            extract_url_without_protocol: true,
            parser_backend: ParserBackend::Nom,
            config: configuration,
            ld: LengthData {
                normalized_length: length,
                normalized_length_utf8: length_utf8,
                original_length: length,
                original_length_utf8: length_utf8,
            },
        }
    }

    /// A new extractor for `s`, a text that is already normalized, with the
    /// given backend.
    pub fn new_with_nfc_input_and_parser_backend(
        configuration: &'a Configuration,
        s: &str,
        parser_backend: ParserBackend,
    ) -> (r: ValidatingExtractor<'a>)
        requires
            utf16_len(s@) <= i32::MAX,
        ensures
            r.url_without_protocol(),
            r.backend() == parser_backend,
            r.configuration() == configuration,
            r.lengths() == lengths_of(s@),
    {
        let (length, length_utf8) = calculate_length(s);
        ValidatingExtractor {
            extract_url_without_protocol: true,
            parser_backend,
            config: configuration,
            ld: LengthData {
                normalized_length: length,
                normalized_length_utf8: length_utf8,
                original_length: length,
                original_length_utf8: length_utf8,
            },
        }
    }

    /// Normalizes `s` to NFC and records the lengths of `s` and of its
    /// normalized form; the normalized text is what to extract from.
    pub fn prep_input(&mut self, s: &str) -> (r: String)
        requires
            utf16_len(s@) <= i32::MAX,
            utf16_len(nfc(s@)) <= i32::MAX,
        ensures
            r@ == nfc(s@),
            nfc(r@) == r@,
            r@.len() == 0 <==> s@.len() == 0,
            final(self).lengths() == prepared_lengths(s@),
            final(self).url_without_protocol() == old(self).url_without_protocol(),
            final(self).backend() == old(self).backend(),
            final(self).configuration() == old(self).configuration(),
    {
        let nfc: String = if is_nfc(s) {
            String::from_str(s)
        } else {
            nfc_of(s)
        };
        let (nfc_length, nfc_length_utf8) = calculate_length(nfc.as_str());
        let (original_length, original_length_utf8) = calculate_length(s);
        self.ld = LengthData {
            normalized_length: nfc_length,
            normalized_length_utf8: nfc_length_utf8,
            original_length,
            original_length_utf8,
        };
        nfc
    }

    /// `prep_input`, where the normalized text is short enough; `None`,
    /// leaving the extractor as it was, where it is not.
    pub fn try_prep_input(&mut self, s: &str) -> (r: Option<String>)
        requires
            utf16_len(s@) <= i32::MAX,
        ensures
            match r {
                Some(x) => utf16_len(nfc(s@)) <= i32::MAX && x@ == nfc(s@) && nfc(x@) == x@ && (
                x@.len() == 0 <==> s@.len() == 0) && final(self).lengths() == prepared_lengths(s@),
                None => utf16_len(nfc(s@)) > i32::MAX && final(self).lengths() == old(
                    self,
                ).lengths(),
            },
            final(self).url_without_protocol() == old(self).url_without_protocol(),
            final(self).backend() == old(self).backend(),
            final(self).configuration() == old(self).configuration(),
    {
        let normalized = nfc_of(s);
        let v = crate::text::chars_of(normalized.as_str());
        if crate::text::utf16_fits_i32(&v) {
            Some(self.prep_input(s))
        } else {
            None
        }
    }

    pub fn get_extract_url_without_protocol(&self) -> (r: bool)
        ensures
            r == self.url_without_protocol(),
    {
        self.extract_url_without_protocol
    }

    pub fn set_extract_url_without_protocol(&mut self, extract_url_without_protocol: bool)
        ensures
            final(self).url_without_protocol() == extract_url_without_protocol,
            final(self).backend() == old(self).backend(),
            final(self).configuration() == old(self).configuration(),
            final(self).lengths() == old(self).lengths(),
    {
        self.extract_url_without_protocol = extract_url_without_protocol;
    }

    pub fn get_parser_backend(&self) -> (r: ParserBackend)
        ensures
            r == self.backend(),
    {
        self.parser_backend
    }

    /// Weighs the grammar's entity `t` of `v` (the characters of `s`), and
    /// takes its entity when `sel` does, from the position `pos` reached so
    /// far, whose UTF-16 offset is `start_index`. `k` counts the entities
    /// weighed before: each one and each character weighed moves the weight
    /// by at most `step_bound`.
    fn weigh_token(
        &self,
        s: &str,
        v: &Vec<char>,
        sel: Selector,
        t: NomEntity,
        metrics: &mut TextMetrics<'a>,
        entities: &mut Vec<Entity>,
        pos: &mut usize,
        start_index: &mut i32,
        Ghost(k): Ghost<int>,
    )
        requires
            v@ == s@,
            text_fits_utf16(v@),
            v@.len() <= i32::MAX,
            *old(pos) <= t.start < t.end <= v@.len(),
            t.start <= t.host_start <= t.host_end <= t.end,
            list_name_ok(v@, t),
            0 <= k < usize::MAX,
            old(metrics).wf(),
            old(metrics).cfg() == self.configuration(),
            old(metrics).nl() == self.lengths().normalized_length,
            offsets_within(old(metrics).metrics(), utf16_len(v@.take(*old(pos) as int)) as int),
            -(*old(pos) + k) * step_bound() <= old(metrics).metrics().weighted <= (*old(pos) + k)
                * step_bound(),
            *old(start_index) == utf16_len(v@.take(*old(pos) as int)),
        ensures
            final(metrics).wf(),
            final(metrics).cfg() == self.configuration(),
            final(metrics).nl() == self.lengths().normalized_length,
            (final(metrics).metrics(), *final(pos) as int) == token_step(
                self.configuration(),
                self.lengths().normalized_length as int,
                v@,
                sel,
                (old(metrics).metrics(), *old(pos) as int),
                t,
            ),
            *final(pos) <= t.end,
            offsets_within(final(metrics).metrics(), utf16_len(v@.take(*final(pos) as int)) as int),
            -(*final(pos) + k + 1) * step_bound() <= final(metrics).metrics().weighted <= (
            *final(pos) + k + 1) * step_bound(),
            *final(start_index) == utf16_len(v@.take(*final(pos) as int)),
            entity_views(final(entities)@) == match entity_of(v@, t, sel) {
                Some(m) => entity_views(old(entities)@).push(m),
                None => entity_views(old(entities)@),
            },
    {
        let ghost cfg = self.config;
        let ghost nl = self.ld.normalized_length as int;
        let ghost m0 = metrics.metrics();
        let ghost p0 = *pos as int;
        proof {
            lemma_prefix_split(v@, p0, t.start as int);
            lemma_prefix_split(v@, t.start as int, t.end as int);
            lemma_prefix_split(v@, p0, t.end as int);
        }
        match t.entity_type {
            NomEntityType::InvalidChar => {
                let n = metrics.scan(v, *pos, t.start, TrackAction::Text);
                proof {
                    lemma_text_run(cfg, nl, m0, v@, p0, t.start as int);
                }
                metrics.invalidate();
                *start_index = *start_index + n;
                *pos = t.start;
            },
            NomEntityType::Emoji => {
                let value = substring(s, t.start, t.end);
                if is_valid_emoji(value.as_str()) {
                    let n = metrics.scan(v, *pos, t.start, TrackAction::Text);
                    let ghost m1 = metrics.metrics();
                    proof {
                        lemma_text_run(cfg, nl, m0, v@, p0, t.start as int);
                    }
                    *start_index = *start_index + n;
                    if self.config.emoji_parsing_enabled {
                        metrics.add_weight(self.config.default_weight);
                        let ghost m2 = metrics.metrics();
                        let n2 = metrics.scan(v, t.start, t.end, TrackAction::Emoji);
                        proof {
                            lemma_emoji_run(cfg, m2, v@, t.start as int, t.end as int);
                        }
                        *start_index = *start_index + n2;
                    } else {
                        let n2 = metrics.scan(v, t.start, t.end, TrackAction::Text);
                        proof {
                            lemma_text_run(cfg, nl, m1, v@, t.start as int, t.end as int);
                        }
                        *start_index = *start_index + n2;
                    }
                    *pos = t.end;
                }
            },
            _ => {
                match entity_value_at(s, v, &t, sel) {
                    Some((ty, a, e, value, slug)) => {
                        proof {
                            lemma_prefix_split(v@, a as int, e as int);
                            lemma_prefix_split(v@, p0, e as int);
                        }
                        let n = metrics.scan(v, *pos, a, TrackAction::Text);
                        let ghost m1 = metrics.metrics();
                        proof {
                            lemma_text_run(cfg, nl, m0, v@, p0, a as int);
                        }
                        let start = *start_index + n;
                        let is_url = t.entity_type == NomEntityType::Url || t.entity_type
                            == NomEntityType::UrlWithoutProtocol;
                        let n2 = if is_url {
                            let n2 = metrics.scan(v, a, e, TrackAction::Url);
                            proof {
                                lemma_i32_product(cfg.transformed_url_length, cfg.scale);
                            }
                            n2
                        } else {
                            let n2 = metrics.scan(v, a, e, TrackAction::Text);
                            proof {
                                lemma_text_run(cfg, nl, m1, v@, a as int, e as int);
                            }
                            n2
                        };
                        let end = start + n2;
                        let ent = Entity::new_list(ty, value, slug, start, end);
                        proof {
                            lemma_entity_views_push(entities@, ent);
                        }
                        entities.push(ent);
                        *start_index = end;
                        *pos = e;
                    },
                    None => {},
                }
            },
        }
    }

    /// Weighs `v` (the characters of `s`) and extracts the entities that
    /// `sel` takes, in one pass over the grammar's entities.
    fn weigh_and_extract(&self, s: &str, v: &Vec<char>, sel: Selector) -> (r: (
        Vec<Entity>,
        TextMetrics<'a>,
    ))
        requires
            v@ == s@,
            text_fits_utf16(v@),
        ensures
            entity_views(r.0@) == extracted(v@, sel),
            r.1.wf(),
            r.1.cfg() == self.configuration(),
            r.1.metrics() == self.tally_of(v@, sel),
            offsets_within(r.1.metrics(), utf16_len(v@) as int),
            -i128::MAX < r.1.metrics().weighted,
    {
        let ghost cfg = self.config;
        let ghost nl = self.ld.normalized_length as int;
        let toks = parse_tweet(v);
        proof {
            lemma_tokens_ordered(v@, 0);
            lemma_utf16_len_bounds(v@);
            assert(toks@.take(0) =~= Seq::<NomEntity>::empty());
            assert(v@.take(0) =~= Seq::<char>::empty());
        }
        let mut metrics = TextMetrics::new(self.config, self.ld.normalized_length);
        let mut entities: Vec<Entity> = Vec::new();
        let mut pos: usize = 0;
        let mut start_index: i32 = 0;
        let mut k: usize = 0;
        while k < toks.len()
            invariant
                v@ == s@,
                text_fits_utf16(v@),
                v@.len() <= i32::MAX,
                toks@ == tokens(v@),
                tokens_ordered(v@, 0, toks@),
                k <= toks.len(),
                pos <= v.len(),
                k < toks.len() ==> pos <= toks@[k as int].start,
                metrics.wf(),
                metrics.cfg() == cfg,
                metrics.nl() == nl,
                cfg == self.configuration(),
                nl == self.lengths().normalized_length,
                (metrics.metrics(), pos as int) == weigh_tokens(
                    cfg,
                    nl,
                    v@,
                    sel,
                    toks@.take(k as int),
                ),
                offsets_within(metrics.metrics(), utf16_len(v@.take(pos as int)) as int),
                -(pos + k) * step_bound() <= metrics.metrics().weighted <= (pos + k) * step_bound(),
                start_index == utf16_len(v@.take(pos as int)),
                entity_views(entities@) == entities_of(v@, toks@.take(k as int), sel),
            decreases toks.len() - k,
        {
            let t = toks[k];
            proof {
                assert(toks@.take(k + 1).drop_last() =~= toks@.take(k as int));
                assert(toks@.take(k + 1).last() == t);
                assert(toks@[k as int] == t);
                if k + 1 < toks.len() {
                    assert(toks@[k as int].end <= toks@[k + 1].start);
                }
            }
            self.weigh_token(
                s,
                v,
                sel,
                t,
                &mut metrics,
                &mut entities,
                &mut pos,
                &mut start_index,
                Ghost(k as int),
            );
            k = k + 1;
        }
        proof {
            assert(toks@.take(toks@.len() as int) =~= toks@);
            lemma_prefix_split(v@, pos as int, v@.len() as int);
            assert(v@.take(v@.len() as int) =~= v@);
        }
        let ghost mf = metrics.metrics();
        metrics.scan(v, pos, v.len(), TrackAction::Text);
        proof {
            lemma_text_run(cfg, nl, mf, v@, pos as int, v@.len() as int);
        }
        (entities, metrics)
    }

    /// The validation data of the weighing `metrics`, if they can be
    /// computed.
    fn finish(&self, metrics: &TextMetrics<'a>) -> (r: Option<TwitterTextParseResults>)
        requires
            metrics.cfg() == self.configuration(),
            offsets_within(metrics.metrics(), i32::MAX as int),
            -i128::MAX < metrics.metrics().weighted,
        ensures
            match r {
                Some(x) => results_fit(self.configuration(), self.lengths(), metrics.metrics())
                    && x == results_of(self.configuration(), self.lengths(), metrics.metrics()),
                None => !results_fit(self.configuration(), self.lengths(), metrics.metrics()),
            },
    {
        let scale = self.config.scale;
        let max = self.config.max_weighted_tweet_length;
        if scale == 0 || max == 0 {
            return None;
        }
        let scaled = div_toward_zero_exec(metrics.weighted_count(), scale as i128);
        if scaled < i32::MIN as i128 || scaled > i32::MAX as i128 {
            return None;
        }
        let permillage = div_toward_zero_exec(scaled * 1000, max as i128);
        if permillage < i32::MIN as i128 || permillage > i32::MAX as i128 {
            return None;
        }
        let shift = self.ld.original_length as i64 - self.ld.normalized_length as i64;
        let display_end = metrics.offset() as i64 + shift - 1;
        let valid_end = metrics.valid_offset() as i64 + shift - 1;
        if display_end < i32::MIN as i64 || display_end > i32::MAX as i64 {
            return None;
        }
        if valid_end < i32::MIN as i64 || valid_end > i32::MAX as i64 {
            return None;
        }
        let is_valid = metrics.is_valid() && scaled <= max as i128;
        Some(
            TwitterTextParseResults::new(
                scaled as i32,
                permillage as i32,
                is_valid,
                Range::new(0, display_end as i32),
                Range::new(0, valid_end as i32),
            ),
        )
    }

    /// Weighs `s` and extracts the entities that `sel` takes, or `None`
    /// where the results cannot be computed.
    fn weighed(&self, s: &str, sel: Selector) -> (r: Option<ExtractResult>)
        requires
            text_fits_utf16(s@),
        ensures
            match r {
                Some(x) => self.fits(s@, sel) && self.extracts(s@, sel, x),
                None => !self.fits(s@, sel),
            },
    {
        if s.is_empty() {
            proof {
                assert(s@.len() == 0);
                assert(tokens(s@) =~= Seq::<NomEntity>::empty());
            }
            let r = ExtractResult::new(TwitterTextParseResults::empty(), Vec::new());
            assert(entity_views(r.entities@) =~= Seq::<EntityModel>::empty());
            return Some(r);
        }
        let v = crate::text::chars_of(s);
        let (entities, metrics) = self.weigh_and_extract(s, &v, sel);
        proof {
            lemma_utf16_len_bounds(v@);
        }
        match self.finish(&metrics) {
            Some(results) => Some(ExtractResult::new(results, entities)),
            None => None,
        }
    }

    /// Whether the results of extracting from `s` can be computed.
    pub fn can_extract(&self, s: &str, sel: Selector) -> (r: bool)
        requires
            text_fits_utf16(s@),
        ensures
            r == self.fits(s@, sel),
    {
        self.weighed(s, sel).is_some()
    }

    /// Weighs `s` and extracts the entities that `sel` takes, with their
    /// UTF-16 indices. Empty text gives no entities and the results of
    /// empty text.
    pub fn extract(&self, s: &str, sel: Selector) -> (r: ExtractResult)
        requires
            text_fits_utf16(s@),
            self.fits(s@, sel),
        ensures
            self.extracts(s@, sel, r),
    {
        match self.weighed(s, sel) {
            Some(r) => r,
            None => {
                proof {
                    assert(false);
                }
                ExtractResult::new(TwitterTextParseResults::empty(), Vec::new())
            },
        }
    }

    /// `extract`, where the results can be computed; `None` where they
    /// cannot.
    pub fn try_extract(&self, s: &str, sel: Selector) -> (r: Option<ExtractResult>)
        requires
            text_fits_utf16(s@),
        ensures
            match r {
                Some(x) => self.fits(s@, sel) && self.extracts(s@, sel, x),
                None => !self.fits(s@, sel),
            },
    {
        if self.can_extract(s, sel) {
            Some(self.extract(s, sel))
        } else {
            None
        }
    }

    /// The result of extracting from text that holds no sign that the kind
    /// of entity asked for starts with: no entities and the results of
    /// empty text.
    fn empty_result(&self) -> (r: ExtractResult)
        ensures
            is_empty_result(r),
    {
        ExtractResult::new(TwitterTextParseResults::empty(), Vec::new())
    }

    /// The URLs of the text, with a protocol and, when the extractor takes
    /// them, without one; and the validation data.
    pub fn extract_urls_with_indices(&self, s: &str) -> (r: ExtractResult)
        requires
            text_fits_utf16(s@),
            self.fits(s@, url_selector(self.url_without_protocol())),
        ensures
            self.extracts(s@, url_selector(self.url_without_protocol()), r),
    {
        let sel = Selector {
            urls: true,
            urls_without_protocol: self.extract_url_without_protocol,
            ..nothing_exec()
        };
        self.extract(s, sel)
    }

    /// The hashtags of the text and the validation data; text without a hash
    /// sign gives the result of empty text.
    pub fn extract_hashtags_with_indices(&self, s: &str) -> (r: ExtractResult)
        requires
            text_fits_utf16(s@),
            has_hash_sign(s@) ==> self.fits(s@, hashtag_selector()),
        ensures
            if has_hash_sign(s@) {
                self.extracts(s@, hashtag_selector(), r)
            } else {
                is_empty_result(r)
            },
    {
        if !contains_char(s, '#') && !contains_char(s, '\u{FF03}') {
            return self.empty_result();
        }
        self.extract(s, Selector { hashtags: true, ..nothing_exec() })
    }

    /// The cashtags of the text and the validation data; text without a
    /// dollar sign gives the result of empty text.
    pub fn extract_cashtags_with_indices(&self, s: &str) -> (r: ExtractResult)
        requires
            text_fits_utf16(s@),
            s@.contains('$') ==> self.fits(s@, cashtag_selector()),
        ensures
            if s@.contains('$') {
                self.extracts(s@, cashtag_selector(), r)
            } else {
                is_empty_result(r)
            },
    {
        if !contains_char(s, '$') {
            return self.empty_result();
        }
        self.extract(s, Selector { cashtags: true, ..nothing_exec() })
    }

    /// The mentioned user names of the text and the validation data; text
    /// without an at sign gives the result of empty text.
    pub fn extract_mentioned_screennames_with_indices(&self, s: &str) -> (r: ExtractResult)
        requires
            text_fits_utf16(s@),
            has_at_sign(s@) ==> self.fits(s@, mention_selector()),
        ensures
            if has_at_sign(s@) {
                self.extracts(s@, mention_selector(), r)
            } else {
                is_empty_result(r)
            },
    {
        if !contains_char(s, '@') && !contains_char(s, '\u{FF20}') {
            return self.empty_result();
        }
        self.extract(s, Selector { mentions: true, ..nothing_exec() })
    }

    /// The mentions and lists of the text and the validation data; text
    /// without an at sign gives the result of empty text.
    pub fn extract_mentions_or_lists_with_indices(&self, s: &str) -> (r: ExtractResult)
        requires
            text_fits_utf16(s@),
            has_at_sign(s@) ==> self.fits(s@, mention_or_list_selector()),
        ensures
            if has_at_sign(s@) {
                self.extracts(s@, mention_or_list_selector(), r)
            } else {
                is_empty_result(r)
            },
    {
        if !contains_char(s, '@') && !contains_char(s, '\u{FF20}') {
            return self.empty_result();
        }
        self.extract(s, Selector { mentions: true, lists: true, ..nothing_exec() })
    }

    /// The mentions and federated mentions of the text and the validation
    /// data; text without an at sign gives the result of empty text.
    pub fn extract_federated_mentions_with_indices(&self, s: &str) -> (r: ExtractResult)
        requires
            text_fits_utf16(s@),
            has_at_sign(s@) ==> self.fits(s@, federated_selector()),
        ensures
            if has_at_sign(s@) {
                self.extracts(s@, federated_selector(), r)
            } else {
                is_empty_result(r)
            },
    {
        if !contains_char(s, '@') && !contains_char(s, '\u{FF20}') {
            return self.empty_result();
        }
        self.extract(s, Selector { mentions: true, federated: true, ..nothing_exec() })
    }

    /// The URLs with a protocol, hashtags, cashtags, mentions and lists of
    /// the text, and the validation data.
    pub fn extract_entities_with_indices(&self, s: &str) -> (r: ExtractResult)
        requires
            text_fits_utf16(s@),
            self.fits(s@, entity_selector(false)),
        ensures
            self.extracts(s@, entity_selector(false), r),
    {
        self.extract(s, entity_selector_exec(false))
    }

    /// All the entities of the text, federated mentions included, and the
    /// validation data.
    pub fn extract_entities_with_indices_federated(&self, s: &str) -> (r: ExtractResult)
        requires
            text_fits_utf16(s@),
            self.fits(s@, entity_selector(true)),
        ensures
            self.extracts(s@, entity_selector(true), r),
    {
        self.extract(s, entity_selector_exec(true))
    }

    /// The validation data of the text, extracting nothing.
    pub fn extract_scan(&self, s: &str) -> (r: ExtractResult)
        requires
            text_fits_utf16(s@),
            self.fits(s@, nothing()),
        ensures
            self.extracts(s@, nothing(), r),
    {
        self.extract(s, nothing_exec())
    }

    /// `extract_urls_with_indices`, where its results can be computed; `None` where they
    /// cannot.
    pub fn try_extract_urls_with_indices(&self, s: &str) -> (r: Option<ExtractResult>)
        requires
            text_fits_utf16(s@),
        ensures
            match r {
                Some(x) => self.fits(s@, url_selector(self.url_without_protocol())) && self.extracts(s@, url_selector(self.url_without_protocol()), x),
                None => !self.fits(s@, url_selector(self.url_without_protocol())),
            },
    {
        if self.can_extract(s, Selector { urls: true, urls_without_protocol: self.extract_url_without_protocol, ..nothing_exec() }) {
            Some(self.extract_urls_with_indices(s))
        } else {
            None
        }
    }

    /// `extract_hashtags_with_indices`, where its results can be computed; `None` where they
    /// cannot.
    pub fn try_extract_hashtags_with_indices(&self, s: &str) -> (r: Option<ExtractResult>)
        requires
            text_fits_utf16(s@),
        ensures
            match r {
                Some(x) => (has_hash_sign(s@) ==> self.fits(s@, hashtag_selector())) && if has_hash_sign(s@) {
                    self.extracts(s@, hashtag_selector(), x)
                } else {
                    is_empty_result(x)
                },
                None => has_hash_sign(s@) && !self.fits(s@, hashtag_selector()),
            },
    {
        if !(contains_char(s, '#') || contains_char(s, '\u{FF03}')) || self.can_extract(s, Selector { hashtags: true, ..nothing_exec() }) {
            Some(self.extract_hashtags_with_indices(s))
        } else {
            None
        }
    }

    /// `extract_cashtags_with_indices`, where its results can be computed; `None` where they
    /// cannot.
    pub fn try_extract_cashtags_with_indices(&self, s: &str) -> (r: Option<ExtractResult>)
        requires
            text_fits_utf16(s@),
        ensures
            match r {
                Some(x) => (s@.contains('$') ==> self.fits(s@, cashtag_selector())) && if s@.contains('$') {
                    self.extracts(s@, cashtag_selector(), x)
                } else {
                    is_empty_result(x)
                },
                None => s@.contains('$') && !self.fits(s@, cashtag_selector()),
            },
    {
        if !(contains_char(s, '$')) || self.can_extract(s, Selector { cashtags: true, ..nothing_exec() }) {
            Some(self.extract_cashtags_with_indices(s))
        } else {
            None
        }
    }

    /// `extract_mentioned_screennames_with_indices`, where its results can be computed; `None` where they
    /// cannot.
    pub fn try_extract_mentioned_screennames_with_indices(&self, s: &str) -> (r: Option<ExtractResult>)
        requires
            text_fits_utf16(s@),
        ensures
            match r {
                Some(x) => (has_at_sign(s@) ==> self.fits(s@, mention_selector())) && if has_at_sign(s@) {
                    self.extracts(s@, mention_selector(), x)
                } else {
                    is_empty_result(x)
                },
                None => has_at_sign(s@) && !self.fits(s@, mention_selector()),
            },
    {
        if !(contains_char(s, '@') || contains_char(s, '\u{FF20}')) || self.can_extract(s, Selector { mentions: true, ..nothing_exec() }) {
            Some(self.extract_mentioned_screennames_with_indices(s))
        } else {
            None
        }
    }

    /// `extract_mentions_or_lists_with_indices`, where its results can be computed; `None` where they
    /// cannot.
    pub fn try_extract_mentions_or_lists_with_indices(&self, s: &str) -> (r: Option<ExtractResult>)
        requires
            text_fits_utf16(s@),
        ensures
            match r {
                Some(x) => (has_at_sign(s@) ==> self.fits(s@, mention_or_list_selector())) && if has_at_sign(s@) {
                    self.extracts(s@, mention_or_list_selector(), x)
                } else {
                    is_empty_result(x)
                },
                None => has_at_sign(s@) && !self.fits(s@, mention_or_list_selector()),
            },
    {
        if !(contains_char(s, '@') || contains_char(s, '\u{FF20}')) || self.can_extract(s, Selector { mentions: true, lists: true, ..nothing_exec() }) {
            Some(self.extract_mentions_or_lists_with_indices(s))
        } else {
            None
        }
    }

    /// `extract_federated_mentions_with_indices`, where its results can be computed; `None` where they
    /// cannot.
    pub fn try_extract_federated_mentions_with_indices(&self, s: &str) -> (r: Option<ExtractResult>)
        requires
            text_fits_utf16(s@),
        ensures
            match r {
                Some(x) => (has_at_sign(s@) ==> self.fits(s@, federated_selector())) && if has_at_sign(s@) {
                    self.extracts(s@, federated_selector(), x)
                } else {
                    is_empty_result(x)
                },
                None => has_at_sign(s@) && !self.fits(s@, federated_selector()),
            },
    {
        if !(contains_char(s, '@') || contains_char(s, '\u{FF20}')) || self.can_extract(s, Selector { mentions: true, federated: true, ..nothing_exec() }) {
            Some(self.extract_federated_mentions_with_indices(s))
        } else {
            None
        }
    }

    /// `extract_entities_with_indices`, where its results can be computed; `None` where they
    /// cannot.
    pub fn try_extract_entities_with_indices(&self, s: &str) -> (r: Option<ExtractResult>)
        requires
            text_fits_utf16(s@),
        ensures
            match r {
                Some(x) => self.fits(s@, entity_selector(false)) && self.extracts(s@, entity_selector(false), x),
                None => !self.fits(s@, entity_selector(false)),
            },
    {
        if self.can_extract(s, entity_selector_exec(false)) {
            Some(self.extract_entities_with_indices(s))
        } else {
            None
        }
    }

    /// `extract_entities_with_indices_federated`, where its results can be computed; `None` where they
    /// cannot.
    pub fn try_extract_entities_with_indices_federated(&self, s: &str) -> (r: Option<ExtractResult>)
        requires
            text_fits_utf16(s@),
        ensures
            match r {
                Some(x) => self.fits(s@, entity_selector(true)) && self.extracts(s@, entity_selector(true), x),
                None => !self.fits(s@, entity_selector(true)),
            },
    {
        if self.can_extract(s, entity_selector_exec(true)) {
            Some(self.extract_entities_with_indices_federated(s))
        } else {
            None
        }
    }

    /// `extract_scan`, where its results can be computed; `None` where they
    /// cannot.
    pub fn try_extract_scan(&self, s: &str) -> (r: Option<ExtractResult>)
        requires
            text_fits_utf16(s@),
        ensures
            match r {
                Some(x) => self.fits(s@, nothing()) && self.extracts(s@, nothing(), x),
                None => !self.fits(s@, nothing()),
            },
    {
        if self.can_extract(s, nothing_exec()) {
            Some(self.extract_scan(s))
        } else {
            None
        }
    }

    /// `extract_reply_username`, where its results can be computed; `None`
    /// where they cannot.
    pub fn try_extract_reply_username(&self, s: &str) -> (r: Option<MentionResult>)
        requires
            text_fits_utf16(s@),
        ensures
            match r {
                Some(x) => (reply_token(s@) is Some ==> self.fits(s@, entity_selector(false)))
                    && match reply_token(s@) {
                    Some(t) => {
                        &&& x.parse_results == self.results(s@, entity_selector(false))
                        &&& x.mention matches Some(e) && entity_of(s@, t, mention_selector())
                            == Some(e@)
                    },
                    None => x.parse_results == crate::empty_results() && x.mention is None,
                },
                None => reply_token(s@) is Some && !self.fits(s@, entity_selector(false)),
            },
    {
        let v = crate::text::chars_of(s);
        if reply_token_exec(&v).is_none() || self.can_extract(s, entity_selector_exec(false)) {
            Some(self.extract_reply_username(s))
        } else {
            None
        }
    }

    /// `extract_federated_mentions`, where its results can be computed;
    /// `None` where they cannot.
    pub fn try_extract_federated_mentions(&self, s: &str) -> (r: Option<Vec<String>>)
        requires
            text_fits_utf16(s@),
        ensures
            match r {
                Some(x) => (has_at_sign(s@) ==> self.fits(s@, federated_selector())) && (has_at_sign(
                    s@,
                ) ==> string_views(x@) == model_values(extracted(s@, federated_selector())))
                    && (!has_at_sign(s@) ==> x@.len() == 0),
                None => has_at_sign(s@) && !self.fits(s@, federated_selector()),
            },
    {
        if !(contains_char(s, '@') || contains_char(s, '\u{FF20}')) || self.can_extract(
            s,
            Selector { mentions: true, federated: true, ..nothing_exec() },
        ) {
            Some(self.extract_federated_mentions(s))
        } else {
            None
        }
    }

    /// The user name that the text replies to (the mention that it starts
    /// with, after any white space), with the validation data of extracting
    /// all entities but federated mentions; no mention and the results of
    /// empty text when the text is no reply.
    pub fn extract_reply_username(&self, s: &str) -> (r: MentionResult)
        requires
            text_fits_utf16(s@),
            reply_token(s@) is Some ==> self.fits(s@, entity_selector(false)),
        ensures
            match reply_token(s@) {
                Some(t) => {
                    &&& r.parse_results == self.results(s@, entity_selector(false))
                    &&& r.mention matches Some(e) && entity_of(s@, t, mention_selector()) == Some(
                        e@,
                    )
                },
                None => r.parse_results == crate::empty_results() && r.mention is None,
            },
    {
        let v = crate::text::chars_of(s);
        match reply_token_exec(&v) {
            Some(_t) => {
                proof {
                    lemma_reply_first_entity(s@);
                }
                let results = self.extract_entities_with_indices(s);
                let mut ents = results.entities;
                proof {
                    assert(entity_views(ents@)[0] == ents@[0]@);
                }
                let first = ents.remove(0);
                MentionResult::new(results.parse_results, Some(first))
            },
            None => MentionResult::new(TwitterTextParseResults::empty(), None),
        }
    }

    /// The mentions and federated mentions of the text, as strings: user
    /// names without their at signs, federated mentions whole.
    pub fn extract_federated_mentions(&self, s: &str) -> (r: Vec<String>)
        requires
            text_fits_utf16(s@),
            has_at_sign(s@) ==> self.fits(s@, federated_selector()),
        ensures
            has_at_sign(s@) ==> string_views(r@) == model_values(extracted(s@, federated_selector())),
            !has_at_sign(s@) ==> r@.len() == 0,
    {
        let res = self.extract_federated_mentions_with_indices(s);
        let ents = &res.entities;
        let mut out: Vec<String> = Vec::new();
        let mut i: usize = 0;
        while i < ents.len()
            invariant
                i <= ents.len(),
                string_views(out@) == model_values(entity_views(ents@.take(i as int))),
            decreases ents.len() - i,
        {
            let value = ents[i].value.clone();
            proof {
                assert(ents@.take(i + 1) =~= ents@.take(i as int).push(ents@[i as int]));
                assert(entity_views(ents@.take(i + 1)) =~= entity_views(ents@.take(i as int)).push(
                    ents@[i as int]@,
                ));
                assert(model_values(entity_views(ents@.take(i + 1))) =~= model_values(
                    entity_views(ents@.take(i as int)),
                ).push(value@));
                lemma_string_views_push(out@, value);
            }
            out.push(value);
            i = i + 1;
        }
        assert(ents@.take(ents@.len() as int) =~= ents@);
        out
    }
}

} // verus!
