//! Extraction of URLs, hashtags, cashtags and mentions from tweets, and the
//! weighing of tweets against a configured length limit.
use vstd::prelude::*;
use crate::config::{Configuration, Range};
use crate::extractor::{nothing, nothing_exec, url_selector, Selector};
use crate::text::{chars_of, utf16_fits_i32, utf16_len, utf8_fits_usize, utf8_len};
use crate::validating::{nfc, nfc_of, prepared_lengths, results_fit, results_of, tally, ValidatingExtractor};

pub mod chars;
pub mod text;
pub mod tlds;
pub mod scanner;
pub mod domain;
pub mod url;
pub mod entity;
pub mod extractor;
pub mod config;
pub mod weighting;
pub mod validating;
pub mod laws;
pub mod entity_laws;
pub mod ffi;
pub mod ruby;

pub use crate::extractor::ParserBackend;

verus! {

/// What parsing a tweet finds: its weighted length, the same relative to
/// the limit in thousandths, whether it is valid, and the UTF-16 ranges of
/// the text and of its valid part.
#[derive(PartialEq, Eq, Structural, Hash, Debug, Clone, Copy)]
pub struct TwitterTextParseResults {
    /// The total weight of the text divided by the configuration's scale.
    pub weighted_length: i32,
    /// The weighted length in thousandths of the maximum weighted length.
    pub permillage: i32,
    /// The text is not empty, holds no invalid character, and its weighted
    /// length is within the maximum.
    pub is_valid: bool,
    /// The UTF-16 range of the text.
    pub display_text_range: Range,
    /// The UTF-16 range of the part of the text that is within the limit.
    pub valid_text_range: Range,
}

impl TwitterTextParseResults {
    pub fn new(
        weighted_length: i32,
        permillage: i32,
        is_valid: bool,
        display_text_range: Range,
        valid_text_range: Range,
    ) -> (r: TwitterTextParseResults)
        ensures
            r == (TwitterTextParseResults {
                weighted_length,
                permillage,
                is_valid,
                display_text_range,
                valid_text_range,
            }),
    {
        TwitterTextParseResults {
            weighted_length,
            permillage,
            is_valid,
            display_text_range,
            valid_text_range,
        }
    }

    /// The results for empty text: nothing weighed, not valid, and empty
    /// ranges.
    pub fn empty() -> (r: TwitterTextParseResults)
        ensures
            r == empty_results(),
    {
        TwitterTextParseResults {
            weighted_length: 0,
            permillage: 0,
            is_valid: false,
            display_text_range: Range::empty(),
            valid_text_range: Range::empty(),
        }
    }
}

/// The results for empty text.
pub open spec fn empty_results() -> TwitterTextParseResults {
    TwitterTextParseResults {
        weighted_length: 0,
        permillage: 0,
        is_valid: false,
        display_text_range: Range { start: -1i32, end: -1i32 },
        valid_text_range: Range { start: -1i32, end: -1i32 },
    }
}

/// What parsing extracts: URLs, with a protocol or without, when
/// `extract_urls` is set; nothing otherwise.
pub open spec fn parse_selector(extract_urls: bool) -> Selector {
    if extract_urls {
        url_selector(true)
    } else {
        nothing()
    }
}

/// What parsing `text` gives: the text is normalized to NFC and weighed,
/// every URL weighing the configured URL length when `extract_urls` is set;
/// empty text gives the results of empty text.
pub open spec fn parse_spec(text: Seq<char>, config: &Configuration, extract_urls: bool) -> TwitterTextParseResults {
    let n = nfc(text);
    if n.len() == 0 {
        empty_results()
    } else {
        results_of(
            config,
            prepared_lengths(text),
            tally(config, utf16_len(n) as int, n, parse_selector(extract_urls)),
        )
    }
}

/// The results of parsing `text` can be computed: the text and its
/// normalized form fit the lengths used, and the results fit an `i32`.
pub open spec fn parse_fits(text: Seq<char>, config: &Configuration, extract_urls: bool) -> bool {
    let n = nfc(text);
    &&& utf16_len(text) <= i32::MAX
    &&& utf16_len(n) <= i32::MAX
    &&& utf8_len(n) <= usize::MAX
    &&& n.len() > 0 ==> results_fit(
        config,
        prepared_lengths(text),
        tally(config, utf16_len(n) as int, n, parse_selector(extract_urls)),
    )
}

/// Parses a tweet with the default backend: its weighted length, validity
/// and ranges. With `extract_urls`, every URL weighs the configured URL
/// length whatever its own length.
pub fn parse(text: &str, config: &Configuration, extract_urls: bool) -> (r: TwitterTextParseResults)
    requires
        parse_fits(text@, config, extract_urls),
    ensures
        r == parse_spec(text@, config, extract_urls),
        r == empty_results() <==> text@.len() == 0,
{
    parse_with_parser_backend(text, config, extract_urls, ParserBackend::Nom)
}

/// Parses a tweet with the given backend.
pub fn parse_with_parser_backend(
    text: &str,
    config: &Configuration,
    extract_urls: bool,
    parser_backend: ParserBackend,
) -> (r: TwitterTextParseResults)
    requires
        parse_fits(text@, config, extract_urls),
    ensures
        r == parse_spec(text@, config, extract_urls),
        r == empty_results() <==> text@.len() == 0,
{
    let mut extractor = ValidatingExtractor::with_parser_backend(config, parser_backend);
    let input = extractor.prep_input(text);
    proof {
        if text@.len() > 0 {
            crate::laws::law_parse_display_range(text@, config, extract_urls);
        }
    }
    if extract_urls {
        extractor.extract_urls_with_indices(input.as_str()).parse_results
    } else {
        extractor.extract_scan(input.as_str()).parse_results
    }
}

/// `parse`, where the results can be computed; `None` where they cannot.
pub fn try_parse(text: &str, config: &Configuration, extract_urls: bool) -> (r: Option<
    TwitterTextParseResults,
>)
    ensures
        match r {
            Some(x) => parse_fits(text@, config, extract_urls) && x == parse_spec(
                text@,
                config,
                extract_urls,
            ),
            None => !parse_fits(text@, config, extract_urls),
        },
        text@.len() == 0 ==> r == Some(empty_results()),
        r matches Some(x) ==> (x == empty_results() <==> text@.len() == 0),
{
    try_parse_with_parser_backend(text, config, extract_urls, ParserBackend::Nom)
}

/// `parse_with_parser_backend`, where the results can be computed; `None`
/// where they cannot.
pub fn try_parse_with_parser_backend(
    text: &str,
    config: &Configuration,
    extract_urls: bool,
    parser_backend: ParserBackend,
) -> (r: Option<TwitterTextParseResults>)
    ensures
        match r {
            Some(x) => parse_fits(text@, config, extract_urls) && x == parse_spec(
                text@,
                config,
                extract_urls,
            ),
            None => !parse_fits(text@, config, extract_urls),
        },
        text@.len() == 0 ==> r == Some(empty_results()),
        r matches Some(x) ==> (x == empty_results() <==> text@.len() == 0),
{
    let v = chars_of(text);
    if !utf16_fits_i32(&v) {
        return None;
    }
    let normalized = nfc_of(text);
    let nv = chars_of(normalized.as_str());
    if !utf16_fits_i32(&nv) || !utf8_fits_usize(&nv) {
        return None;
    }
    let mut extractor = ValidatingExtractor::with_parser_backend(config, parser_backend);
    let input = extractor.prep_input(text);
    let sel = if extract_urls {
        Selector { urls: true, urls_without_protocol: true, ..nothing_exec() }
    } else {
        nothing_exec()
    };
    if extractor.can_extract(input.as_str(), sel) {
        Some(parse_with_parser_backend(text, config, extract_urls, parser_backend))
    } else {
        None
    }
}

} // verus!
