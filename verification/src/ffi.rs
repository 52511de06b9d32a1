//! Plain records of ranges, weighted ranges and parse results, laid out as
//! C code sees them, and the conversions to and from the library's types.
use vstd::prelude::*;
use crate::config::{Configuration, Range, WeightedRange};
use vstd::std_specs::convert::FromSpecImpl;

verus! {

/// A range, as C code sees it.
#[derive(PartialEq, Eq, Structural, Clone, Copy, Debug)]
pub struct TwitterTextRange {
    pub start: i32,
    pub end: i32,
}

impl From<Range> for TwitterTextRange {
    fn from(range: Range) -> (r: Self) {
        TwitterTextRange { start: range.start, end: range.end }
    }
}

impl FromSpecImpl<Range> for TwitterTextRange {
    open spec fn obeys_from_spec() -> bool {
        true
    }

    open spec fn from_spec(v: Range) -> Self {
        TwitterTextRange { start: v.start, end: v.end }
    }
}

impl From<TwitterTextRange> for Range {
    fn from(tr: TwitterTextRange) -> (r: Self) {
        Range::new(tr.start, tr.end)
    }
}

impl FromSpecImpl<TwitterTextRange> for Range {
    open spec fn obeys_from_spec() -> bool {
        true
    }

    open spec fn from_spec(v: TwitterTextRange) -> Self {
        Range { start: v.start, end: v.end }
    }
}

/// The results of parsing, as C code sees them.
#[derive(PartialEq, Eq, Structural, Clone, Copy, Debug)]
pub struct TwitterTextParseResults {
    pub weighted_length: i32,
    pub permillage: i32,
    pub is_valid: bool,
    pub display_text_range: TwitterTextRange,
    pub valid_text_range: TwitterTextRange,
}

impl From<crate::TwitterTextParseResults> for TwitterTextParseResults {
    fn from(results: crate::TwitterTextParseResults) -> (r: Self) {
        TwitterTextParseResults {
            weighted_length: results.weighted_length,
            permillage: results.permillage,
            is_valid: results.is_valid,
            display_text_range: TwitterTextRange::from(results.display_text_range),
            valid_text_range: TwitterTextRange::from(results.valid_text_range),
        }
    }
}

impl FromSpecImpl<crate::TwitterTextParseResults> for TwitterTextParseResults {
    open spec fn obeys_from_spec() -> bool {
        true
    }

    open spec fn from_spec(v: crate::TwitterTextParseResults) -> Self {
        TwitterTextParseResults {
            weighted_length: v.weighted_length,
            permillage: v.permillage,
            is_valid: v.is_valid,
            display_text_range: TwitterTextRange {
                start: v.display_text_range.start,
                end: v.display_text_range.end,
            },
            valid_text_range: TwitterTextRange {
                start: v.valid_text_range.start,
                end: v.valid_text_range.end,
            },
        }
    }
}

/// A weighted range, as C code sees it.
#[derive(PartialEq, Eq, Structural, Clone, Copy, Debug)]
pub struct TwitterTextWeightedRange {
    pub range: TwitterTextRange,
    pub weight: i32,
}

impl From<WeightedRange> for TwitterTextWeightedRange {
    fn from(wr: WeightedRange) -> (r: Self) {
        TwitterTextWeightedRange { range: TwitterTextRange::from(wr.range), weight: wr.weight }
    }
}

impl FromSpecImpl<WeightedRange> for TwitterTextWeightedRange {
    open spec fn obeys_from_spec() -> bool {
        true
    }

    open spec fn from_spec(v: WeightedRange) -> Self {
        TwitterTextWeightedRange {
            range: TwitterTextRange { start: v.range.start, end: v.range.end },
            weight: v.weight,
        }
    }
}

impl From<TwitterTextWeightedRange> for WeightedRange {
    fn from(twr: TwitterTextWeightedRange) -> (r: Self) {
        WeightedRange::new(twr.range.start, twr.range.end, twr.weight)
    }
}

impl FromSpecImpl<TwitterTextWeightedRange> for WeightedRange {
    open spec fn obeys_from_spec() -> bool {
        true
    }

    open spec fn from_spec(v: TwitterTextWeightedRange) -> Self {
        WeightedRange { range: Range { start: v.range.start, end: v.range.end }, weight: v.weight }
    }
}

/// The weighted ranges of a configuration, as C code sees them: the ranges
/// and how many there are.
pub struct TwitterTextWeightedRangeArray {
    pub ranges: Vec<TwitterTextWeightedRange>,
    pub length: usize,
}

/// A weighted range of the library seen as C code sees it.
pub open spec fn c_range(wr: WeightedRange) -> TwitterTextWeightedRange {
    TwitterTextWeightedRange {
        range: TwitterTextRange { start: wr.range.start, end: wr.range.end },
        weight: wr.weight,
    }
}

/// A weighted range seen by C code, as the library sees it.
pub open spec fn rust_range(twr: TwitterTextWeightedRange) -> WeightedRange {
    WeightedRange { range: Range { start: twr.range.start, end: twr.range.end }, weight: twr.weight }
}

/// The weighted ranges of `config`, in order, as C code sees them.
pub fn ranges_of(config: &Configuration) -> (r: TwitterTextWeightedRangeArray)
    ensures
        r.length == r.ranges@.len(),
        r.ranges@ == config.ranges@.map_values(|wr: WeightedRange| c_range(wr)),
{
    let ranges = &config.ranges;
    let mut out: Vec<TwitterTextWeightedRange> = Vec::new();
    let mut i: usize = 0;
    while i < ranges.len()
        invariant
            i <= ranges.len(),
            ranges@ == config.ranges@,
            out@ == ranges@.take(i as int).map_values(|wr: WeightedRange| c_range(wr)),
        decreases ranges.len() - i,
    {
        let c = TwitterTextWeightedRange::from(ranges[i]);
        proof {
            assert(ranges@.take(i + 1) =~= ranges@.take(i as int).push(ranges@[i as int]));
            assert(ranges@.take(i + 1).map_values(|wr: WeightedRange| c_range(wr)) =~= ranges@.take(
                i as int,
            ).map_values(|wr: WeightedRange| c_range(wr)).push(c_range(ranges@[i as int])));
        }
        out.push(c);
        i = i + 1;
    }
    assert(ranges@.take(ranges@.len() as int) =~= ranges@);
    let length = out.len();
    TwitterTextWeightedRangeArray { ranges: out, length }
}

/// Replaces the weighted ranges of `config` with `ranges`, seen as C code
/// sees them; an empty list leaves the configuration as it was.
pub fn set_ranges(config: &mut Configuration, ranges: &[TwitterTextWeightedRange])
    ensures
        ranges@.len() == 0 ==> final(config).ranges@ == old(config).ranges@,
        ranges@.len() > 0 ==> final(config).ranges@ == ranges@.map_values(
            |twr: TwitterTextWeightedRange| rust_range(twr),
        ),
        final(config).version == old(config).version,
        final(config).max_weighted_tweet_length == old(config).max_weighted_tweet_length,
        final(config).scale == old(config).scale,
        final(config).default_weight == old(config).default_weight,
        final(config).transformed_url_length == old(config).transformed_url_length,
        final(config).emoji_parsing_enabled == old(config).emoji_parsing_enabled,
{
    if ranges.len() == 0 {
        return;
    }
    let mut out: Vec<WeightedRange> = Vec::new();
    let mut i: usize = 0;
    while i < ranges.len()
        invariant
            i <= ranges@.len(),
            out@ == ranges@.take(i as int).map_values(|twr: TwitterTextWeightedRange| rust_range(twr)),
        decreases ranges.len() - i,
    {
        let w = WeightedRange::from(ranges[i]);
        proof {
            assert(ranges@.take(i + 1) =~= ranges@.take(i as int).push(ranges@[i as int]));
            assert(ranges@.take(i + 1).map_values(|twr: TwitterTextWeightedRange| rust_range(twr))
                =~= ranges@.take(i as int).map_values(
                |twr: TwitterTextWeightedRange| rust_range(twr),
            ).push(rust_range(ranges@[i as int])));
        }
        out.push(w);
        i = i + 1;
    }
    assert(ranges@.take(ranges@.len() as int) =~= ranges@);
    config.ranges = out;
}

} // verus!
