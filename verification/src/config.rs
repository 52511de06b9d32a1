//! How text is weighed: the weight of each code point, the scale the weights
//! are divided by, the weighted length a tweet may have, and the weight of a
//! URL.
use vstd::prelude::*;

verus! {

/// A range from `start` to `end`, both included.
#[derive(PartialEq, Eq, Structural, Clone, Copy, Debug, Hash)]
pub struct Range {
    pub start: i32,
    pub end: i32,
}

impl Range {
    pub fn new(start: i32, end: i32) -> (r: Range)
        ensures
            r.start == start,
            r.end == end,
    {
        Range { start, end }
    }

    /// The range that stands for no range at all: `-1..=-1`.
    pub fn empty() -> (r: Range)
        ensures
            r.start == -1,
            r.end == -1,
    {
        Range { start: -1, end: -1 }
    }

    pub fn start(&self) -> (r: i32)
        ensures
            r == self.start,
    {
        self.start
    }

    pub fn end(&self) -> (r: i32)
        ensures
            r == self.end,
    {
        self.end
    }

    /// Whether `i` lies in the range.
    pub fn contains(&self, i: i32) -> (r: bool)
        ensures
            r == (self.start <= i <= self.end),
    {
        self.start <= i && i <= self.end
    }
}

/// The weight of the code points in a range.
#[derive(PartialEq, Eq, Structural, Clone, Copy, Debug, Hash)]
pub struct WeightedRange {
    pub range: Range,
    pub weight: i32,
}

impl WeightedRange {
    pub fn new(start: i32, end: i32, weight: i32) -> (r: WeightedRange)
        ensures
            r.range.start == start,
            r.range.end == end,
            r.weight == weight,
    {
        WeightedRange { range: Range { start, end }, weight }
    }

    /// Whether the code point `i` lies in the range.
    pub fn contains(&self, i: i32) -> (r: bool)
        ensures
            r == (self.range.start <= i <= self.range.end),
    {
        self.range.contains(i)
    }
}

/// The parameters of weighing: a code point weighs as the first range that
/// holds it says, or `default_weight`; a URL weighs
/// `transformed_url_length * scale`; the weighted length is the total weight
/// divided by `scale`, and a tweet is valid up to `max_weighted_tweet_length`.
/// With `emoji_parsing_enabled`, an emoji weighs `default_weight` whatever
/// code points it is made of.
pub struct Configuration {
    pub version: i32,
    pub max_weighted_tweet_length: i32,
    pub scale: i32,
    pub default_weight: i32,
    pub transformed_url_length: i32,
    pub emoji_parsing_enabled: bool,
    pub ranges: Vec<WeightedRange>,
}

/// The weight of code point `cp`: that of the first range that holds it, or
/// `default` when none does.
pub open spec fn weight_in(ranges: Seq<WeightedRange>, default: i32, cp: int) -> int
    decreases ranges.len(),
{
    if ranges.len() == 0 {
        default as int
    } else if ranges[0].range.start <= cp <= ranges[0].range.end {
        ranges[0].weight as int
    } else {
        weight_in(ranges.drop_first(), default, cp)
    }
}

/// The weight of the character `c` under `cfg`.
pub open spec fn weight_of(cfg: &Configuration, c: char) -> int {
    weight_in(cfg.ranges@, cfg.default_weight, c as int)
}

/// A weight always lies within `i32`.
pub proof fn lemma_weight_in_bounds(ranges: Seq<WeightedRange>, default: i32, cp: int)
    ensures
        i32::MIN <= weight_in(ranges, default, cp) <= i32::MAX,
    decreases ranges.len(),
{
    if ranges.len() > 0 {
        lemma_weight_in_bounds(ranges.drop_first(), default, cp);
    }
}

/// With no ranges at all, every code point weighs the default weight.
pub proof fn lemma_no_ranges(ranges: Seq<WeightedRange>, default: i32, cp: int)
    requires
        ranges.len() == 0,
    ensures
        weight_in(ranges, default, cp) == default,
{
}

/// The ranges of the second and third configurations: ASCII up to the end of
/// the Latin, Greek, Cyrillic and other alphabetic blocks below U+1100, and
/// a few blocks of punctuation, each weighing one unit.
fn common_ranges() -> (r: Vec<WeightedRange>)
    ensures
        r@ == common_ranges_spec(),
{
    let mut r: Vec<WeightedRange> = Vec::new();
    r.push(WeightedRange::new(0, 4351, 100));
    r.push(WeightedRange::new(8192, 8205, 100));
    r.push(WeightedRange::new(8208, 8223, 100));
    r.push(WeightedRange::new(8242, 8247, 100));
    r
}

/// The first configuration: every code point weighs one, up to 140.
pub fn config_v1() -> (c: Configuration)
    ensures
        c.version == 1,
        c.max_weighted_tweet_length == 140,
        c.scale == 1,
        c.default_weight == 1,
        c.transformed_url_length == 23,
        !c.emoji_parsing_enabled,
        c.ranges@.len() == 0,
{
    Configuration {
        version: 1,
        max_weighted_tweet_length: 140,
        scale: 1,
        default_weight: 1,
        transformed_url_length: 23,
        emoji_parsing_enabled: false,
        ranges: Vec::new(),
    }
}

/// The second configuration: up to 280, where most code points weigh two
/// and those of the common ranges weigh one.
pub fn config_v2() -> (c: Configuration)
    ensures
        c.version == 2,
        c.max_weighted_tweet_length == 280,
        c.scale == 100,
        c.default_weight == 200,
        c.transformed_url_length == 23,
        !c.emoji_parsing_enabled,
        c.ranges@ == common_ranges_spec(),
{
    Configuration {
        version: 2,
        max_weighted_tweet_length: 280,
        scale: 100,
        default_weight: 200,
        transformed_url_length: 23,
        emoji_parsing_enabled: false,
        ranges: common_ranges(),
    }
}

/// The ranges that `config_v2` and `config_v3` weigh as one unit.
pub open spec fn common_ranges_spec() -> Seq<WeightedRange> {
    seq![
        WeightedRange { range: Range { start: 0, end: 4351 }, weight: 100 },
        WeightedRange { range: Range { start: 8192, end: 8205 }, weight: 100 },
        WeightedRange { range: Range { start: 8208, end: 8223 }, weight: 100 },
        WeightedRange { range: Range { start: 8242, end: 8247 }, weight: 100 },
    ]
}

/// The third configuration: the second one, where an emoji weighs two
/// whatever code points it is made of.
pub fn config_v3() -> (c: Configuration)
    ensures
        c.version == 3,
        c.max_weighted_tweet_length == 280,
        c.scale == 100,
        c.default_weight == 200,
        c.transformed_url_length == 23,
        c.emoji_parsing_enabled,
        c.ranges@ == common_ranges_spec(),
{
    Configuration {
        version: 3,
        max_weighted_tweet_length: 280,
        scale: 100,
        default_weight: 200,
        transformed_url_length: 23,
        emoji_parsing_enabled: true,
        ranges: common_ranges(),
    }
}

/// The ranges of `config_v4`: those of `config_v3` and the Runic block,
/// U+16A0 to U+16FF, an alphabetic script whose letters weigh one unit.
pub open spec fn runic_ranges_spec() -> Seq<WeightedRange> {
    seq![
        WeightedRange { range: Range { start: 0, end: 4351 }, weight: 100 },
        WeightedRange { range: Range { start: 5792, end: 5887 }, weight: 100 },
        WeightedRange { range: Range { start: 8192, end: 8205 }, weight: 100 },
        WeightedRange { range: Range { start: 8208, end: 8223 }, weight: 100 },
        WeightedRange { range: Range { start: 8242, end: 8247 }, weight: 100 },
    ]
}

/// The fourth configuration: the third one, where the Runic block weighs
/// one unit too.
pub fn config_v4() -> (c: Configuration)
    ensures
        c.version == 4,
        c.max_weighted_tweet_length == 280,
        c.scale == 100,
        c.default_weight == 200,
        c.transformed_url_length == 23,
        c.emoji_parsing_enabled,
        c.ranges@ == runic_ranges_spec(),
{
    let mut ranges: Vec<WeightedRange> = Vec::new();
    ranges.push(WeightedRange::new(0, 4351, 100));
    ranges.push(WeightedRange::new(5792, 5887, 100));
    ranges.push(WeightedRange::new(8192, 8205, 100));
    ranges.push(WeightedRange::new(8208, 8223, 100));
    ranges.push(WeightedRange::new(8242, 8247, 100));
    Configuration {
        version: 4,
        max_weighted_tweet_length: 280,
        scale: 100,
        default_weight: 200,
        transformed_url_length: 23,
        emoji_parsing_enabled: true,
        ranges,
    }
}

/// The default configuration, which is the third one.
pub fn default() -> (c: Configuration)
    ensures
        c.version == 3,
        c.max_weighted_tweet_length == 280,
        c.scale == 100,
        c.default_weight == 200,
        c.transformed_url_length == 23,
        c.emoji_parsing_enabled,
        c.ranges@ == common_ranges_spec(),
{
    config_v3()
}

impl Default for Configuration {
    fn default() -> (c: Configuration)
        ensures
            c.version == 3,
            c.max_weighted_tweet_length == 280,
            c.scale == 100,
            c.default_weight == 200,
            c.transformed_url_length == 23,
            c.emoji_parsing_enabled,
            c.ranges@ == common_ranges_spec(),
    {
        config_v3()
    }
}

} // verus!
