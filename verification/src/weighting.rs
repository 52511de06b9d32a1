//! Weighing text one character at a time: the running weight, the UTF-16
//! offset reached, and the offset up to which the text was still valid.
use vstd::prelude::*;
use crate::chars::{len_utf16, utf16_width};
use crate::config::{lemma_weight_in_bounds, weight_in, weight_of, Configuration};
use crate::text::{lemma_utf16_len_push, utf16_len};

verus! {

/// What weighing has found so far: whether the text is still valid, its
/// total weight (before scaling), the UTF-16 offset reached, and the offset
/// reached while the text was valid and within the limit.
pub struct Metrics {
    pub is_valid: bool,
    pub weighted: int,
    pub offset: int,
    pub valid_offset: int,
}

/// Nothing weighed yet.
pub open spec fn start_metrics() -> Metrics {
    Metrics { is_valid: true, weighted: 0, offset: 0, valid_offset: 0 }
}

/// The limit on the total weight: the maximum weighted length, scaled.
pub open spec fn scaled_max(cfg: &Configuration) -> int {
    cfg.max_weighted_tweet_length * cfg.scale
}

/// The weight of a URL, scaled.
pub open spec fn url_weight(cfg: &Configuration) -> int {
    cfg.transformed_url_length * cfg.scale
}

/// Moving `n` UTF-16 code units on; the valid offset moves too while the
/// text is valid and its weight within the limit.
pub open spec fn advance(cfg: &Configuration, m: Metrics, n: int) -> Metrics {
    Metrics {
        offset: m.offset + n,
        valid_offset: if m.is_valid && m.weighted <= scaled_max(cfg) {
            m.valid_offset + n
        } else {
            m.valid_offset
        },
        ..m
    }
}

/// Weighing a character of text, as long as the offset is short of the
/// normalized length `nl`: its weight is added, then the offset moves on.
pub open spec fn text_step(cfg: &Configuration, nl: int, m: Metrics, c: char) -> Metrics {
    if m.offset < nl {
        advance(cfg, Metrics { weighted: m.weighted + weight_of(cfg, c), ..m }, utf16_width(c) as int)
    } else {
        m
    }
}

/// Weighing `s[a..b]` as text.
pub open spec fn text_run(cfg: &Configuration, nl: int, m: Metrics, s: Seq<char>, a: int, b: int) -> Metrics
    decreases b - a,
{
    if b <= a {
        m
    } else {
        text_step(cfg, nl, text_run(cfg, nl, m, s, a, b - 1), s[b - 1])
    }
}

/// Moving over `s[a..b]`, the rest of an emoji whose weight is counted once.
pub open spec fn emoji_run(cfg: &Configuration, m: Metrics, s: Seq<char>, a: int, b: int) -> Metrics
    decreases b - a,
{
    if b <= a {
        m
    } else {
        advance(cfg, emoji_run(cfg, m, s, a, b - 1), utf16_width(s[b - 1]) as int)
    }
}

/// Weighing the URL `s[a..b]`: it weighs `url_weight` whatever its length.
pub open spec fn url_run(cfg: &Configuration, m: Metrics, s: Seq<char>, a: int, b: int) -> Metrics {
    advance(
        cfg,
        Metrics { weighted: m.weighted + url_weight(cfg), ..m },
        utf16_len(s.subrange(a, b)) as int,
    )
}

/// How far a single addition can move the weight: a weight, or a URL's
/// scaled weight, is at most this in size.
pub open spec fn step_bound() -> int {
    0x4000_0000_0000_0000
}

/// The offsets of `m` are those that weighing up to an offset `reach` can
/// give.
pub open spec fn offsets_within(m: Metrics, reach: int) -> bool {
    0 <= m.valid_offset <= m.offset <= reach
}

proof fn lemma_utf16_len_step(s: Seq<char>, a: int, b: int)
    requires
        0 <= a < b <= s.len(),
    ensures
        utf16_len(s.subrange(a, b)) == utf16_len(s.subrange(a, b - 1)) + utf16_width(s[b - 1]),
{
    assert(s.subrange(a, b) =~= s.subrange(a, b - 1).push(s[b - 1]));
    lemma_utf16_len_push(s.subrange(a, b - 1), s[b - 1]);
}

/// Weighing text keeps the validity flag, moves the weight by at most
/// `step_bound` per character, and moves the offsets by at most the UTF-16
/// length of the text.
pub proof fn lemma_text_run(cfg: &Configuration, nl: int, m: Metrics, s: Seq<char>, a: int, b: int)
    requires
        0 <= a <= b <= s.len(),
        offsets_within(m, m.offset),
    ensures
        text_run(cfg, nl, m, s, a, b).is_valid == m.is_valid,
        m.weighted - (b - a) * step_bound() <= text_run(cfg, nl, m, s, a, b).weighted <= m.weighted
            + (b - a) * step_bound(),
        m.offset <= text_run(cfg, nl, m, s, a, b).offset <= m.offset + utf16_len(s.subrange(a, b)),
        m.valid_offset <= text_run(cfg, nl, m, s, a, b).valid_offset,
        text_run(cfg, nl, m, s, a, b).valid_offset - m.valid_offset <= text_run(
            cfg,
            nl,
            m,
            s,
            a,
            b,
        ).offset - m.offset,
    decreases b - a,
{
    if b > a {
        lemma_text_run(cfg, nl, m, s, a, b - 1);
        lemma_utf16_len_step(s, a, b);
        lemma_weight_in_bounds(cfg.ranges@, cfg.default_weight, s[b - 1] as int);
    }
}

/// Moving over an emoji keeps the validity flag and the weight, and moves
/// the offset by the UTF-16 length of the emoji.
pub proof fn lemma_emoji_run(cfg: &Configuration, m: Metrics, s: Seq<char>, a: int, b: int)
    requires
        0 <= a <= b <= s.len(),
    ensures
        emoji_run(cfg, m, s, a, b).is_valid == m.is_valid,
        emoji_run(cfg, m, s, a, b).weighted == m.weighted,
        emoji_run(cfg, m, s, a, b).offset == m.offset + utf16_len(s.subrange(a, b)),
        m.valid_offset <= emoji_run(cfg, m, s, a, b).valid_offset,
        emoji_run(cfg, m, s, a, b).valid_offset - m.valid_offset <= utf16_len(s.subrange(a, b)),
    decreases b - a,
{
    if b > a {
        lemma_emoji_run(cfg, m, s, a, b - 1);
        lemma_utf16_len_step(s, a, b);
    } else {
        assert(s.subrange(a, b).len() == 0);
    }
}

/// The product of two `i32` values is at most `step_bound` in size.
pub proof fn lemma_i32_product(a: i32, b: i32)
    ensures
        -step_bound() <= a * b <= step_bound(),
{
    assert(-step_bound() <= a * b <= step_bound()) by (nonlinear_arith)
        requires
            -0x8000_0000 <= a <= 0x7fff_ffff,
            -0x8000_0000 <= b <= 0x7fff_ffff,
    ;
}

/// How the characters of a stretch of text are weighed.
pub enum TrackAction {
    /// Each character weighs as its code point says.
    Text,
    /// The characters continue an emoji, whose weight is already counted.
    Emoji,
    /// The characters are a URL, which weighs as a whole.
    Url,
}

/// The running state of weighing, over a configuration.
pub struct TextMetrics<'a> {
    is_valid: bool,
    weighted_count: i128,
    offset: i32,
    valid_offset: i32,
    normalized_length: i32,
    scaled_max_weighted_tweet_length: i64,
    /// The last code point covered by the leading range and its weight, when
    /// that range starts at 0 (or every code point, with the default weight,
    /// when there are no ranges): these code points need no search.
    fast_path: Option<(i32, i32)>,
    config: &'a Configuration,
}

impl<'a> TextMetrics<'a> {
    /// What has been found so far.
    pub closed spec fn metrics(&self) -> Metrics {
        Metrics {
            is_valid: self.is_valid,
            weighted: self.weighted_count as int,
            offset: self.offset as int,
            valid_offset: self.valid_offset as int,
        }
    }

    /// The configuration weighed by.
    pub closed spec fn cfg(&self) -> &'a Configuration {
        self.config
    }

    /// The UTF-16 length of the normalized text, beyond which text is not
    /// weighed.
    pub closed spec fn nl(&self) -> int {
        self.normalized_length as int
    }

    pub closed spec fn wf(&self) -> bool {
        &&& self.scaled_max_weighted_tweet_length == scaled_max(self.config)
        &&& match self.fast_path {
            Some((end, w)) => forall|cp: int|
                0 <= cp <= end ==> weight_in(self.config.ranges@, self.config.default_weight, cp)
                    == w,
            None => true,
        }
    }

    /// Nothing weighed yet, over `config`, for a normalized text of
    /// `normalized_length` UTF-16 code units.
    pub fn new(config: &'a Configuration, normalized_length: i32) -> (r: TextMetrics<'a>)
        ensures
            r.wf(),
            r.metrics() == start_metrics(),
            r.cfg() == config,
            r.nl() == normalized_length,
    {
        let fast_path = if config.ranges.len() == 0 {
            Some((i32::MAX, config.default_weight))
        } else if config.ranges[0].range.start == 0 {
            Some((config.ranges[0].range.end, config.ranges[0].weight))
        } else {
            None
        };
        proof {
            lemma_i32_product(config.max_weighted_tweet_length, config.scale);
        }
        let scaled = config.max_weighted_tweet_length as i64 * config.scale as i64;
        TextMetrics {
            is_valid: true,
            weighted_count: 0,
            offset: 0,
            valid_offset: 0,
            normalized_length,
            scaled_max_weighted_tweet_length: scaled,
            fast_path,
            config,
        }
    }

    pub fn is_valid(&self) -> (r: bool)
        ensures
            r == self.metrics().is_valid,
    {
        self.is_valid
    }

    pub fn weighted_count(&self) -> (r: i128)
        ensures
            r == self.metrics().weighted,
    {
        self.weighted_count
    }

    pub fn offset(&self) -> (r: i32)
        ensures
            r == self.metrics().offset,
    {
        self.offset
    }

    pub fn valid_offset(&self) -> (r: i32)
        ensures
            r == self.metrics().valid_offset,
    {
        self.valid_offset
    }

    /// The text holds a character that no tweet may hold.
    pub fn invalidate(&mut self)
        requires
            old(self).wf(),
        ensures
            final(self).wf(),
            final(self).metrics() == (Metrics { is_valid: false, ..old(self).metrics() }),
            final(self).cfg() == old(self).cfg(),
            final(self).nl() == old(self).nl(),
    {
        self.is_valid = false;
    }

    /// Adds a weight that counts once, such as an emoji's.
    pub fn add_weight(&mut self, w: i32)
        requires
            old(self).wf(),
            -(i128::MAX - step_bound()) <= old(self).metrics().weighted <= i128::MAX - step_bound(),
        ensures
            final(self).wf(),
            final(self).metrics() == (Metrics {
                weighted: old(self).metrics().weighted + w,
                ..old(self).metrics()
            }),
            final(self).cfg() == old(self).cfg(),
            final(self).nl() == old(self).nl(),
    {
        self.weighted_count = self.weighted_count + w as i128;
    }

    fn add_offset(&mut self, offset: i32)
        requires
            old(self).wf(),
            0 <= offset,
            offsets_within(old(self).metrics(), old(self).metrics().offset),
            old(self).metrics().offset + offset <= i32::MAX,
        ensures
            final(self).wf(),
            final(self).metrics() == advance(old(self).cfg(), old(self).metrics(), offset as int),
            final(self).cfg() == old(self).cfg(),
            final(self).nl() == old(self).nl(),
    {
        self.offset = self.offset + offset;
        if self.is_valid && self.weighted_count <= self.scaled_max_weighted_tweet_length as i128 {
            self.valid_offset = self.valid_offset + offset;
        }
    }

    fn add_char(&mut self, c: char)
        requires
            old(self).wf(),
            offsets_within(old(self).metrics(), old(self).metrics().offset),
            old(self).metrics().offset + utf16_width(c) <= i32::MAX,
        ensures
            final(self).wf(),
            final(self).metrics() == advance(
                old(self).cfg(),
                old(self).metrics(),
                utf16_width(c) as int,
            ),
            final(self).cfg() == old(self).cfg(),
            final(self).nl() == old(self).nl(),
    {
        let len_utf16 = len_utf16(c) as i32;
        self.add_offset(len_utf16);
    }

    fn track_emoji(&mut self, c: char)
        requires
            old(self).wf(),
            offsets_within(old(self).metrics(), old(self).metrics().offset),
            old(self).metrics().offset + utf16_width(c) <= i32::MAX,
        ensures
            final(self).wf(),
            final(self).metrics() == advance(
                old(self).cfg(),
                old(self).metrics(),
                utf16_width(c) as int,
            ),
            final(self).cfg() == old(self).cfg(),
            final(self).nl() == old(self).nl(),
    {
        self.add_char(c);
    }

    fn track_url(&mut self, count: i32)
        requires
            old(self).wf(),
            0 <= count,
            offsets_within(old(self).metrics(), old(self).metrics().offset),
            old(self).metrics().offset + count <= i32::MAX,
            -(i128::MAX - step_bound()) <= old(self).metrics().weighted <= i128::MAX - step_bound(),
        ensures
            final(self).wf(),
            final(self).metrics() == advance(
                old(self).cfg(),
                Metrics {
                    weighted: old(self).metrics().weighted + url_weight(old(self).cfg()),
                    ..old(self).metrics()
                },
                count as int,
            ),
            final(self).cfg() == old(self).cfg(),
            final(self).nl() == old(self).nl(),
    {
        proof {
            lemma_i32_product(self.config.transformed_url_length, self.config.scale);
        }
        let w = self.config.transformed_url_length as i128 * self.config.scale as i128;
        self.weighted_count = self.weighted_count + w;
        self.add_offset(count);
    }

    /// The weight of a code point: that of the first range that holds it,
    /// or the default weight.
    fn weight_for_code_point(&self, code_point: i32) -> (r: i32)
        ensures
            r == weight_in(self.cfg().ranges@, self.cfg().default_weight, code_point as int),
    {
        let ranges = &self.config.ranges;
        let mut i: usize = 0;
        assert(ranges@.skip(0) =~= ranges@);
        while i < ranges.len()
            invariant
                ranges@ == self.cfg().ranges@,
                i <= ranges@.len(),
                weight_in(ranges@, self.cfg().default_weight, code_point as int) == weight_in(
                    ranges@.skip(i as int),
                    self.cfg().default_weight,
                    code_point as int,
                ),
            decreases ranges.len() - i,
        {
            proof {
                assert(ranges@.skip(i as int).drop_first() =~= ranges@.skip(i + 1));
            }
            if ranges[i].contains(code_point) {
                return ranges[i].weight;
            }
            i = i + 1;
        }
        self.config.default_weight
    }

    fn track_text(&mut self, c: char)
        requires
            old(self).wf(),
            offsets_within(old(self).metrics(), old(self).metrics().offset),
            old(self).metrics().offset + utf16_width(c) <= i32::MAX,
            -(i128::MAX - step_bound()) <= old(self).metrics().weighted <= i128::MAX - step_bound(),
        ensures
            final(self).wf(),
            final(self).metrics() == text_step(old(self).cfg(), old(self).nl(), old(self).metrics(), c),
            final(self).cfg() == old(self).cfg(),
            final(self).nl() == old(self).nl(),
    {
        if self.offset < self.normalized_length {
            let code_point = c as u32 as i32;
            let char_weight = match self.fast_path {
                Some((end, weight)) => {
                    if code_point <= end {
                        weight
                    } else {
                        self.weight_for_code_point(code_point)
                    }
                },
                None => self.weight_for_code_point(code_point),
            };
            assert(char_weight == weight_of(self.cfg(), c));
            self.weighted_count = self.weighted_count + char_weight as i128;
            self.add_char(c);
        }
    }

    /// Weighs `v[from..to]` as `action` says, and gives back its UTF-16
    /// length.
    pub fn scan(&mut self, v: &Vec<char>, from: usize, to: usize, action: TrackAction) -> (r: i32)
        requires
            old(self).wf(),
            from <= to <= v.len(),
            offsets_within(old(self).metrics(), old(self).metrics().offset),
            old(self).metrics().offset + utf16_len(v@.subrange(from as int, to as int)) <= i32::MAX,
            (to - from + 1) * step_bound() - i128::MAX <= old(self).metrics().weighted <= i128::MAX
                - (to - from + 1) * step_bound(),
        ensures
            final(self).wf(),
            final(self).cfg() == old(self).cfg(),
            final(self).nl() == old(self).nl(),
            r == utf16_len(v@.subrange(from as int, to as int)),
            final(self).metrics() == match action {
                TrackAction::Text => text_run(
                    old(self).cfg(),
                    old(self).nl(),
                    old(self).metrics(),
                    v@,
                    from as int,
                    to as int,
                ),
                TrackAction::Emoji => emoji_run(
                    old(self).cfg(),
                    old(self).metrics(),
                    v@,
                    from as int,
                    to as int,
                ),
                TrackAction::Url => url_run(
                    old(self).cfg(),
                    old(self).metrics(),
                    v@,
                    from as int,
                    to as int,
                ),
            },
    {
        let ghost m0 = self.metrics();
        let ghost cfg = self.cfg();
        let ghost nl = self.nl();
        let mut offset: i32 = 0;
        let mut k: usize = from;
        match action {
            TrackAction::Text => {
                while k < to
                    invariant
                        self.wf(),
                        self.cfg() == cfg,
                        self.nl() == nl,
                        from <= k <= to <= v.len(),
                        offsets_within(m0, m0.offset),
                        m0.offset + utf16_len(v@.subrange(from as int, to as int)) <= i32::MAX,
                        (to - from + 1) * step_bound() - i128::MAX <= m0.weighted <= i128::MAX - (
                        to - from + 1) * step_bound(),
                        offset == utf16_len(v@.subrange(from as int, k as int)),
                        self.metrics() == text_run(cfg, nl, m0, v@, from as int, k as int),
                    decreases to - k,
                {
                    proof {
                        lemma_text_run(cfg, nl, m0, v@, from as int, k as int);
                        lemma_utf16_len_step(v@, from as int, k + 1);
                        crate::text::lemma_utf16_len_sub(v@, from as int, from as int, k + 1, to as int);
                    }
                    let c = v[k];
                    offset = offset + len_utf16(c) as i32;
                    self.track_text(c);
                    k = k + 1;
                }
            },
            TrackAction::Emoji => {
                while k < to
                    invariant
                        self.wf(),
                        self.cfg() == cfg,
                        self.nl() == nl,
                        from <= k <= to <= v.len(),
                        offsets_within(m0, m0.offset),
                        m0.offset + utf16_len(v@.subrange(from as int, to as int)) <= i32::MAX,
                        offset == utf16_len(v@.subrange(from as int, k as int)),
                        self.metrics() == emoji_run(cfg, m0, v@, from as int, k as int),
                    decreases to - k,
                {
                    proof {
                        lemma_emoji_run(cfg, m0, v@, from as int, k as int);
                        lemma_utf16_len_step(v@, from as int, k + 1);
                        crate::text::lemma_utf16_len_sub(v@, from as int, from as int, k + 1, to as int);
                    }
                    let c = v[k];
                    offset = offset + len_utf16(c) as i32;
                    self.track_emoji(c);
                    k = k + 1;
                }
            },
            TrackAction::Url => {
                while k < to
                    invariant
                        from <= k <= to <= v.len(),
                        m0.offset + utf16_len(v@.subrange(from as int, to as int)) <= i32::MAX,
                        offsets_within(m0, m0.offset),
                        offset == utf16_len(v@.subrange(from as int, k as int)),
                    decreases to - k,
                {
                    proof {
                        lemma_utf16_len_step(v@, from as int, k + 1);
                        crate::text::lemma_utf16_len_sub(v@, from as int, from as int, k + 1, to as int);
                    }
                    let c = v[k];
                    offset = offset + len_utf16(c) as i32;
                    k = k + 1;
                }
                self.track_url(offset);
            },
        }
        offset
    }
}

} // verus!
