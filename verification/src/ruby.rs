//! The range and weighted range records that the Ruby binding hands out:
//! values whose parts can be read and set.
use vstd::prelude::*;
use crate::config::{Range, WeightedRange as ConfigWeightedRange};
use vstd::std_specs::convert::FromSpecImpl;

verus! {

/// A range whose ends can be read and set.
pub struct RubyRange {
    start: i32,
    end: i32,
}

impl RubyRange {
    /// The start of the range.
    pub closed spec fn start_value(&self) -> i32 {
        self.start
    }

    /// The end of the range.
    pub closed spec fn end_value(&self) -> i32 {
        self.end
    }

    pub fn new(start: i32, end: i32) -> (r: RubyRange)
        ensures
            r.start_value() == start,
            r.end_value() == end,
    {
        RubyRange { start, end }
    }

    pub fn get_start(&self) -> (r: i32)
        ensures
            r == self.start_value(),
    {
        self.start
    }

    pub fn set_start(&mut self, start: i32)
        ensures
            final(self).start_value() == start,
            final(self).end_value() == old(self).end_value(),
    {
        self.start = start;
    }

    pub fn get_end(&self) -> (r: i32)
        ensures
            r == self.end_value(),
    {
        self.end
    }

    pub fn set_end(&mut self, end: i32)
        ensures
            final(self).end_value() == end,
            final(self).start_value() == old(self).start_value(),
    {
        self.end = end;
    }
}

impl From<Range> for RubyRange {
    fn from(r: Range) -> (res: Self) {
        RubyRange::new(r.start, r.end)
    }
}

impl FromSpecImpl<Range> for RubyRange {
    open spec fn obeys_from_spec() -> bool {
        true
    }

    closed spec fn from_spec(v: Range) -> Self {
        RubyRange { start: v.start, end: v.end }
    }
}

/// A weighted range whose weight can be read and set.
pub struct WeightedRange {
    start: i32,
    end: i32,
    weight: i32,
}

impl WeightedRange {
    pub closed spec fn start_value(&self) -> i32 {
        self.start
    }

    pub closed spec fn end_value(&self) -> i32 {
        self.end
    }

    pub closed spec fn weight_value(&self) -> i32 {
        self.weight
    }

    pub fn new(start: i32, end: i32, weight: i32) -> (r: WeightedRange)
        ensures
            r.start_value() == start,
            r.end_value() == end,
            r.weight_value() == weight,
    {
        WeightedRange { start, end, weight }
    }

    /// The range of the weighted range.
    pub fn get_range(&self) -> (r: RubyRange)
        ensures
            r.start_value() == self.start_value(),
            r.end_value() == self.end_value(),
    {
        RubyRange::new(self.start, self.end)
    }

    pub fn get_weight(&self) -> (r: i32)
        ensures
            r == self.weight_value(),
    {
        self.weight
    }

    pub fn set_weight(&mut self, weight: i32)
        ensures
            final(self).weight_value() == weight,
            final(self).start_value() == old(self).start_value(),
            final(self).end_value() == old(self).end_value(),
    {
        self.weight = weight;
    }
}

impl From<ConfigWeightedRange> for WeightedRange {
    fn from(wr: ConfigWeightedRange) -> (res: Self) {
        WeightedRange::new(wr.range.start, wr.range.end, wr.weight)
    }
}

impl FromSpecImpl<ConfigWeightedRange> for WeightedRange {
    open spec fn obeys_from_spec() -> bool {
        true
    }

    closed spec fn from_spec(v: ConfigWeightedRange) -> Self {
        WeightedRange { start: v.range.start, end: v.range.end, weight: v.weight }
    }
}

} // verus!
