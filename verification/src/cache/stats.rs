use vstd::prelude::*;

verus! {

/// A reading of the cache's counters and fill.
#[derive(Clone, Copy, Debug, PartialEq, Eq)]
pub struct CacheStats {
    /// Lookups that found a value.
    pub hits: u64,
    /// Lookups that found none.
    pub misses: u64,
    /// The number of values held.
    pub size: usize,
    /// The number of values there is room for.
    pub capacity: usize,
}

impl CacheStats {
    /// The share of lookups that were hits, in whole percent, rounded down;
    /// 0 where there was no lookup.
    pub open spec fn spec_hit_rate_percent(self) -> int {
        if self.hits + self.misses == 0 {
            0
        } else {
            (self.hits * 100) / (self.hits + self.misses)
        }
    }

    /// The share of lookups that were hits, in whole percent, rounded down;
    /// 0 where there was no lookup.
    pub fn hit_rate_percent(&self) -> (rate: u64)
        ensures
            rate == self.spec_hit_rate_percent(),
            rate <= 100,
    {
        let hits: u128 = self.hits as u128;
        let total: u128 = hits + self.misses as u128;
        if total == 0 {
            0
        } else {
            let scaled: u128 = hits * 100;
            let rate: u128 = scaled / total;
            assert(rate <= 100) by (nonlinear_arith)
                requires
                    rate == scaled / total,
                    scaled == hits * 100,
                    hits <= total,
                    total > 0,
            ;
            rate as u64
        }
    }
}

} // verus!
