use vstd::prelude::*;

verus! {

/// The seed that selects the fixed, hand-written rule table instead of generated rules.
pub const VANILLA_SEED: u32 = 1;

/// The largest seed a rule seed may take.
pub const MAX_VALUE: u32 = 2147483647;

/// The seeded pseudo-random generator that drives rule generation.
///
/// The engine fixes only the order of the calls it makes and how their arguments are
/// derived; the arithmetic behind each draw belongs to the implementation, which must
/// yield the same sequence for the same seed.
pub trait SeededRandom: Sized {
    /// Creates the generator for `seed`.
    fn from_seed(seed: u32) -> Self
        requires
            seed <= MAX_VALUE,
    ;

    /// Draws one double in `[0, 1)` and reports whether it lies below
    /// `numerator / denominator`.
    fn next_double_below(&mut self, numerator: u32, denominator: u32) -> bool
        requires
            0 < denominator,
    ;

    /// Draws an integer uniformly from `[0, n)`.
    fn next_below(&mut self, n: u32) -> (r: u32)
        requires
            0 < n,
        ensures
            r < n,
    ;

    /// Picks the position of one of `len` items uniformly, or `None` when there is none.
    fn choice(&mut self, len: usize) -> (r: Option<usize>)
        ensures
            r is None <==> len == 0,
            r matches Some(i) ==> i < len,
    ;

    /// Picks the position of one item with probability proportional to its weight, where
    /// the weight of item `i` is `1 / divisor` multiplied into `1.0` `decays[i]` times.
    fn weighted_select(&mut self, decays: &Vec<u32>, divisor: u32) -> (r: usize)
        requires
            0 < decays.len(),
            0 < divisor,
        ensures
            r < decays.len(),
    ;
}

} // verus!
