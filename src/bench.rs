//! What the benchmark runs: the configured key-set sizes, one round of
//! lookups of every key with one strategy, and the per-lookup mean.
use crate::hash::str_hash;
use crate::keyset::{first_index, hashes_of};
use crate::variants::{lemma_lookups_correct, Lookups};
use vstd::prelude::*;

verus! {

/// The key-set sizes measured, smallest first.
pub open spec fn spec_bench_sizes() -> Seq<usize> {
    seq![5, 7, 10, 12, 14, 16, 20, 28, 35, 50, 75, 100, 200, 500, 1000, 2000, 5000, 10000]
}

/// The key-set sizes measured, smallest first, spanning three orders of magnitude.
pub fn bench_sizes() -> (r: Vec<usize>)
    ensures
        r@ == spec_bench_sizes(),
{
    let r = vec![5, 7, 10, 12, 14, 16, 20, 28, 35, 50, 75, 100, 200, 500, 1000, 2000, 5000, 10000];
    assert(r@ =~= spec_bench_sizes());
    r
}

/// One of the four lookup strategies.
#[derive(Clone, Copy, Debug, PartialEq, Eq)]
pub enum Strategy {
    MatchStr,
    MatchHash,
    LookupPhf,
    LookupLazy,
}

impl Strategy {
    /// All four, in reporting order.
    pub fn all() -> (r: Vec<Strategy>)
        ensures
            r@ == seq![
                Strategy::MatchStr,
                Strategy::MatchHash,
                Strategy::LookupPhf,
                Strategy::LookupLazy,
            ],
    {
        vec![Strategy::MatchStr, Strategy::MatchHash, Strategy::LookupPhf, Strategy::LookupLazy]
    }

    /// The name results are filed under.
    pub fn name(&self) -> (r: &'static str)
        ensures
            r@ == match self {
                Strategy::MatchStr => "match_str"@,
                Strategy::MatchHash => "match_hash"@,
                Strategy::LookupPhf => "lookup_phf"@,
                Strategy::LookupLazy => "lookup_lazy"@,
            },
    {
        match self {
            Strategy::MatchStr => "match_str",
            Strategy::MatchHash => "match_hash",
            Strategy::LookupPhf => "lookup_phf",
            Strategy::LookupLazy => "lookup_lazy",
        }
    }
}

/// The answer of strategy `v` for `q` on `keys`.
pub open spec fn strategy_answer(v: Strategy, keys: Seq<Seq<char>>, q: Seq<char>) -> Option<usize> {
    match v {
        Strategy::MatchHash => first_index(hashes_of(keys), str_hash(q)),
        _ => first_index(keys, q),
    }
}

impl Lookups {
    /// Looks `s` up with strategy `v`.
    pub fn lookup_with(&self, v: Strategy, s: &str) -> (r: Option<usize>)
        requires
            self.wf(),
        ensures
            r == strategy_answer(v, self@, s@),
    {
        match v {
            Strategy::MatchStr => self.match_str(s),
            Strategy::MatchHash => self.match_hash(s),
            Strategy::LookupPhf => self.lookup_phf(s),
            Strategy::LookupLazy => self.lookup_lazy(s),
        }
    }

    /// One timed round: looks every key up, in order, with strategy `v` alone,
    /// and counts the keys found at their own position (all of them).
    pub fn run_round(&self, v: Strategy) -> (r: usize)
        requires
            self.wf(),
        ensures
            r == self@.len(),
    {
        let ks = self.key_set();
        let mut found: usize = 0;
        let mut i: usize = 0;
        while i < ks.len()
            invariant
                self.wf(),
                ks.wf(),
                ks@ == self@,
                0 <= i <= ks@.len(),
                found == i,
            decreases ks@.len() - i,
        {
            let k = ks.key(i);
            proof {
                lemma_lookups_correct(self@, k@);
            }
            if self.lookup_with(v, k) == Some(i) {
                found = found + 1;
            }
            i = i + 1;
        }
        found
    }
}

/// Mean time of one lookup, in picoseconds (rounded down), from the total
/// time in nanoseconds of `rounds` rounds over `keys` keys each.
pub fn mean_lookup_picos(total_nanos: u64, rounds: u64, keys: u64) -> (r: u128)
    requires
        rounds > 0,
        keys > 0,
    ensures
        r == (total_nanos as int * 1000) / (rounds as int * keys as int),
{
    let a: u128 = rounds as u128;
    let b: u128 = keys as u128;
    let ghost m: int = 0xffff_ffff_ffff_ffff;
    assert(0 < a * b) by (nonlinear_arith)
        requires
            0 < a,
            0 < b,
    ;
    assert(a * b <= a * m) by (nonlinear_arith)
        requires
            0 < a,
            b <= m,
    ;
    assert(a * m <= m * m) by (nonlinear_arith)
        requires
            a <= m,
            0 <= m,
    ;
    assert(m * m <= u128::MAX) by (nonlinear_arith)
        requires
            m == 0xffff_ffff_ffff_ffff,
    ;
    let lookups: u128 = a * b;
    (total_nanos as u128) * 1000 / lookups
}

} // verus!
