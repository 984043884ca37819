//! Fee, size and feerate-band statistics of a block.
//!
//! The percentiles and averages are computed in floating point elsewhere from the samples
//! `fee_and_size_samples` returns; the counts and sums here are exact.

use vstd::prelude::*;
use crate::model::{Block, Tx};
use crate::seqs::{count_where, lemma_sum_of_nonneg, lemma_sum_of_prefix_le, lemma_take_push, sum_of};
use crate::tx_stats::{tx_pairs, TxPair};
use crate::txinfo::TxSummary;

verus! {

broadcast use crate::seqs::group_seqs;

/// Fee, size and feerate-band counts of a block, without the coinbase transaction.
#[derive(Clone, Debug)]
pub struct FeerateStats {
    pub height: i64,
    pub date: String,
    pub fee_min: i64,
    pub fee_max: i64,
    pub fee_sum: i64,
    pub size_min: i32,
    pub size_max: i32,
    pub size_sum: i64,
    /// Transactions paying a fee of exactly zero.
    pub zero_fee_tx: i32,
    pub below_1_sat_vbyte: i32,
    pub feerate_1_2_sat_vbyte: i32,
    pub feerate_2_5_sat_vbyte: i32,
    pub feerate_5_10_sat_vbyte: i32,
    pub feerate_10_25_sat_vbyte: i32,
    pub feerate_25_50_sat_vbyte: i32,
    pub feerate_50_100_sat_vbyte: i32,
    pub feerate_100_250_sat_vbyte: i32,
    pub feerate_250_500_sat_vbyte: i32,
    pub feerate_500_1000_sat_vbyte: i32,
    pub feerate_1000_plus_sat_vbyte: i32,
}

/// The fee of a transaction in satoshi, zero where it is not known.
pub open spec fn fee_or_zero(tx: Tx) -> u64 {
    match tx.fee {
        Some(f) => f,
        None => 0,
    }
}

/// The lower bounds of the feerate bands in sat/vbyte; the last band is open above.
pub open spec fn band_bound(k: int) -> int {
    if k <= 0 {
        0
    } else if k == 1 {
        1
    } else if k == 2 {
        2
    } else if k == 3 {
        5
    } else if k == 4 {
        10
    } else if k == 5 {
        25
    } else if k == 6 {
        50
    } else if k == 7 {
        100
    } else if k == 8 {
        250
    } else if k == 9 {
        500
    } else {
        1000
    }
}

/// The feerate band of `fee / vsize`: 0 below 1 sat/vbyte, `k` in `[band_bound(k),
/// band_bound(k + 1))`, 10 from 1000 sat/vbyte on. A zero vsize (an infinite or undefined
/// feerate) falls in the top band.
///
/// The comparisons are exact, and give the band of the double-precision quotient
/// `fee as f64 / vsize as f64` for every `u64` fee and `u32` vsize. Up to 2^53 the fee converts
/// exactly, and a quotient below a bound `c` lies at least `1 / vsize >= 2^-32` below it, far
/// more than half a unit in the last place near `c <= 1000`, so rounding keeps it below `c`.
/// Above 2^53 both the exact and the rounded quotient exceed 2^53 / 2^32 = 2^21 > 1000: the
/// top band either way.
pub open spec fn feerate_band(fee: u64, vsize: u32) -> int {
    if vsize == 0 {
        10
    } else if fee < vsize * 1 {
        0
    } else if fee < vsize * 2 {
        1
    } else if fee < vsize * 5 {
        2
    } else if fee < vsize * 10 {
        3
    } else if fee < vsize * 25 {
        4
    } else if fee < vsize * 50 {
        5
    } else if fee < vsize * 100 {
        6
    } else if fee < vsize * 250 {
        7
    } else if fee < vsize * 500 {
        8
    } else if fee < vsize * 1000 {
        9
    } else {
        10
    }
}

pub open spec fn in_band(k: int) -> spec_fn(TxPair) -> bool {
    |p: TxPair| feerate_band(fee_or_zero(p.0), p.0.vsize) == k
}

pub open spec fn pays_zero_fee() -> spec_fn(TxPair) -> bool {
    |p: TxPair| p.0.fee == Some(0u64)
}

pub open spec fn fee_of() -> spec_fn(TxPair) -> int {
    |p: TxPair| fee_or_zero(p.0) as int
}

pub open spec fn size_of() -> spec_fn(TxPair) -> int {
    |p: TxPair| p.0.size as int
}

/// The smallest value of `f` over `s`, or zero for an empty sequence.
pub open spec fn min_of(s: Seq<TxPair>, f: spec_fn(TxPair) -> int) -> int
    decreases s.len(),
{
    if s.len() == 0 {
        0
    } else if s.len() == 1 {
        f(s[0])
    } else {
        let m = min_of(s.drop_last(), f);
        if f(s.last()) < m {
            f(s.last())
        } else {
            m
        }
    }
}

/// The largest value of `f` over `s`, or zero for an empty sequence.
pub open spec fn max_of(s: Seq<TxPair>, f: spec_fn(TxPair) -> int) -> int
    decreases s.len(),
{
    if s.len() == 0 {
        0
    } else if s.len() == 1 {
        f(s[0])
    } else {
        let m = max_of(s.drop_last(), f);
        if f(s.last()) > m {
            f(s.last())
        } else {
            m
        }
    }
}

/// The transaction pairs other than the coinbase (the first).
pub open spec fn non_coinbase_pairs(block: Block, infos: Seq<TxSummary>) -> Seq<TxPair> {
    let ps = tx_pairs(block, infos);
    if ps.len() == 0 {
        ps
    } else {
        ps.drop_first()
    }
}

/// The fee statistics over a sequence of (non-coinbase) transaction pairs.
pub open spec fn feerate_stats_over(height: i64, date: String, ps: Seq<TxPair>) -> FeerateStats {
    FeerateStats {
        height,
        date,
        fee_min: min_of(ps, fee_of()) as i64,
        fee_max: max_of(ps, fee_of()) as i64,
        fee_sum: sum_of(ps, fee_of()) as i64,
        size_min: min_of(ps, size_of()) as i32,
        size_max: max_of(ps, size_of()) as i32,
        size_sum: sum_of(ps, size_of()) as i64,
        zero_fee_tx: count_where(ps, pays_zero_fee()) as i32,
        below_1_sat_vbyte: count_where(ps, in_band(0)) as i32,
        feerate_1_2_sat_vbyte: count_where(ps, in_band(1)) as i32,
        feerate_2_5_sat_vbyte: count_where(ps, in_band(2)) as i32,
        feerate_5_10_sat_vbyte: count_where(ps, in_band(3)) as i32,
        feerate_10_25_sat_vbyte: count_where(ps, in_band(4)) as i32,
        feerate_25_50_sat_vbyte: count_where(ps, in_band(5)) as i32,
        feerate_50_100_sat_vbyte: count_where(ps, in_band(6)) as i32,
        feerate_100_250_sat_vbyte: count_where(ps, in_band(7)) as i32,
        feerate_250_500_sat_vbyte: count_where(ps, in_band(8)) as i32,
        feerate_500_1000_sat_vbyte: count_where(ps, in_band(9)) as i32,
        feerate_1000_plus_sat_vbyte: count_where(ps, in_band(10)) as i32,
    }
}

/// The fee statistics of a block.
pub open spec fn spec_feerate_stats(block: Block, date: String, infos: Seq<TxSummary>) -> FeerateStats {
    feerate_stats_over(block.height, date, non_coinbase_pairs(block, infos))
}

/// What `FeerateStats::from_block` needs of its arguments: a coinbase transaction, counts
/// that fit in `i32`, and fee and size sums that fit in `u64`.
pub open spec fn feerate_stats_fits(block: Block, infos: Seq<TxSummary>) -> bool {
    let ps = non_coinbase_pairs(block, infos);
    &&& block.txdata@.len() >= 1
    &&& ps.len() <= i32::MAX
    &&& sum_of(ps, fee_of()) <= u64::MAX
    &&& sum_of(ps, size_of()) <= u64::MAX
}

/// The feerate band of a fee and a virtual size.
pub fn feerate_band_of(fee: u64, vsize: u32) -> (r: u8)
    ensures
        r == feerate_band(fee, vsize),
{
    let v = vsize as u64;
    if vsize == 0 {
        10
    } else if fee < v {
        0
    } else if fee < v * 2 {
        1
    } else if fee < v * 5 {
        2
    } else if fee < v * 10 {
        3
    } else if fee < v * 25 {
        4
    } else if fee < v * 50 {
        5
    } else if fee < v * 100 {
        6
    } else if fee < v * 250 {
        7
    } else if fee < v * 500 {
        8
    } else if fee < v * 1000 {
        9
    } else {
        10
    }
}

/// Counts one transaction into its feerate band.
fn add_band(
    s: &mut FeerateStats,
    fee: u64,
    vsize: u32,
    Ghost(p): Ghost<TxPair>,
    Ghost(h): Ghost<i64>,
    Ghost(d): Ghost<String>,
    Ghost(pre): Ghost<Seq<TxPair>>,
)
    requires
        pre.len() < i32::MAX,
        fee == fee_or_zero(p.0),
        vsize == p.0.vsize,
        old(s).below_1_sat_vbyte == feerate_stats_over(h, d, pre).below_1_sat_vbyte,
        old(s).feerate_1_2_sat_vbyte == feerate_stats_over(h, d, pre).feerate_1_2_sat_vbyte,
        old(s).feerate_2_5_sat_vbyte == feerate_stats_over(h, d, pre).feerate_2_5_sat_vbyte,
        old(s).feerate_5_10_sat_vbyte == feerate_stats_over(h, d, pre).feerate_5_10_sat_vbyte,
        old(s).feerate_10_25_sat_vbyte == feerate_stats_over(h, d, pre).feerate_10_25_sat_vbyte,
        old(s).feerate_25_50_sat_vbyte == feerate_stats_over(h, d, pre).feerate_25_50_sat_vbyte,
        old(s).feerate_50_100_sat_vbyte == feerate_stats_over(h, d, pre).feerate_50_100_sat_vbyte,
        old(s).feerate_100_250_sat_vbyte == feerate_stats_over(h, d, pre).feerate_100_250_sat_vbyte,
        old(s).feerate_250_500_sat_vbyte == feerate_stats_over(h, d, pre).feerate_250_500_sat_vbyte,
        old(s).feerate_500_1000_sat_vbyte == feerate_stats_over(
            h,
            d,
            pre,
        ).feerate_500_1000_sat_vbyte,
        old(s).feerate_1000_plus_sat_vbyte == feerate_stats_over(
            h,
            d,
            pre,
        ).feerate_1000_plus_sat_vbyte,
    ensures
        ({
            let t = feerate_stats_over(h, d, pre.push(p));
            &&& final(s).below_1_sat_vbyte == t.below_1_sat_vbyte
            &&& final(s).feerate_1_2_sat_vbyte == t.feerate_1_2_sat_vbyte
            &&& final(s).feerate_2_5_sat_vbyte == t.feerate_2_5_sat_vbyte
            &&& final(s).feerate_5_10_sat_vbyte == t.feerate_5_10_sat_vbyte
            &&& final(s).feerate_10_25_sat_vbyte == t.feerate_10_25_sat_vbyte
            &&& final(s).feerate_25_50_sat_vbyte == t.feerate_25_50_sat_vbyte
            &&& final(s).feerate_50_100_sat_vbyte == t.feerate_50_100_sat_vbyte
            &&& final(s).feerate_100_250_sat_vbyte == t.feerate_100_250_sat_vbyte
            &&& final(s).feerate_250_500_sat_vbyte == t.feerate_250_500_sat_vbyte
            &&& final(s).feerate_500_1000_sat_vbyte == t.feerate_500_1000_sat_vbyte
            &&& final(s).feerate_1000_plus_sat_vbyte == t.feerate_1000_plus_sat_vbyte
        }),
        final(s).height == old(s).height,
        final(s).date == old(s).date,
        final(s).fee_min == old(s).fee_min,
        final(s).fee_max == old(s).fee_max,
        final(s).fee_sum == old(s).fee_sum,
        final(s).size_min == old(s).size_min,
        final(s).size_max == old(s).size_max,
        final(s).size_sum == old(s).size_sum,
        final(s).zero_fee_tx == old(s).zero_fee_tx,
{
    let band = feerate_band_of(fee, vsize);
    if band == 0 {
        s.below_1_sat_vbyte = s.below_1_sat_vbyte + 1;
    } else if band == 1 {
        s.feerate_1_2_sat_vbyte = s.feerate_1_2_sat_vbyte + 1;
    } else if band == 2 {
        s.feerate_2_5_sat_vbyte = s.feerate_2_5_sat_vbyte + 1;
    } else if band == 3 {
        s.feerate_5_10_sat_vbyte = s.feerate_5_10_sat_vbyte + 1;
    } else if band == 4 {
        s.feerate_10_25_sat_vbyte = s.feerate_10_25_sat_vbyte + 1;
    } else if band == 5 {
        s.feerate_25_50_sat_vbyte = s.feerate_25_50_sat_vbyte + 1;
    } else if band == 6 {
        s.feerate_50_100_sat_vbyte = s.feerate_50_100_sat_vbyte + 1;
    } else if band == 7 {
        s.feerate_100_250_sat_vbyte = s.feerate_100_250_sat_vbyte + 1;
    } else if band == 8 {
        s.feerate_250_500_sat_vbyte = s.feerate_250_500_sat_vbyte + 1;
    } else if band == 9 {
        s.feerate_500_1000_sat_vbyte = s.feerate_500_1000_sat_vbyte + 1;
    } else {
        s.feerate_1000_plus_sat_vbyte = s.feerate_1000_plus_sat_vbyte + 1;
    }
}

/// The smallest and the largest value of `f` over a sequence lie within the range of `f`.
proof fn lemma_min_max_bounds(s: Seq<TxPair>, f: spec_fn(TxPair) -> int, hi: int)
    requires
        forall|x: TxPair| 0 <= #[trigger] f(x) <= hi,
    ensures
        0 <= min_of(s, f) <= hi,
        0 <= max_of(s, f) <= hi,
    decreases s.len(),
{
    if s.len() > 1 {
        lemma_min_max_bounds(s.drop_last(), f, hi);
    }
}

/// Appending one element to a sequence updates its smallest and largest value.
proof fn lemma_min_max_push(s: Seq<TxPair>, x: TxPair, f: spec_fn(TxPair) -> int)
    ensures
        min_of(s.push(x), f) == (if s.len() == 0 || f(x) < min_of(s, f) {
            f(x)
        } else {
            min_of(s, f)
        }),
        max_of(s.push(x), f) == (if s.len() == 0 || f(x) > max_of(s, f) {
            f(x)
        } else {
            max_of(s, f)
        }),
{
    assert(s.push(x).drop_last() =~= s);
}

/// The non-coinbase pairs are the pairs after the first.
proof fn lemma_non_coinbase_index(block: Block, infos: Seq<TxSummary>, j: int)
    requires
        0 <= j < non_coinbase_pairs(block, infos).len(),
    ensures
        non_coinbase_pairs(block, infos)[j] == (block.txdata@[j + 1], infos[j + 1]),
        non_coinbase_pairs(block, infos).len() + 1 == tx_pairs(block, infos).len(),
{
}

impl FeerateStats {
    /// The fee statistics of a block: the smallest, largest and summed fee and size, the
    /// number of transactions paying no fee and the number in each feerate band, over every
    /// transaction but the coinbase. `tx_infos[i]` is the analysis of `block.txdata[i]`; only
    /// as many transactions are counted as both hold.
    pub fn from_block(block: &Block, date: String, tx_infos: &[TxSummary]) -> (r: FeerateStats)
        requires
            feerate_stats_fits(*block, tx_infos@),
        ensures
            r == spec_feerate_stats(*block, date, tx_infos@),
    {
        let n = if block.txdata.len() <= tx_infos.len() {
            block.txdata.len()
        } else {
            tx_infos.len()
        };
        let m = if n == 0 {
            0
        } else {
            n - 1
        };
        let ghost nc = non_coinbase_pairs(*block, tx_infos@);
        let ghost date0 = date;
        let ghost h = block.height;
        let mut s = FeerateStats {
            height: block.height,
            date,
            fee_min: 0,
            fee_max: 0,
            fee_sum: 0,
            size_min: 0,
            size_max: 0,
            size_sum: 0,
            zero_fee_tx: 0,
            below_1_sat_vbyte: 0,
            feerate_1_2_sat_vbyte: 0,
            feerate_2_5_sat_vbyte: 0,
            feerate_5_10_sat_vbyte: 0,
            feerate_10_25_sat_vbyte: 0,
            feerate_25_50_sat_vbyte: 0,
            feerate_50_100_sat_vbyte: 0,
            feerate_100_250_sat_vbyte: 0,
            feerate_250_500_sat_vbyte: 0,
            feerate_500_1000_sat_vbyte: 0,
            feerate_1000_plus_sat_vbyte: 0,
        };
        let mut fee_min: u64 = 0;
        let mut fee_max: u64 = 0;
        let mut fee_sum: u64 = 0;
        let mut size_min: u64 = 0;
        let mut size_max: u64 = 0;
        let mut size_sum: u64 = 0;
        proof {
            assert(nc.take(0) =~= Seq::<TxPair>::empty());
            assert forall|x: TxPair| 0 <= #[trigger] fee_of()(x) <= u64::MAX by {}
            assert forall|x: TxPair| 0 <= #[trigger] size_of()(x) <= u64::MAX by {}
        }
        for j in 0..m
            invariant
                m == nc.len(),
                nc == non_coinbase_pairs(*block, tx_infos@),
                n == tx_pairs(*block, tx_infos@).len(),
                n <= block.txdata@.len(),
                n <= tx_infos@.len(),
                h == block.height,
                feerate_stats_fits(*block, tx_infos@),
                forall|x: TxPair| 0 <= #[trigger] fee_of()(x) <= u64::MAX,
                forall|x: TxPair| 0 <= #[trigger] size_of()(x) <= u64::MAX,
                s.height == h,
                s.date == date0,
                fee_min == min_of(nc.take(j as int), fee_of()),
                fee_max == max_of(nc.take(j as int), fee_of()),
                fee_sum == sum_of(nc.take(j as int), fee_of()),
                size_min == min_of(nc.take(j as int), size_of()),
                size_max == max_of(nc.take(j as int), size_of()),
                size_sum == sum_of(nc.take(j as int), size_of()),
                s.zero_fee_tx == feerate_stats_over(h, date0, nc.take(j as int)).zero_fee_tx,
                s.below_1_sat_vbyte == feerate_stats_over(h, date0, nc.take(j as int)).below_1_sat_vbyte,
                s.feerate_1_2_sat_vbyte == feerate_stats_over(h, date0, nc.take(j as int)).feerate_1_2_sat_vbyte,
                s.feerate_2_5_sat_vbyte == feerate_stats_over(h, date0, nc.take(j as int)).feerate_2_5_sat_vbyte,
                s.feerate_5_10_sat_vbyte == feerate_stats_over(h, date0, nc.take(j as int)).feerate_5_10_sat_vbyte,
                s.feerate_10_25_sat_vbyte == feerate_stats_over(h, date0, nc.take(j as int)).feerate_10_25_sat_vbyte,
                s.feerate_25_50_sat_vbyte == feerate_stats_over(h, date0, nc.take(j as int)).feerate_25_50_sat_vbyte,
                s.feerate_50_100_sat_vbyte == feerate_stats_over(h, date0, nc.take(j as int)).feerate_50_100_sat_vbyte,
                s.feerate_100_250_sat_vbyte == feerate_stats_over(h, date0, nc.take(j as int)).feerate_100_250_sat_vbyte,
                s.feerate_250_500_sat_vbyte == feerate_stats_over(h, date0, nc.take(j as int)).feerate_250_500_sat_vbyte,
                s.feerate_500_1000_sat_vbyte == feerate_stats_over(h, date0, nc.take(j as int)).feerate_500_1000_sat_vbyte,
                s.feerate_1000_plus_sat_vbyte == feerate_stats_over(h, date0, nc.take(j as int)).feerate_1000_plus_sat_vbyte,
        {
            let tx = &block.txdata[j + 1];
            let info = &tx_infos[j + 1];
            let ghost pre = nc.take(j as int);
            let ghost p = (*tx, *info);
            proof {
                lemma_non_coinbase_index(*block, tx_infos@, j as int);
                lemma_take_push(nc, j as int);
                assert(nc[j as int] == p);
                lemma_min_max_push(pre, p, fee_of());
                lemma_min_max_push(pre, p, size_of());
                lemma_min_max_bounds(pre, fee_of(), u64::MAX as int);
                lemma_min_max_bounds(pre, size_of(), u64::MAX as int);
                assert forall|x: TxPair| 0 <= #[trigger] fee_of()(x) by {}
                assert forall|x: TxPair| 0 <= #[trigger] size_of()(x) by {}
                lemma_sum_of_prefix_le(nc, j + 1, fee_of());
                lemma_sum_of_prefix_le(nc, j + 1, size_of());
                lemma_sum_of_nonneg(pre, fee_of());
                lemma_sum_of_nonneg(pre, size_of());
            }
            let fee: u64 = match tx.fee {
                Some(f) => f,
                None => 0,
            };
            let size: u64 = tx.size;
            if j == 0 || fee < fee_min {
                fee_min = fee;
            }
            if j == 0 || fee > fee_max {
                fee_max = fee;
            }
            if j == 0 || size < size_min {
                size_min = size;
            }
            if j == 0 || size > size_max {
                size_max = size;
            }
            fee_sum = fee_sum + fee;
            size_sum = size_sum + size;
            match tx.fee {
                Some(f) => {
                    if f == 0 {
                        s.zero_fee_tx = s.zero_fee_tx + 1;
                    }
                },
                None => {},
            }
            add_band(&mut s, fee, tx.vsize, Ghost(p), Ghost(h), Ghost(date0), Ghost(pre));
        }
        proof {
            assert(nc.take(m as int) =~= nc);
        }
        s.fee_min = fee_min as i64;
        s.fee_max = fee_max as i64;
        s.fee_sum = fee_sum as i64;
        s.size_min = size_min as i32;
        s.size_max = size_max as i32;
        s.size_sum = size_sum as i64;
        s
    }
}

/// The fee (zero where unknown), size and virtual size of each transaction of the block but
/// the coinbase, in block order: the samples from which the fee, size and feerate percentiles
/// and averages are taken. Where the block's transactions all have an analysis, these are the
/// transactions `FeerateStats::from_block` counts.
pub fn fee_samples(block: &Block) -> (r: Vec<(u64, u64, u32)>)
    ensures
        r@.len() == if block.txdata@.len() == 0 {
            0
        } else {
            block.txdata@.len() - 1
        },
        forall|j: int|
            0 <= j < r@.len() ==> #[trigger] r@[j] == (
                fee_or_zero(block.txdata@[j + 1]),
                block.txdata@[j + 1].size,
                block.txdata@[j + 1].vsize,
            ),
{
    let n = block.txdata.len();
    let m = if n == 0 {
        0
    } else {
        n - 1
    };
    let mut r: Vec<(u64, u64, u32)> = Vec::new();
    for j in 0..m
        invariant
            n == block.txdata@.len(),
            m == if n == 0 {
                0
            } else {
                n - 1
            },
            r@.len() == j,
            forall|i: int|
                0 <= i < j ==> #[trigger] r@[i] == (
                    fee_or_zero(block.txdata@[i + 1]),
                    block.txdata@[i + 1].size,
                    block.txdata@[i + 1].vsize,
                ),
    {
        let tx = &block.txdata[j + 1];
        let fee: u64 = match tx.fee {
            Some(f) => f,
            None => 0,
        };
        r.push((fee, tx.size, tx.vsize));
    }
    r
}

/// With an analysis for each transaction, the fee samples are those of the transactions the
/// fee statistics count.
pub proof fn lemma_fee_samples_counted(block: Block, infos: Seq<TxSummary>, j: int)
    requires
        infos.len() >= block.txdata@.len(),
        0 <= j < non_coinbase_pairs(block, infos).len(),
    ensures
        non_coinbase_pairs(block, infos)[j].0 == block.txdata@[j + 1],
        non_coinbase_pairs(block, infos).len() == block.txdata@.len() - 1,
{
}

impl FeerateStats {
    /// Whether `FeerateStats::from_block` can compute the statistics of these arguments.
    pub fn fits(block: &Block, tx_infos: &[TxSummary]) -> (r: bool)
        ensures
            r == feerate_stats_fits(*block, tx_infos@),
    {
        if block.txdata.len() == 0 {
            return false;
        }
        let n = if block.txdata.len() <= tx_infos.len() {
            block.txdata.len()
        } else {
            tx_infos.len()
        };
        let m = if n == 0 {
            0
        } else {
            n - 1
        };
        let ghost nc = non_coinbase_pairs(*block, tx_infos@);
        if m > i32::MAX as usize {
            return false;
        }
        let mut fee_sum: u64 = 0;
        let mut size_sum: u64 = 0;
        proof {
            assert(nc.take(0) =~= Seq::<TxPair>::empty());
            assert forall|x: TxPair| 0 <= #[trigger] fee_of()(x) by {}
            assert forall|x: TxPair| 0 <= #[trigger] size_of()(x) by {}
        }
        for j in 0..m
            invariant
                m == nc.len(),
                m <= i32::MAX,
                nc == non_coinbase_pairs(*block, tx_infos@),
                n == tx_pairs(*block, tx_infos@).len(),
                n <= block.txdata@.len(),
                block.txdata@.len() >= 1,
                forall|x: TxPair| 0 <= #[trigger] fee_of()(x),
                forall|x: TxPair| 0 <= #[trigger] size_of()(x),
                fee_sum == sum_of(nc.take(j as int), fee_of()),
                size_sum == sum_of(nc.take(j as int), size_of()),
                fee_sum <= u64::MAX,
                size_sum <= u64::MAX,
        {
            proof {
                lemma_non_coinbase_index(*block, tx_infos@, j as int);
                lemma_take_push(nc, j as int);
                lemma_sum_of_prefix_le(nc, j + 1, fee_of());
                lemma_sum_of_prefix_le(nc, j + 1, size_of());
            }
            let tx = &block.txdata[j + 1];
            let fee: u64 = match tx.fee {
                Some(f) => f,
                None => 0,
            };
            if fee > u64::MAX - fee_sum {
                return false;
            }
            fee_sum = fee_sum + fee;
            if tx.size > u64::MAX - size_sum {
                return false;
            }
            size_sum = size_sum + tx.size;
        }
        proof {
            assert(nc.take(m as int) =~= nc);
        }
        true
    }
}

} // verus!
