//! Block-level statistics: header fields, sizes, the coinbase transaction's lock time and
//! outputs, payment counts and the mining pool.
//!
//! The difficulty and the log2 of the work are floating-point values derived from `bits`;
//! they are computed elsewhere.

use vstd::prelude::*;
use crate::model::{enables_absolute_lock_time, spec_enables_absolute_lock_time, Block, Tx, TxIn, TxOut};
use crate::outside::{
    compact_target_from_unprefixed_hex, decode_transaction, decodes_as_transaction, i32_from_hex,
    identify_pool_id, input_sequences_of, is_coinbase_of, lock_time_of, mainnet_pool_id_of,
    output_values_of, raw_input_sequences, raw_lock_time, raw_output_values, raw_transaction_weight,
    weight_of, KnownPools,
};
use crate::hex::{hex_i32, unprefixed_hex_u32};
use crate::seqs::{lemma_sum_of_nonneg, lemma_sum_of_prefix_le, lemma_take_push, sum_of};
use crate::stats::StatsError;
use crate::txinfo::TxSummary;

verus! {

broadcast use crate::seqs::group_seqs;

/// The version of the statistics this library computes. Statistics stored with an older
/// version are recomputed. History: 1 initial, 2 coinbase lock time, 3 coinbase outputs,
/// 4 spend ages of inputs.
pub const STATS_VERSION: i32 = 4;

/// The pool id of a block whose pool could not be identified.
pub const UNKNOWN_POOL_ID: i32 = 0;

/// Block-level statistics of one block.
#[derive(Clone, Debug)]
pub struct BlockStats {
    /// The version of the statistics, `STATS_VERSION`.
    pub stats_version: i32,
    pub height: i64,
    pub date: String,
    pub version: i32,
    /// The header nonce, its 32 bits read as a signed integer.
    pub nonce: i32,
    /// The compact target, read from its hex string as a signed integer.
    pub bits: i32,
    /// Size of the block in bytes.
    pub size: i64,
    /// Size of the block without witness data.
    pub stripped_size: i64,
    /// Sum of the virtual sizes of the transactions.
    pub vsize: i64,
    /// Weight in weight units.
    pub weight: i64,
    /// No transaction besides the coinbase.
    pub empty: bool,
    /// Sum of the coinbase output values in satoshi.
    pub coinbase_output_amount: i64,
    /// Weight of the coinbase transaction.
    pub coinbase_weight: i64,
    /// The coinbase lock time is not zero (it may not be enforced).
    pub coinbase_locktime_set: bool,
    /// The coinbase lock time is the block height minus one and enforced, as BIP-54 asks.
    pub coinbase_locktime_set_bip54: bool,
    pub transactions: i32,
    pub payments: i32,
    /// Payments made by transactions spending a SegWit input.
    pub payments_segwit_spending_tx: i32,
    /// Payments made by transactions spending a Taproot input.
    pub payments_taproot_spending_tx: i32,
    /// Payments made by transactions signaling replaceability.
    pub payments_signaling_explicit_rbf: i32,
    pub inputs: i32,
    pub outputs: i32,
    /// The identified mining pool, `UNKNOWN_POOL_ID` when none was identified.
    pub pool_id: i32,
}

pub open spec fn tx_vsize() -> spec_fn(Tx) -> int {
    |t: Tx| t.vsize as int
}

pub open spec fn tx_input_count() -> spec_fn(Tx) -> int {
    |t: Tx| t.input@.len() as int
}

pub open spec fn tx_output_count() -> spec_fn(Tx) -> int {
    |t: Tx| t.output@.len() as int
}

pub open spec fn out_amount() -> spec_fn(TxOut) -> int {
    |o: TxOut| o.value as int
}

/// The payments of a transaction when it has the property `p`, else zero.
pub open spec fn payments_where(p: spec_fn(TxSummary) -> bool) -> spec_fn(TxSummary) -> int {
    |ti: TxSummary|
        if p(ti) {
            ti.spec_payments() as int
        } else {
            0
        }
}

pub open spec fn any_summary() -> spec_fn(TxSummary) -> bool {
    |ti: TxSummary| true
}

pub open spec fn summary_spends_segwit() -> spec_fn(TxSummary) -> bool {
    |ti: TxSummary| ti.spec_spending_segwit()
}

pub open spec fn summary_spends_taproot() -> spec_fn(TxSummary) -> bool {
    |ti: TxSummary| ti.spec_spending_taproot()
}

pub open spec fn summary_signals_rbf() -> spec_fn(TxSummary) -> bool {
    |ti: TxSummary| ti.spec_signals_rbf()
}

/// Whether some input sequence is not final, so that the lock time is enforced.
pub open spec fn sequences_enable_lock_time(sequences: Seq<u32>) -> bool {
    exists|k: int| 0 <= k < sequences.len() && spec_enables_absolute_lock_time(#[trigger] sequences[k])
}

/// An output value in satoshi, as an integer.
pub open spec fn sat_value() -> spec_fn(u64) -> int {
    |v: u64| v as int
}

/// The sum of some output values in satoshi.
pub open spec fn value_total(values: Seq<u64>) -> int {
    sum_of(values, sat_value())
}

/// BIP-54: the coinbase lock time is the height of the block minus one, and an input's
/// sequence is not final so that the lock time is enforced.
pub open spec fn spec_bip54_locktime(lock_time: u32, sequences: Seq<u32>, height: i64) -> bool {
    lock_time as int == height - 1 && sequences_enable_lock_time(sequences)
}

/// The block statistics of a block whose pool and compact target are given, and whose
/// decoded coinbase transaction has the given weight, lock time, input sequences and output
/// values.
pub open spec fn spec_block_stats(
    block: Block,
    date: String,
    infos: Seq<TxSummary>,
    pool_id: i32,
    bits: i32,
    coinbase_weight: i64,
    coinbase_lock_time: u32,
    coinbase_sequences: Seq<u32>,
    coinbase_values: Seq<u64>,
) -> BlockStats {
    BlockStats {
        stats_version: STATS_VERSION,
        height: block.height,
        date,
        version: block.version,
        nonce: block.nonce as i32,
        bits,
        size: block.size,
        stripped_size: block.stripped_size,
        vsize: sum_of(block.txdata@, tx_vsize()) as i64,
        weight: block.weight as i64,
        empty: block.txdata@.len() == 1,
        coinbase_output_amount: value_total(coinbase_values) as i64,
        coinbase_weight,
        coinbase_locktime_set: coinbase_lock_time != 0,
        coinbase_locktime_set_bip54: spec_bip54_locktime(
            coinbase_lock_time,
            coinbase_sequences,
            block.height,
        ),
        transactions: block.txdata@.len() as i32,
        payments: sum_of(infos, payments_where(any_summary())) as i32,
        payments_segwit_spending_tx: sum_of(infos, payments_where(summary_spends_segwit())) as i32,
        payments_taproot_spending_tx: sum_of(infos, payments_where(summary_spends_taproot())) as i32,
        payments_signaling_explicit_rbf: sum_of(infos, payments_where(summary_signals_rbf()))
            as i32,
        inputs: sum_of(block.txdata@, tx_input_count()) as i32,
        outputs: sum_of(block.txdata@, tx_output_count()) as i32,
        pool_id,
    }
}

/// The pool id stored for a block: the identified pool's id (cut to 32 bits), or
/// `UNKNOWN_POOL_ID` when no pool was identified.
pub open spec fn stored_pool_id(identified: Option<u64>) -> i32 {
    match identified {
        Some(id) => id as i32,
        None => UNKNOWN_POOL_ID,
    }
}

/// The block statistics of a block: its pool is the one identified among the known mainnet
/// pools from its coinbase transaction, its compact target is `bits` read as a hex `i32`, and
/// the coinbase weight, lock time, input sequences and output values are those of the
/// transaction its first raw transaction decodes to.
pub open spec fn spec_block_stats_of(block: Block, date: String, infos: Seq<TxSummary>) -> BlockStats {
    spec_block_stats(
        block,
        date,
        infos,
        stored_pool_id(mainnet_pool_id_of(block.txdata@[0].raw@)),
        hex_i32(block.bits@)->0,
        weight_of(block.txdata@[0].raw@) as i64,
        lock_time_of(block.txdata@[0].raw@),
        input_sequences_of(block.txdata@[0].raw@),
        output_values_of(block.txdata@[0].raw@),
    )
}

/// What the block statistics need: a coinbase transaction, and sums that fit the integers
/// they are added up in (virtual sizes and payments in `u32`, the values of the decoded
/// coinbase's outputs in `u64`, counts of inputs and outputs in `usize`).
pub open spec fn block_stats_fits(block: Block, infos: Seq<TxSummary>) -> bool {
    &&& block.txdata@.len() >= 1
    &&& sum_of(block.txdata@, tx_vsize()) <= u32::MAX
    &&& (decodes_as_transaction(block.txdata@[0].raw@) ==> value_total(
        output_values_of(block.txdata@[0].raw@),
    ) <= u64::MAX)
    &&& sum_of(infos, payments_where(any_summary())) <= u32::MAX
    &&& sum_of(block.txdata@, tx_input_count()) <= usize::MAX
    &&& sum_of(block.txdata@, tx_output_count()) <= usize::MAX
    &&& forall|i: int| 0 <= i < infos.len() ==> (#[trigger] infos[i]).output_infos@.len() <= u32::MAX
}

/// Whether a coinbase transaction with this lock time and these input sequences sets its lock
/// time as BIP-54 asks for a block at `height`.
pub fn bip54_locktime(lock_time: u32, sequences: &[u32], height: i64) -> (r: bool)
    ensures
        r == spec_bip54_locktime(lock_time, sequences@, height),
{
    if lock_time as i64 + 1 != height {
        return false;
    }
    let n = sequences.len();
    for i in 0..n
        invariant
            n == sequences@.len(),
            lock_time as int == height - 1,
            forall|k: int| 0 <= k < i ==> !spec_enables_absolute_lock_time(#[trigger] sequences@[k]),
    {
        if enables_absolute_lock_time(sequences[i]) {
            assert(spec_enables_absolute_lock_time(sequences@[i as int]));
            return true;
        }
    }
    false
}

/// The sums of the virtual sizes, input counts and output counts of some transactions.
fn size_and_io_sums(txs: &Vec<Tx>) -> (r: (u32, usize, usize))
    requires
        sum_of(txs@, tx_vsize()) <= u32::MAX,
        sum_of(txs@, tx_input_count()) <= usize::MAX,
        sum_of(txs@, tx_output_count()) <= usize::MAX,
    ensures
        r.0 == sum_of(txs@, tx_vsize()),
        r.1 == sum_of(txs@, tx_input_count()),
        r.2 == sum_of(txs@, tx_output_count()),
{
    let n = txs.len();
    let mut vsize: u32 = 0;
    let mut inputs: usize = 0;
    let mut outputs: usize = 0;
    proof {
        assert forall|t: Tx| 0 <= #[trigger] tx_vsize()(t) by {}
        assert forall|t: Tx| 0 <= #[trigger] tx_input_count()(t) by {}
        assert forall|t: Tx| 0 <= #[trigger] tx_output_count()(t) by {}
    }
    for i in 0..n
        invariant
            n == txs@.len(),
            sum_of(txs@, tx_vsize()) <= u32::MAX,
            sum_of(txs@, tx_input_count()) <= usize::MAX,
            sum_of(txs@, tx_output_count()) <= usize::MAX,
            forall|t: Tx| 0 <= #[trigger] tx_vsize()(t),
            forall|t: Tx| 0 <= #[trigger] tx_input_count()(t),
            forall|t: Tx| 0 <= #[trigger] tx_output_count()(t),
            vsize == sum_of(txs@.take(i as int), tx_vsize()),
            inputs == sum_of(txs@.take(i as int), tx_input_count()),
            outputs == sum_of(txs@.take(i as int), tx_output_count()),
    {
        proof {
            lemma_take_push(txs@, i as int);
            lemma_sum_of_prefix_le(txs@, i + 1, tx_vsize());
            lemma_sum_of_prefix_le(txs@, i + 1, tx_input_count());
            lemma_sum_of_prefix_le(txs@, i + 1, tx_output_count());
        }
        let t = &txs[i];
        vsize = vsize + t.vsize;
        inputs = inputs + t.input.len();
        outputs = outputs + t.output.len();
    }
    proof {
        assert(txs@.take(n as int) =~= txs@);
    }
    (vsize, inputs, outputs)
}

/// The sum of some output values.
fn output_amount(values: &[u64]) -> (r: u64)
    requires
        value_total(values@) <= u64::MAX,
    ensures
        r == value_total(values@),
{
    let n = values.len();
    let mut s: u64 = 0;
    proof {
        assert forall|v: u64| 0 <= #[trigger] sat_value()(v) by {}
    }
    for i in 0..n
        invariant
            n == values@.len(),
            value_total(values@) <= u64::MAX,
            forall|v: u64| 0 <= #[trigger] sat_value()(v),
            s == value_total(values@.take(i as int)),
    {
        proof {
            lemma_take_push(values@, i as int);
            lemma_sum_of_prefix_le(values@, i + 1, sat_value());
        }
        s = s + values[i];
    }
    proof {
        assert(values@.take(n as int) =~= values@);
    }
    s
}

/// The payments of some transactions, in all and of those spending SegWit, spending Taproot
/// and signaling replaceability.
fn payment_sums(infos: &[TxSummary]) -> (r: (u32, u32, u32, u32))
    requires
        sum_of(infos@, payments_where(any_summary())) <= u32::MAX,
        forall|i: int| 0 <= i < infos@.len() ==> (#[trigger] infos@[i]).output_infos@.len() <= u32::MAX,
    ensures
        r.0 == sum_of(infos@, payments_where(any_summary())),
        r.1 == sum_of(infos@, payments_where(summary_spends_segwit())),
        r.2 == sum_of(infos@, payments_where(summary_spends_taproot())),
        r.3 == sum_of(infos@, payments_where(summary_signals_rbf())),
{
    let n = infos.len();
    let ghost s = infos@;
    let mut all: u32 = 0;
    let mut segwit: u32 = 0;
    let mut taproot: u32 = 0;
    let mut rbf: u32 = 0;
    proof {
        assert forall|ti: TxSummary| 0 <= #[trigger] payments_where(any_summary())(ti) by {}
        assert forall|ti: TxSummary| #[trigger] payments_where(summary_spends_segwit())(ti)
            <= payments_where(any_summary())(ti) by {}
        assert forall|ti: TxSummary| #[trigger] payments_where(summary_spends_taproot())(ti)
            <= payments_where(any_summary())(ti) by {}
        assert forall|ti: TxSummary| #[trigger] payments_where(summary_signals_rbf())(ti)
            <= payments_where(any_summary())(ti) by {}
        assert forall|ti: TxSummary| 0 <= #[trigger] payments_where(summary_spends_segwit())(ti) by {}
        assert forall|ti: TxSummary| 0 <= #[trigger] payments_where(summary_spends_taproot())(ti) by {}
        assert forall|ti: TxSummary| 0 <= #[trigger] payments_where(summary_signals_rbf())(ti) by {}
    }
    for i in 0..n
        invariant
            n == s.len(),
            s == infos@,
            sum_of(s, payments_where(any_summary())) <= u32::MAX,
            forall|i: int| 0 <= i < s.len() ==> (#[trigger] s[i]).output_infos@.len() <= u32::MAX,
            forall|ti: TxSummary| 0 <= #[trigger] payments_where(any_summary())(ti),
            forall|ti: TxSummary| #[trigger] payments_where(summary_spends_segwit())(ti)
                <= payments_where(any_summary())(ti),
            forall|ti: TxSummary| #[trigger] payments_where(summary_spends_taproot())(ti)
                <= payments_where(any_summary())(ti),
            forall|ti: TxSummary| #[trigger] payments_where(summary_signals_rbf())(ti)
                <= payments_where(any_summary())(ti),
            forall|ti: TxSummary| 0 <= #[trigger] payments_where(summary_spends_segwit())(ti),
            forall|ti: TxSummary| 0 <= #[trigger] payments_where(summary_spends_taproot())(ti),
            forall|ti: TxSummary| 0 <= #[trigger] payments_where(summary_signals_rbf())(ti),
            all == sum_of(s.take(i as int), payments_where(any_summary())),
            segwit == sum_of(s.take(i as int), payments_where(summary_spends_segwit())),
            taproot == sum_of(s.take(i as int), payments_where(summary_spends_taproot())),
            rbf == sum_of(s.take(i as int), payments_where(summary_signals_rbf())),
    {
        let ghost next = s.take(i + 1);
        proof {
            lemma_take_push(s, i as int);
            lemma_sum_of_prefix_le(s, i + 1, payments_where(any_summary()));
            crate::seqs::lemma_sum_of_le(next, payments_where(summary_spends_segwit()), payments_where(any_summary()));
            crate::seqs::lemma_sum_of_le(next, payments_where(summary_spends_taproot()), payments_where(any_summary()));
            crate::seqs::lemma_sum_of_le(next, payments_where(summary_signals_rbf()), payments_where(any_summary()));
            lemma_sum_of_nonneg(s.take(i as int), payments_where(summary_spends_segwit()));
            lemma_sum_of_nonneg(s.take(i as int), payments_where(summary_spends_taproot()));
            lemma_sum_of_nonneg(s.take(i as int), payments_where(summary_signals_rbf()));
        }
        let ti = &infos[i];
        let p = ti.payments();
        all = all + p;
        if ti.is_spending_segwit() {
            segwit = segwit + p;
        }
        if ti.is_spending_taproot() {
            taproot = taproot + p;
        }
        if ti.is_signaling_explicit_rbf_replicability() {
            rbf = rbf + p;
        }
    }
    proof {
        assert(s.take(n as int) =~= s);
    }
    (all, segwit, taproot, rbf)
}

impl BlockStats {
    /// The block statistics of a block, given the pool identified from its coinbase
    /// transaction, its compact target read as `i32`, and the weight, lock time, input
    /// sequences and output values of its decoded coinbase transaction. `tx_infos` are the
    /// analyses of the block's transactions.
    pub fn from_parts(
        block: &Block,
        date: String,
        tx_infos: &[TxSummary],
        pool_id: i32,
        bits: i32,
        coinbase_weight: u64,
        coinbase_lock_time: u32,
        coinbase_sequences: &[u32],
        coinbase_values: &[u64],
    ) -> (r: BlockStats)
        requires
            block_stats_fits(*block, tx_infos@),
            value_total(coinbase_values@) <= u64::MAX,
        ensures
            r == spec_block_stats(
                *block,
                date,
                tx_infos@,
                pool_id,
                bits,
                coinbase_weight as i64,
                coinbase_lock_time,
                coinbase_sequences@,
                coinbase_values@,
            ),
    {
        let (vsize, inputs, outputs) = size_and_io_sums(&block.txdata);
        let (payments, segwit, taproot, rbf) = payment_sums(tx_infos);
        let amount = output_amount(coinbase_values);
        BlockStats {
            stats_version: STATS_VERSION,
            height: block.height,
            date,
            version: block.version,
            nonce: block.nonce as i32,
            bits,
            size: block.size,
            stripped_size: block.stripped_size,
            vsize: vsize as i64,
            weight: block.weight as i64,
            empty: block.txdata.len() == 1,
            coinbase_output_amount: amount as i64,
            coinbase_weight: coinbase_weight as i64,
            coinbase_locktime_set: coinbase_lock_time != 0,
            coinbase_locktime_set_bip54: bip54_locktime(coinbase_lock_time, coinbase_sequences, block.height),
            transactions: block.txdata.len() as i32,
            payments: payments as i32,
            payments_segwit_spending_tx: segwit as i32,
            payments_taproot_spending_tx: taproot as i32,
            payments_signaling_explicit_rbf: rbf as i32,
            inputs: inputs as i32,
            outputs: outputs as i32,
            pool_id,
        }
    }

    /// The block statistics of a block: decodes its coinbase transaction, identifies its
    /// mining pool among the known mainnet pools (`UNKNOWN_POOL_ID` when none is found) and
    /// reads its compact target. Fails when the coinbase does not decode, when `bits` is not
    /// an unprefixed hex `u32`, or when it is not a hex `i32`, in this order. The first
    /// transaction must be a coinbase: the pool identification asserts it.
    pub fn from_block(
        block: &Block,
        date: String,
        tx_infos: &[TxSummary],
        pools: &KnownPools,
    ) -> (r: Result<BlockStats, StatsError>)
        requires
            block_stats_fits(*block, tx_infos@),
            decodes_as_transaction(block.txdata@[0].raw@) ==> is_coinbase_of(block.txdata@[0].raw@),
        ensures
            r is Ok <==> decodes_as_transaction(block.txdata@[0].raw@) && unprefixed_hex_u32(
                block.bits@,
            ) is Some && hex_i32(block.bits@) is Some,
            r matches Err(StatsError::BitcoinEncode(_)) <==> !decodes_as_transaction(
                block.txdata@[0].raw@,
            ),
            decodes_as_transaction(block.txdata@[0].raw@) && unprefixed_hex_u32(block.bits@) is None
                ==> r matches Err(StatsError::UnprefixedHex(_)),
            decodes_as_transaction(block.txdata@[0].raw@) && unprefixed_hex_u32(block.bits@) is Some
                && hex_i32(block.bits@) is None ==> r matches Err(StatsError::ParseInt(_)),
            r is Err ==> r matches Err(StatsError::BitcoinEncode(_)) || r matches Err(
                StatsError::UnprefixedHex(_),
            ) || r matches Err(StatsError::ParseInt(_)),
            r matches Ok(s) ==> s == spec_block_stats_of(*block, date, tx_infos@),
    {
        let coinbase_raw = block.txdata[0].raw.as_slice();
        match decode_transaction(coinbase_raw) {
            Ok(_) => {},
            Err(e) => {
                return Err(StatsError::BitcoinEncode(e));
            },
        }
        let pool_id: i32 = match identify_pool_id(coinbase_raw, pools) {
            Some(id) => id as i32,
            None => UNKNOWN_POOL_ID,
        };
        match compact_target_from_unprefixed_hex(block.bits.as_str()) {
            Ok(_) => {},
            Err(e) => {
                return Err(StatsError::UnprefixedHex(e));
            },
        }
        let bits = match i32_from_hex(block.bits.as_str()) {
            Ok(b) => b,
            Err(e) => {
                return Err(StatsError::ParseInt(e));
            },
        };
        let weight = raw_transaction_weight(coinbase_raw);
        let lock_time = raw_lock_time(coinbase_raw);
        let sequences = raw_input_sequences(coinbase_raw);
        let values = raw_output_values(coinbase_raw);
        Ok(
            BlockStats::from_parts(
                block,
                date,
                tx_infos,
                pool_id,
                bits,
                weight,
                lock_time,
                sequences.as_slice(),
                values.as_slice(),
            ),
        )
    }
}

impl BlockStats {
    /// Whether `BlockStats::from_parts` and `BlockStats::from_block` can compute the
    /// statistics of these arguments.
    pub fn fits(block: &Block, tx_infos: &[TxSummary]) -> (r: bool)
        ensures
            r == block_stats_fits(*block, tx_infos@),
    {
        if block.txdata.len() == 0 {
            return false;
        }
        let txs = &block.txdata;
        let n = txs.len();
        let mut vsize: u64 = 0;
        let mut inputs: usize = 0;
        let mut outputs: usize = 0;
        proof {
            assert forall|t: Tx| 0 <= #[trigger] tx_vsize()(t) by {}
            assert forall|t: Tx| 0 <= #[trigger] tx_input_count()(t) by {}
            assert forall|t: Tx| 0 <= #[trigger] tx_output_count()(t) by {}
            assert forall|o: TxOut| 0 <= #[trigger] out_amount()(o) by {}
            assert forall|ti: TxSummary| 0 <= #[trigger] payments_where(any_summary())(ti) by {}
        }
        for i in 0..n
            invariant
                n == txs@.len(),
                txs == block.txdata,
                forall|t: Tx| 0 <= #[trigger] tx_vsize()(t),
                forall|t: Tx| 0 <= #[trigger] tx_input_count()(t),
                forall|t: Tx| 0 <= #[trigger] tx_output_count()(t),
                vsize == sum_of(txs@.take(i as int), tx_vsize()),
                inputs == sum_of(txs@.take(i as int), tx_input_count()),
                outputs == sum_of(txs@.take(i as int), tx_output_count()),
                vsize <= u32::MAX,
        {
            proof {
                lemma_take_push(txs@, i as int);
                lemma_sum_of_prefix_le(txs@, i + 1, tx_vsize());
                lemma_sum_of_prefix_le(txs@, i + 1, tx_input_count());
                lemma_sum_of_prefix_le(txs@, i + 1, tx_output_count());
            }
            let t = &txs[i];
            vsize = vsize + t.vsize as u64;
            if vsize > u32::MAX as u64 {
                return false;
            }
            if t.input.len() > usize::MAX - inputs {
                return false;
            }
            inputs = inputs + t.input.len();
            if t.output.len() > usize::MAX - outputs {
                return false;
            }
            outputs = outputs + t.output.len();
        }
        proof {
            assert(txs@.take(n as int) =~= txs@);
        }
        let coinbase_raw = block.txdata[0].raw.as_slice();
        if decode_transaction(coinbase_raw).is_ok() {
            let values = raw_output_values(coinbase_raw);
            let k = values.len();
            let mut amount: u64 = 0;
            proof {
                assert forall|v: u64| 0 <= #[trigger] sat_value()(v) by {}
            }
            for i in 0..k
                invariant
                    k == values@.len(),
                    block.txdata@.len() >= 1,
                    coinbase_raw@ == block.txdata@[0].raw@,
                    decodes_as_transaction(coinbase_raw@),
                    values@ == output_values_of(coinbase_raw@),
                    forall|v: u64| 0 <= #[trigger] sat_value()(v),
                    amount == value_total(values@.take(i as int)),
            {
                proof {
                    lemma_take_push(values@, i as int);
                    lemma_sum_of_prefix_le(values@, i + 1, sat_value());
                }
                if values[i] > u64::MAX - amount {
                    proof {
                        assert(values@.take(i + 1).drop_last() =~= values@.take(i as int));
                        assert(value_total(values@.take(i + 1)) == amount + values[i as int]);
                    }
                    return false;
                }
                amount = amount + values[i];
            }
            proof {
                assert(values@.take(k as int) =~= values@);
            }
        }
        let ghost infos = tx_infos@;
        let q = tx_infos.len();
        let mut payments: u64 = 0;
        for i in 0..q
            invariant
                q == infos.len(),
                infos == tx_infos@,
                forall|ti: TxSummary| 0 <= #[trigger] payments_where(any_summary())(ti),
                payments == sum_of(infos.take(i as int), payments_where(any_summary())),
                payments <= u32::MAX,
                forall|j: int| 0 <= j < i ==> (#[trigger] infos[j]).output_infos@.len() <= u32::MAX,
        {
            proof {
                lemma_take_push(infos, i as int);
                lemma_sum_of_prefix_le(infos, i + 1, payments_where(any_summary()));
            }
            let ti = &tx_infos[i];
            if ti.output_infos.len() > u32::MAX as usize {
                return false;
            }
            payments = payments + ti.payments() as u64;
            if payments > u32::MAX as u64 {
                return false;
            }
        }
        proof {
            assert(infos.take(q as int) =~= infos);
        }
        true
    }
}

} // verus!
