//! Transaction-level statistics of a block.

use vstd::prelude::*;
use crate::model::{
    lock_time_is_block_height, lock_time_is_block_time, spec_is_block_height, spec_is_block_time,
    Block, InputData, Tx, TxIn, TxOut, Txid,
};
use crate::outpoints::{insert_outpoint, lemma_to_set_empty, take_outpoint, Outpoint};
use crate::outside::{minimal_non_dust, minimal_non_dust_of};
use crate::seqs::{
    count_where, lemma_count_where_le_len, lemma_sum_of_concat, lemma_sum_of_prefix_le, lemma_take_push,
    sum_of,
};
use crate::txinfo::{lemma_output_value_total_nonneg, output_value_total, OutputSummary, TxSummary};

verus! {

broadcast use crate::seqs::group_seqs;

/// Transaction counts of a block.
#[derive(Clone, Debug)]
pub struct TxStats {
    pub height: i64,
    pub date: String,
    /// Number of version 1 transactions.
    pub tx_version_1: i32,
    /// Number of version 2 transactions.
    pub tx_version_2: i32,
    /// Number of version 3 transactions.
    pub tx_version_3: i32,
    /// Number of transactions with any other version.
    pub tx_version_unknown: i32,
    /// Sum of the output values of all transactions, in satoshi.
    pub tx_output_amount: i64,
    pub tx_spending_segwit: i32,
    pub tx_spending_only_segwit: i32,
    pub tx_spending_only_legacy: i32,
    pub tx_spending_only_taproot: i32,
    pub tx_spending_segwit_and_legacy: i32,
    pub tx_spending_nested_segwit: i32,
    pub tx_spending_native_segwit: i32,
    pub tx_spending_taproot: i32,
    pub tx_bip69_compliant: i32,
    pub tx_signaling_explicit_rbf: i32,
    pub tx_1_input: i32,
    pub tx_1_output: i32,
    pub tx_1_input_1_output: i32,
    pub tx_1_input_2_output: i32,
    /// Transactions spending an output created earlier in the same block.
    pub tx_spending_newly_created_utxos: i32,
    /// Transactions spending ephemeral dust created earlier in the same block.
    pub tx_spending_ephemeral_dust: i32,
    pub tx_timelock_height: i32,
    pub tx_timelock_timestamp: i32,
    pub tx_timelock_not_enforced: i32,
    pub tx_timelock_too_high: i32,
}

/// The transactions of a block paired with their script analysis, as far as both reach.
pub open spec fn tx_pairs(block: Block, infos: Seq<TxSummary>) -> Seq<TxPair> {
    let n = if block.txdata@.len() <= infos.len() {
        block.txdata@.len()
    } else {
        infos.len()
    };
    Seq::new(n, |i: int| (block.txdata@[i], infos[i]))
}

/// The outputs of a transaction whose value is below their dust threshold, as outpoints.
pub open spec fn dust_outpoints(txid: Txid, outputs: Seq<TxOut>) -> Seq<Outpoint>
    decreases outputs.len(),
{
    if outputs.len() == 0 {
        Seq::empty()
    } else {
        let rest = dust_outpoints(txid, outputs.drop_last());
        let o = outputs.last();
        if (o.value as int) < minimal_non_dust_of(o.script@) {
            rest.push((txid, o.n))
        } else {
            rest
        }
    }
}

/// A zero-fee version 3 transaction of at most 10,000 vbytes with exactly one dust output
/// stages that output as ephemeral dust.
pub open spec fn staged_ephemeral_dust(tx: Tx, set: Set<Outpoint>) -> Set<Outpoint> {
    let staged = dust_outpoints(tx.txid, tx.output@);
    if tx.version == 3 && tx.fee == Some(0u64) && tx.vsize <= 10_000 && staged.len() == 1 {
        set.insert(staged[0])
    } else {
        set
    }
}

/// The state of scanning one transaction's inputs: whether it spends a transaction of this
/// block, whether it spends ephemeral dust, the staged dust not yet spent, and whether the
/// scan has stopped early.
pub type InputScan = (bool, bool, Set<Outpoint>, bool);

/// One input of the scan. Coinbase inputs are skipped; the scan stops once the transaction is
/// known to spend a transaction of this block and either spends dust or no dust is left.
pub open spec fn input_scan_step(tx: Tx, seen: Seq<Txid>, st: InputScan, input: TxIn) -> InputScan {
    if st.3 {
        st
    } else {
        match input.data {
            InputData::Coinbase => st,
            InputData::NonCoinbase { txid, vout, prevout } => {
                let newly = st.0 || seen.contains(txid);
                let taken = st.2.contains((txid, vout));
                let set = st.2.remove((txid, vout));
                let dust = st.1 || (taken && tx.version == 3 && tx.fee.unwrap() != 0 && tx.vsize
                    <= 1000);
                (newly, dust, set, (dust || set == Set::<Outpoint>::empty()) && newly)
            },
        }
    }
}

/// The scan over a prefix of a transaction's inputs.
pub open spec fn input_scan(tx: Tx, seen: Seq<Txid>, set: Set<Outpoint>, inputs: Seq<TxIn>) -> InputScan
    decreases inputs.len(),
{
    if inputs.len() == 0 {
        (false, false, set, false)
    } else {
        input_scan_step(tx, seen, input_scan(tx, seen, set, inputs.drop_last()), inputs.last())
    }
}

/// Over a prefix of the block's transactions: the number spending a transaction of this block,
/// the number spending ephemeral dust, and the staged dust not yet spent.
pub open spec fn dust_scan(pairs: Seq<TxPair>) -> (nat, nat, Set<Outpoint>)
    decreases pairs.len(),
{
    if pairs.len() == 0 {
        (0, 0, Set::empty())
    } else {
        let prev = dust_scan(pairs.drop_last());
        let tx = pairs.last().0;
        let seen = pairs.drop_last().map_values(|p: TxPair| p.0.txid);
        let r = input_scan(tx, seen, prev.2, tx.input@);
        (
            prev.0 + if r.0 {
                1nat
            } else {
                0nat
            },
            prev.1 + if r.1 {
                1nat
            } else {
                0nat
            },
            staged_ephemeral_dust(tx, r.2),
        )
    }
}

/// Whether an input spends an output of one of the transactions `seen`.
pub open spec fn input_spends_one_of(input: TxIn, seen: Seq<Txid>) -> bool {
    match input.data {
        InputData::NonCoinbase { txid, .. } => seen.contains(txid),
        InputData::Coinbase => false,
    }
}

/// Whether a transaction has an input spending an output of one of the transactions `seen`.
pub open spec fn spends_one_of(tx: Tx, seen: Seq<Txid>) -> bool {
    exists|k: int| 0 <= k < tx.input@.len() && input_spends_one_of(#[trigger] tx.input@[k], seen)
}

/// The number of transactions spending an output of an earlier transaction of the sequence.
pub open spec fn count_spending_earlier(pairs: Seq<TxPair>) -> nat
    decreases pairs.len(),
{
    if pairs.len() == 0 {
        0
    } else {
        count_spending_earlier(pairs.drop_last()) + if spends_one_of(
            pairs.last().0,
            pairs.drop_last().map_values(|p: TxPair| p.0.txid),
        ) {
            1nat
        } else {
            0nat
        }
    }
}

proof fn lemma_input_scan_newly(tx: Tx, seen: Seq<Txid>, set: Set<Outpoint>, inputs: Seq<TxIn>)
    ensures
        input_scan(tx, seen, set, inputs).3 ==> input_scan(tx, seen, set, inputs).0,
        input_scan(tx, seen, set, inputs).0 <==> exists|k: int|
            0 <= k < inputs.len() && input_spends_one_of(#[trigger] inputs[k], seen),
    decreases inputs.len(),
{
    if inputs.len() > 0 {
        let pre = inputs.drop_last();
        let last = inputs.len() - 1;
        lemma_input_scan_newly(tx, seen, set, pre);
        let st = input_scan(tx, seen, set, pre);
        let r = input_scan(tx, seen, set, inputs);
        assert(r == input_scan_step(tx, seen, st, inputs[last]));
        if r.0 {
            if st.0 {
                let k = choose|k: int| 0 <= k < pre.len() && input_spends_one_of(#[trigger] pre[k], seen);
                assert(inputs[k] == pre[k]);
            } else {
                assert(input_spends_one_of(inputs[last], seen));
            }
        } else {
            assert forall|k: int| 0 <= k < inputs.len() implies !input_spends_one_of(
                #[trigger] inputs[k],
                seen,
            ) by {
                if k < last {
                    assert(inputs[k] == pre[k]);
                }
            }
        }
    }
}

/// The first count of the ephemeral-dust scan, over all its stops and staged outputs, is just
/// the number of transactions spending an output of an earlier transaction of the block.
pub proof fn lemma_dust_scan_counts_spending_earlier(pairs: Seq<TxPair>)
    ensures
        dust_scan(pairs).0 == count_spending_earlier(pairs),
    decreases pairs.len(),
{
    if pairs.len() > 0 {
        let pre = pairs.drop_last();
        lemma_dust_scan_counts_spending_earlier(pre);
        let tx = pairs.last().0;
        let seen = pre.map_values(|p: TxPair| p.0.txid);
        lemma_input_scan_newly(tx, seen, dust_scan(pre).2, tx.input@);
    }
}

/// The outpoint an input spends; none for a coinbase input.
pub open spec fn spent_outpoint(input: TxIn) -> Option<Outpoint> {
    match input.data {
        InputData::NonCoinbase { txid, vout, .. } => Some((txid, vout)),
        InputData::Coinbase => None,
    }
}

/// Whether one of the inputs spends the outpoint.
pub open spec fn inputs_spend(inputs: Seq<TxIn>, op: Outpoint) -> bool {
    exists|k: int| 0 <= k < inputs.len() && spent_outpoint(#[trigger] inputs[k]) == Some(op)
}

/// Whether no two of the inputs spend the same outpoint.
pub open spec fn spends_distinct(inputs: Seq<TxIn>) -> bool {
    forall|k1: int, k2: int|
        0 <= k1 < inputs.len() && 0 <= k2 < inputs.len() && k1 != k2 && spent_outpoint(inputs[k1]) is Some
            ==> spent_outpoint(#[trigger] inputs[k1]) != spent_outpoint(#[trigger] inputs[k2])
}

/// Whether a transaction may spend ephemeral dust: version 3, paying a non-zero fee, of at
/// most 1000 vbytes.
pub open spec fn may_spend_dust(tx: Tx) -> bool {
    tx.version == 3 && tx.fee is Some && tx.fee->0 != 0 && tx.vsize <= 1000
}

/// The ephemeral dust output a transaction stages: the single dust output of a zero-fee
/// version 3 transaction of at most 10,000 vbytes.
pub open spec fn staged_dust(tx: Tx) -> Option<Outpoint> {
    let staged = dust_outpoints(tx.txid, tx.output@);
    if tx.version == 3 && tx.fee == Some(0u64) && tx.vsize <= 10_000 && staged.len() == 1 {
        Some(staged[0])
    } else {
        None
    }
}

/// Whether one of the transactions stages the outpoint as ephemeral dust.
pub open spec fn staged_by_one_of(pairs: Seq<TxPair>, op: Outpoint) -> bool {
    exists|j: int| 0 <= j < pairs.len() && staged_dust(#[trigger] pairs[j].0) == Some(op)
}

/// Whether one of the transactions spends the outpoint.
pub open spec fn spent_by_one_of(pairs: Seq<TxPair>, op: Outpoint) -> bool {
    exists|i: int| 0 <= i < pairs.len() && inputs_spend(#[trigger] pairs[i].0.input@, op)
}

/// Whether a transaction may spend ephemeral dust and spends dust staged by one of `pre`.
pub open spec fn spends_dust_staged_by(tx: Tx, pre: Seq<TxPair>) -> bool {
    may_spend_dust(tx) && exists|op: Outpoint| inputs_spend(tx.input@, op) && #[trigger] staged_by_one_of(pre, op)
}

/// The number of transactions spending ephemeral dust staged by an earlier transaction of
/// the sequence.
pub open spec fn count_dust_spenders(pairs: Seq<TxPair>) -> nat
    decreases pairs.len(),
{
    if pairs.len() == 0 {
        0
    } else {
        count_dust_spenders(pairs.drop_last()) + if spends_dust_staged_by(
            pairs.last().0,
            pairs.drop_last(),
        ) {
            1nat
        } else {
            0nat
        }
    }
}

/// Whether the transactions spend every outpoint at most once.
pub open spec fn spends_each_outpoint_once(pairs: Seq<TxPair>) -> bool {
    &&& forall|i: int| 0 <= i < pairs.len() ==> spends_distinct(#[trigger] pairs[i].0.input@)
    &&& forall|i1: int, i2: int, op: Outpoint|
        #![trigger inputs_spend(pairs[i1].0.input@, op), inputs_spend(pairs[i2].0.input@, op)]
        0 <= i1 < i2 < pairs.len() && inputs_spend(pairs[i1].0.input@, op) ==> !inputs_spend(
            pairs[i2].0.input@,
            op,
        )
}

/// Whether every transaction spending an outpoint has a fee.
pub open spec fn spenders_have_fees(pairs: Seq<TxPair>) -> bool {
    forall|i: int, k: int|
        0 <= i < pairs.len() && 0 <= k < pairs[i].0.input@.len() && spent_outpoint(
            #[trigger] pairs[i].0.input@[k],
        ) is Some ==> pairs[i].0.fee is Some
}

proof fn lemma_inputs_spend_push(inputs: Seq<TxIn>)
    requires
        inputs.len() > 0,
    ensures
        forall|op: Outpoint|
            #[trigger] inputs_spend(inputs, op) == (inputs_spend(inputs.drop_last(), op) || spent_outpoint(
                inputs.last(),
            ) == Some(op)),
{
    let pre = inputs.drop_last();
    assert forall|op: Outpoint|
        #[trigger] inputs_spend(inputs, op) == (inputs_spend(pre, op) || spent_outpoint(inputs.last())
            == Some(op)) by {
        if inputs_spend(inputs, op) {
            let k = choose|k: int| 0 <= k < inputs.len() && spent_outpoint(#[trigger] inputs[k]) == Some(op);
            if k < pre.len() {
                assert(pre[k] == inputs[k]);
            }
        }
        if inputs_spend(pre, op) {
            let k = choose|k: int| 0 <= k < pre.len() && spent_outpoint(#[trigger] pre[k]) == Some(op);
            assert(inputs[k] == pre[k]);
        }
    }
}

/// The scan of a transaction's inputs, whose outpoints are distinct: it only removes the
/// outpoints it reaches, it stops only with dust found or nothing staged left, and it finds
/// dust exactly when the transaction may spend dust and spends a staged outpoint.
proof fn lemma_input_scan_staged(tx: Tx, seen: Seq<Txid>, set: Set<Outpoint>, inputs: Seq<TxIn>)
    requires
        spends_distinct(inputs),
        tx.fee is Some || forall|k: int| 0 <= k < inputs.len() ==> spent_outpoint(#[trigger] inputs[k]) is None,
    ensures
        ({
            let r = input_scan(tx, seen, set, inputs);
            &&& forall|op: Outpoint| #[trigger] r.2.contains(op) ==> set.contains(op)
            &&& forall|op: Outpoint| !inputs_spend(inputs, op) ==> (#[trigger] r.2.contains(op) == set.contains(op))
            &&& !r.3 ==> forall|op: Outpoint| #[trigger] r.2.contains(op) == (set.contains(op) && !inputs_spend(inputs, op))
            &&& r.3 ==> (r.1 || r.2 == Set::<Outpoint>::empty())
            &&& r.1 <==> (may_spend_dust(tx) && exists|op: Outpoint| inputs_spend(inputs, op) && #[trigger] set.contains(op))
        }),
    decreases inputs.len(),
{
    if inputs.len() > 0 {
        let pre = inputs.drop_last();
        let last = inputs.last();
        assert forall|k1: int, k2: int|
            0 <= k1 < pre.len() && 0 <= k2 < pre.len() && k1 != k2 && spent_outpoint(pre[k1]) is Some
            implies spent_outpoint(#[trigger] pre[k1]) != spent_outpoint(#[trigger] pre[k2]) by {
            assert(pre[k1] == inputs[k1] && pre[k2] == inputs[k2]);
        }
        assert(tx.fee is Some || forall|k: int| 0 <= k < pre.len() ==> spent_outpoint(#[trigger] pre[k]) is None) by {
            if !(tx.fee is Some) {
                assert forall|k: int| 0 <= k < pre.len() implies spent_outpoint(#[trigger] pre[k]) is None by {
                    assert(pre[k] == inputs[k]);
                }
            }
        }
        lemma_input_scan_staged(tx, seen, set, pre);
        lemma_inputs_spend_push(inputs);
        let st = input_scan(tx, seen, set, pre);
        let r = input_scan(tx, seen, set, inputs);
        assert(r == input_scan_step(tx, seen, st, last));
        assert(last == inputs[inputs.len() - 1]);
        if let Some(opl) = spent_outpoint(last) {
            assert(!inputs_spend(pre, opl)) by {
                if inputs_spend(pre, opl) {
                    let k = choose|k: int| 0 <= k < pre.len() && spent_outpoint(#[trigger] pre[k]) == Some(opl);
                    assert(pre[k] == inputs[k]);
                }
            }
            assert(tx.fee is Some);
            if !st.3 {
                assert(st.2.contains(opl) == set.contains(opl));
            } else {
                if set.contains(opl) {
                    assert(st.2.contains(opl));
                }
            }
        }
        if r.1 {
            if st.1 {
                let op = choose|op: Outpoint| inputs_spend(pre, op) && #[trigger] set.contains(op);
                assert(inputs_spend(inputs, op));
            } else {
                assert(inputs_spend(inputs, spent_outpoint(last)->0));
            }
        }
        if may_spend_dust(tx) && exists|op: Outpoint| inputs_spend(inputs, op) && #[trigger] set.contains(op) {
            let op = choose|op: Outpoint| inputs_spend(inputs, op) && #[trigger] set.contains(op);
            if inputs_spend(pre, op) {
                assert(st.1);
            }
        }
    }
}

/// In a sequence of transactions spending every outpoint at most once, each transaction that
/// spends an outpoint having a fee: the ephemeral-dust count of the scan is the number of
/// transactions that may spend dust and spend the dust output staged by an earlier one; the
/// outputs still staged were staged by one of the transactions, and every staged output not
/// yet spent is still staged.
pub proof fn lemma_dust_scan_counts_dust_spenders(pairs: Seq<TxPair>)
    requires
        spends_each_outpoint_once(pairs),
        spenders_have_fees(pairs),
    ensures
        dust_scan(pairs).1 == count_dust_spenders(pairs),
        forall|op: Outpoint| #[trigger] dust_scan(pairs).2.contains(op) ==> staged_by_one_of(pairs, op),
        forall|op: Outpoint|
            staged_by_one_of(pairs, op) && !spent_by_one_of(pairs, op) ==> #[trigger] dust_scan(
                pairs,
            ).2.contains(op),
    decreases pairs.len(),
{
    if pairs.len() > 0 {
        let pre = pairs.drop_last();
        let n = pairs.len() - 1;
        let tx = pairs.last().0;
        assert(tx == pairs[n].0);
        assert forall|i: int| 0 <= i < pre.len() implies #[trigger] pre[i] == pairs[i] by {}
        assert forall|i1: int, i2: int, op: Outpoint|
            #![trigger inputs_spend(pre[i1].0.input@, op), inputs_spend(pre[i2].0.input@, op)]
            0 <= i1 < i2 < pre.len() && inputs_spend(pre[i1].0.input@, op) implies !inputs_spend(
                pre[i2].0.input@,
                op,
            ) by {
            assert(pre[i1] == pairs[i1] && pre[i2] == pairs[i2]);
        }
        assert forall|i: int| 0 <= i < pre.len() implies spends_distinct(#[trigger] pre[i].0.input@) by {
            assert(pre[i] == pairs[i]);
        }
        assert forall|i: int, k: int|
            0 <= i < pre.len() && 0 <= k < pre[i].0.input@.len() && spent_outpoint(
                #[trigger] pre[i].0.input@[k],
            ) is Some implies pre[i].0.fee is Some by {
            assert(pre[i] == pairs[i]);
        }
        lemma_dust_scan_counts_dust_spenders(pre);
        let prev = dust_scan(pre);
        let seen = pre.map_values(|p: TxPair| p.0.txid);
        assert(spends_distinct(pairs[n].0.input@));
        assert(tx.fee is Some || forall|k: int| 0 <= k < tx.input@.len() ==> spent_outpoint(#[trigger] tx.input@[k]) is None) by {
            if !(tx.fee is Some) {
                assert forall|k: int| 0 <= k < tx.input@.len() implies spent_outpoint(#[trigger] tx.input@[k]) is None by {
                    assert(tx.input@[k] == pairs[n].0.input@[k]);
                }
            }
        }
        lemma_input_scan_staged(tx, seen, prev.2, tx.input@);
        let r = input_scan(tx, seen, prev.2, tx.input@);
        // An outpoint the last transaction spends is spent by none before it.
        assert forall|op: Outpoint| inputs_spend(tx.input@, op) implies !spent_by_one_of(pre, op) by {
            if spent_by_one_of(pre, op) {
                let i = choose|i: int| 0 <= i < pre.len() && inputs_spend(#[trigger] pre[i].0.input@, op);
                assert(inputs_spend(pairs[i].0.input@, op));
                assert(inputs_spend(pairs[n].0.input@, op));
            }
        }
        assert(r.1 == spends_dust_staged_by(tx, pre)) by {
            if r.1 {
                let op = choose|op: Outpoint| inputs_spend(tx.input@, op) && #[trigger] prev.2.contains(op);
                assert(staged_by_one_of(pre, op));
            }
            if spends_dust_staged_by(tx, pre) {
                let op = choose|op: Outpoint| inputs_spend(tx.input@, op) && #[trigger] staged_by_one_of(pre, op);
                assert(prev.2.contains(op));
            }
        }
        let set = dust_scan(pairs).2;
        assert(set == staged_ephemeral_dust(tx, r.2));
        assert forall|op: Outpoint| #[trigger] set.contains(op) implies staged_by_one_of(pairs, op) by {
            if r.2.contains(op) {
                let j = choose|j: int| 0 <= j < pre.len() && staged_dust(#[trigger] pre[j].0) == Some(op);
                assert(pairs[j] == pre[j]);
            } else {
                assert(staged_dust(pairs[n].0) == Some(op));
            }
        }
        assert forall|op: Outpoint|
            staged_by_one_of(pairs, op) && !spent_by_one_of(pairs, op) implies #[trigger] set.contains(op) by {
            let j = choose|j: int| 0 <= j < pairs.len() && staged_dust(#[trigger] pairs[j].0) == Some(op);
            if j < n {
                assert(pre[j] == pairs[j]);
                assert(staged_by_one_of(pre, op));
                assert(!spent_by_one_of(pre, op)) by {
                    if spent_by_one_of(pre, op) {
                        let i = choose|i: int| 0 <= i < pre.len() && inputs_spend(#[trigger] pre[i].0.input@, op);
                        assert(pairs[i] == pre[i]);
                    }
                }
                assert(!inputs_spend(tx.input@, op));
                assert(r.2.contains(op));
            }
        }
    }
}

/// Whether scanning the inputs reads the transaction's fee: some input, before the scan
/// stops, takes staged dust while the transaction has version 3.
pub open spec fn input_scan_reads_fee(tx: Tx, seen: Seq<Txid>, set: Set<Outpoint>, inputs: Seq<TxIn>) -> bool
    decreases inputs.len(),
{
    if inputs.len() == 0 {
        false
    } else {
        let st = input_scan(tx, seen, set, inputs.drop_last());
        input_scan_reads_fee(tx, seen, set, inputs.drop_last()) || (!st.3 && tx.version == 3
            && match inputs.last().data {
            InputData::NonCoinbase { txid, vout, .. } => st.2.contains((txid, vout)),
            InputData::Coinbase => false,
        })
    }
}

/// Whether the scan of a prefix of the block's transactions reads the fee of a transaction
/// that has none.
pub open spec fn dust_scan_reads_missing_fee(pairs: Seq<TxPair>) -> bool
    decreases pairs.len(),
{
    if pairs.len() == 0 {
        false
    } else {
        let pre = pairs.drop_last();
        let tx = pairs.last().0;
        let seen = pre.map_values(|p: TxPair| p.0.txid);
        dust_scan_reads_missing_fee(pre) || (tx.fee is None && input_scan_reads_fee(
            tx,
            seen,
            dust_scan(pre).2,
            tx.input@,
        ))
    }
}

/// A transaction together with its script analysis.
pub type TxPair = (Tx, TxSummary);

pub open spec fn tx_version_is(v: i32) -> spec_fn(TxPair) -> bool {
    |p: TxPair| p.0.version == v
}

pub open spec fn tx_version_other() -> spec_fn(TxPair) -> bool {
    |p: TxPair| p.0.version != 1 && p.0.version != 2 && p.0.version != 3
}

pub open spec fn tx_output_value() -> spec_fn(TxPair) -> int {
    |p: TxPair| output_value_total(p.1.output_infos@)
}

pub open spec fn tx_spends_segwit() -> spec_fn(TxPair) -> bool {
    |p: TxPair| p.1.spec_spending_segwit()
}

pub open spec fn tx_spends_native_segwit() -> spec_fn(TxPair) -> bool {
    |p: TxPair| p.1.spec_spending_segwit() && p.1.spec_spending_native_segwit()
}

pub open spec fn tx_spends_nested_segwit() -> spec_fn(TxPair) -> bool {
    |p: TxPair| p.1.spec_spending_segwit() && p.1.spec_spending_nested_segwit()
}

pub open spec fn tx_spends_taproot() -> spec_fn(TxPair) -> bool {
    |p: TxPair| p.1.spec_spending_segwit() && p.1.spec_spending_taproot()
}

pub open spec fn tx_spends_segwit_and_legacy() -> spec_fn(TxPair) -> bool {
    |p: TxPair| p.1.spec_spending_segwit_and_legacy()
}

pub open spec fn tx_spends_only_legacy() -> spec_fn(TxPair) -> bool {
    |p: TxPair| p.1.spec_only_legacy()
}

pub open spec fn tx_spends_only_segwit() -> spec_fn(TxPair) -> bool {
    |p: TxPair| !p.1.spec_only_legacy() && p.1.spec_only_segwit()
}

pub open spec fn tx_spends_only_taproot() -> spec_fn(TxPair) -> bool {
    |p: TxPair| !p.1.spec_only_legacy() && p.1.spec_only_segwit() && p.1.spec_only_taproot()
}

pub open spec fn tx_bip69() -> spec_fn(TxPair) -> bool {
    |p: TxPair| p.1.is_bip69_compliant
}

pub open spec fn tx_signals_rbf() -> spec_fn(TxPair) -> bool {
    |p: TxPair| p.1.spec_signals_rbf()
}

pub open spec fn tx_one_input() -> spec_fn(TxPair) -> bool {
    |p: TxPair| p.0.input@.len() == 1
}

pub open spec fn tx_one_output() -> spec_fn(TxPair) -> bool {
    |p: TxPair| p.0.output@.len() == 1
}

pub open spec fn tx_one_input_one_output() -> spec_fn(TxPair) -> bool {
    |p: TxPair| p.0.input@.len() == 1 && p.0.output@.len() == 1
}

pub open spec fn tx_one_input_two_outputs() -> spec_fn(TxPair) -> bool {
    |p: TxPair| p.0.input@.len() == 1 && p.0.output@.len() == 2
}

pub open spec fn tx_timelock_height() -> spec_fn(TxPair) -> bool {
    |p: TxPair| spec_is_block_height(p.0.lock_time) && p.0.lock_time > 0
}

pub open spec fn tx_timelock_timestamp() -> spec_fn(TxPair) -> bool {
    |p: TxPair|
        !(spec_is_block_height(p.0.lock_time) && p.0.lock_time > 0) && spec_is_block_time(
            p.0.lock_time,
        )
}

pub open spec fn tx_timelock_not_enforced() -> spec_fn(TxPair) -> bool {
    |p: TxPair| p.0.lock_time > 0 && !p.0.spec_is_lock_time_enabled()
}

pub open spec fn tx_timelock_too_high(height: i64) -> spec_fn(TxPair) -> bool {
    |p: TxPair| spec_is_block_height(p.0.lock_time) && p.0.lock_time > (height as u32)
}

/// The statistics over a sequence of transaction pairs.
pub open spec fn tx_stats_over(height: i64, date: String, ps: Seq<TxPair>) -> TxStats {
    let scan = dust_scan(ps);
    TxStats {
        height,
        date,
        tx_version_1: count_where(ps, tx_version_is(1)) as i32,
        tx_version_2: count_where(ps, tx_version_is(2)) as i32,
        tx_version_3: count_where(ps, tx_version_is(3)) as i32,
        tx_version_unknown: count_where(ps, tx_version_other()) as i32,
        tx_output_amount: sum_of(ps, tx_output_value()) as i64,
        tx_spending_segwit: count_where(ps, tx_spends_segwit()) as i32,
        tx_spending_only_segwit: count_where(ps, tx_spends_only_segwit()) as i32,
        tx_spending_only_legacy: count_where(ps, tx_spends_only_legacy()) as i32,
        tx_spending_only_taproot: count_where(ps, tx_spends_only_taproot()) as i32,
        tx_spending_segwit_and_legacy: count_where(ps, tx_spends_segwit_and_legacy()) as i32,
        tx_spending_nested_segwit: count_where(ps, tx_spends_nested_segwit()) as i32,
        tx_spending_native_segwit: count_where(ps, tx_spends_native_segwit()) as i32,
        tx_spending_taproot: count_where(ps, tx_spends_taproot()) as i32,
        tx_bip69_compliant: count_where(ps, tx_bip69()) as i32,
        tx_signaling_explicit_rbf: count_where(ps, tx_signals_rbf()) as i32,
        tx_1_input: count_where(ps, tx_one_input()) as i32,
        tx_1_output: count_where(ps, tx_one_output()) as i32,
        tx_1_input_1_output: count_where(ps, tx_one_input_one_output()) as i32,
        tx_1_input_2_output: count_where(ps, tx_one_input_two_outputs()) as i32,
        tx_spending_newly_created_utxos: scan.0 as i32,
        tx_spending_ephemeral_dust: scan.1 as i32,
        tx_timelock_height: count_where(ps, tx_timelock_height()) as i32,
        tx_timelock_timestamp: count_where(ps, tx_timelock_timestamp()) as i32,
        tx_timelock_not_enforced: count_where(ps, tx_timelock_not_enforced()) as i32,
        tx_timelock_too_high: count_where(ps, tx_timelock_too_high(height)) as i32,
    }
}

/// The transaction statistics of a block.
pub open spec fn spec_tx_stats(block: Block, date: String, infos: Seq<TxSummary>) -> TxStats {
    tx_stats_over(block.height, date, tx_pairs(block, infos))
}

/// What `TxStats::from_block` needs of its arguments so that no counter overflows and no
/// fee is missing where it is read.
pub open spec fn tx_stats_fits(block: Block, infos: Seq<TxSummary>) -> bool {
    let ps = tx_pairs(block, infos);
    &&& ps.len() <= i32::MAX
    &&& sum_of(ps, tx_output_value()) <= i64::MAX
    &&& forall|i: int|
        0 <= i < ps.len() ==> #[trigger] ps[i].1.output_infos@.len() <= u32::MAX
    &&& forall|i: int, j: int|
        0 <= i < ps.len() && 0 <= j < ps[i].0.output@.len() ==> (#[trigger] ps[i].0.output@[j]).script@.len()
            < 1_000_000_000_000
    &&& !dust_scan_reads_missing_fee(ps)
}

/// The scan counts no more transactions than it has seen.
pub proof fn lemma_dust_scan_bounded(pairs: Seq<TxPair>)
    ensures
        dust_scan(pairs).0 <= pairs.len(),
        dust_scan(pairs).1 <= pairs.len(),
    decreases pairs.len(),
{
    if pairs.len() > 0 {
        lemma_dust_scan_bounded(pairs.drop_last());
    }
}

/// A stopped scan stays as it is.
proof fn lemma_input_scan_stopped(tx: Tx, seen: Seq<Txid>, set: Set<Outpoint>, inputs: Seq<TxIn>, k: int)
    requires
        0 <= k <= inputs.len(),
        input_scan(tx, seen, set, inputs.take(k)).3,
    ensures
        input_scan(tx, seen, set, inputs) == input_scan(tx, seen, set, inputs.take(k)),
    decreases inputs.len() - k,
{
    if k < inputs.len() {
        assert(inputs.take(k + 1).drop_last() =~= inputs.take(k));
        lemma_input_scan_stopped(tx, seen, set, inputs, k + 1);
    } else {
        assert(inputs.take(k) =~= inputs);
    }
}

/// A stopped scan reads no more fees.
proof fn lemma_reads_fee_stopped(tx: Tx, seen: Seq<Txid>, set: Set<Outpoint>, inputs: Seq<TxIn>, k: int)
    requires
        0 <= k <= inputs.len(),
        input_scan(tx, seen, set, inputs.take(k)).3,
    ensures
        input_scan_reads_fee(tx, seen, set, inputs) == input_scan_reads_fee(tx, seen, set, inputs.take(k)),
    decreases inputs.len() - k,
{
    if k < inputs.len() {
        assert(inputs.take(k + 1).drop_last() =~= inputs.take(k));
        lemma_input_scan_stopped(tx, seen, set, inputs.take(k + 1), k);
        assert(inputs.take(k + 1).take(k) =~= inputs.take(k));
        lemma_reads_fee_stopped(tx, seen, set, inputs, k + 1);
    } else {
        assert(inputs.take(k) =~= inputs);
    }
}

/// A scan that reads the fee over a prefix of the inputs reads it over all of them.
proof fn lemma_reads_fee_prefix(tx: Tx, seen: Seq<Txid>, set: Set<Outpoint>, inputs: Seq<TxIn>, k: int)
    requires
        0 <= k <= inputs.len(),
        input_scan_reads_fee(tx, seen, set, inputs.take(k)),
    ensures
        input_scan_reads_fee(tx, seen, set, inputs),
    decreases inputs.len() - k,
{
    if k < inputs.len() {
        assert(inputs.take(k + 1).drop_last() =~= inputs.take(k));
        lemma_reads_fee_prefix(tx, seen, set, inputs, k + 1);
    } else {
        assert(inputs.take(k) =~= inputs);
    }
}

/// A scan of a prefix of the transactions that reads a missing fee is one of all of them.
proof fn lemma_missing_fee_prefix(pairs: Seq<TxPair>, k: int)
    requires
        0 <= k <= pairs.len(),
        dust_scan_reads_missing_fee(pairs.take(k)),
    ensures
        dust_scan_reads_missing_fee(pairs),
    decreases pairs.len() - k,
{
    if k < pairs.len() {
        assert(pairs.take(k + 1).drop_last() =~= pairs.take(k));
        lemma_missing_fee_prefix(pairs, k + 1);
    } else {
        assert(pairs.take(k) =~= pairs);
    }
}

/// Where the scan of all transactions reads no missing fee, neither does the scan of the
/// inputs of any one of them.
proof fn lemma_fee_read_only_when_present(ps: Seq<TxPair>, t: int)
    requires
        0 <= t < ps.len(),
        !dust_scan_reads_missing_fee(ps),
    ensures
        ({
            let pre = ps.take(t);
            let tx = ps[t].0;
            tx.fee is None ==> !input_scan_reads_fee(
                tx,
                pre.map_values(|p: TxPair| p.0.txid),
                dust_scan(pre).2,
                tx.input@,
            )
        }),
{
    let next = ps.take(t + 1);
    assert(next.drop_last() =~= ps.take(t));
    assert(next.last() == ps[t]);
    if dust_scan_reads_missing_fee(next) {
        lemma_missing_fee_prefix(ps, t + 1);
    }
}

/// Whether one of the first `t` transactions of the block has this id.
fn txid_among_first(block: &Block, t: usize, txid: Txid) -> (r: bool)
    requires
        t <= block.txdata@.len(),
    ensures
        r == block.txdata@.take(t as int).map_values(|x: Tx| x.txid).contains(txid),
{
    let ghost ids = block.txdata@.take(t as int).map_values(|x: Tx| x.txid);
    for j in 0..t
        invariant
            t <= block.txdata@.len(),
            ids == block.txdata@.take(t as int).map_values(|x: Tx| x.txid),
            forall|k: int| 0 <= k < j ==> ids[k] != txid,
    {
        if block.txdata[j].txid == txid {
            assert(ids[j as int] == txid);
            return true;
        }
    }
    false
}

/// The outputs whose value is below their threshold (`thresholds[k]` for output `k`), as
/// outpoints of the transaction `txid`, in output order.
pub open spec fn outputs_below(txid: Txid, outputs: Seq<TxOut>, thresholds: Seq<u64>) -> Seq<Outpoint>
    decreases outputs.len(),
{
    if outputs.len() == 0 {
        Seq::empty()
    } else {
        let rest = outputs_below(txid, outputs.drop_last(), thresholds);
        let o = outputs.last();
        if o.value < thresholds[outputs.len() - 1] {
            rest.push((txid, o.n))
        } else {
            rest
        }
    }
}

/// With each output's dust threshold as its threshold, the outputs below their thresholds are
/// the dust outputs.
proof fn lemma_dust_as_outputs_below(txid: Txid, outputs: Seq<TxOut>, thresholds: Seq<u64>)
    requires
        thresholds.len() >= outputs.len(),
        forall|k: int|
            0 <= k < outputs.len() ==> #[trigger] thresholds[k] == minimal_non_dust_of(outputs[k].script@),
    ensures
        outputs_below(txid, outputs, thresholds) == dust_outpoints(txid, outputs),
    decreases outputs.len(),
{
    if outputs.len() > 0 {
        let pre = outputs.drop_last();
        assert forall|k: int| 0 <= k < pre.len() implies #[trigger] thresholds[k]
            == minimal_non_dust_of(pre[k].script@) by {
            assert(pre[k] == outputs[k]);
        }
        lemma_dust_as_outputs_below(txid, pre, thresholds);
        assert(thresholds[outputs.len() - 1] == minimal_non_dust_of(outputs[outputs.len() - 1].script@));
    }
}

/// The outputs of transaction `txid` whose value is below their threshold (`thresholds[k]`
/// for output `k`), as outpoints, in output order.
pub fn dust_outputs(txid: Txid, outputs: &[TxOut], thresholds: &[u64]) -> (r: Vec<Outpoint>)
    requires
        thresholds@.len() >= outputs@.len(),
    ensures
        r@ == outputs_below(txid, outputs@, thresholds@),
{
    let mut below: Vec<Outpoint> = Vec::new();
    let n = outputs.len();
    for j in 0..n
        invariant
            n == outputs@.len(),
            thresholds@.len() >= n,
            below@ == outputs_below(txid, outputs@.take(j as int), thresholds@),
    {
        proof {
            lemma_take_push(outputs@, j as int);
            assert(outputs@.take(j + 1).drop_last() =~= outputs@.take(j as int));
        }
        if outputs[j].value < thresholds[j] {
            below.push((txid, outputs[j].n));
        }
    }
    proof {
        assert(outputs@.take(n as int) =~= outputs@);
    }
    below
}

/// The dust outputs of a transaction, as outpoints: each output's value is held against the
/// dust threshold of its script.
fn collect_dust_outpoints(tx: &Tx) -> (r: Vec<Outpoint>)
    requires
        forall|j: int| 0 <= j < tx.output@.len() ==> (#[trigger] tx.output@[j]).script@.len()
            < 1_000_000_000_000,
    ensures
        r@ == dust_outpoints(tx.txid, tx.output@),
{
    let mut thresholds: Vec<u64> = Vec::new();
    let n = tx.output.len();
    for j in 0..n
        invariant
            n == tx.output@.len(),
            forall|k: int| 0 <= k < tx.output@.len() ==> (#[trigger] tx.output@[k]).script@.len()
                < 1_000_000_000_000,
            thresholds@.len() == j,
            forall|k: int|
                0 <= k < j ==> #[trigger] thresholds@[k] == minimal_non_dust_of(tx.output@[k].script@),
    {
        thresholds.push(minimal_non_dust(tx.output[j].script.as_slice()));
    }
    proof {
        lemma_dust_as_outputs_below(tx.txid, tx.output@, thresholds@);
    }
    dust_outputs(tx.txid, tx.output.as_slice(), thresholds.as_slice())
}

/// Counts one transaction by version and adds its output value.
fn add_version_counts(
    v1: &mut i32,
    v2: &mut i32,
    v3: &mut i32,
    vu: &mut i32,
    amount: &mut i64,
    tx: &Tx,
    info: &TxSummary,
    Ghost(pre): Ghost<Seq<TxPair>>,
)
    requires
        pre.len() < i32::MAX,
        *old(v1) == count_where(pre, tx_version_is(1)) as i32,
        *old(v2) == count_where(pre, tx_version_is(2)) as i32,
        *old(v3) == count_where(pre, tx_version_is(3)) as i32,
        *old(vu) == count_where(pre, tx_version_other()) as i32,
        *old(amount) == sum_of(pre, tx_output_value()) as i64,
        0 <= sum_of(pre, tx_output_value()),
        sum_of(pre.push((*tx, *info)), tx_output_value()) <= i64::MAX,
    ensures
        *final(v1) == count_where(pre.push((*tx, *info)), tx_version_is(1)) as i32,
        *final(v2) == count_where(pre.push((*tx, *info)), tx_version_is(2)) as i32,
        *final(v3) == count_where(pre.push((*tx, *info)), tx_version_is(3)) as i32,
        *final(vu) == count_where(pre.push((*tx, *info)), tx_version_other()) as i32,
        *final(amount) == sum_of(pre.push((*tx, *info)), tx_output_value()) as i64,
{
    proof {
        lemma_output_value_total_nonneg(info.output_infos@);
    }
    if tx.version == 1 {
        *v1 = *v1 + 1;
    } else if tx.version == 2 {
        *v2 = *v2 + 1;
    } else if tx.version == 3 {
        *v3 = *v3 + 1;
    } else {
        *vu = *vu + 1;
    }
    *amount = *amount + info.output_value_sum() as i64;
}

/// Counts one transaction by the kinds of outputs it spends, BIP-69 ordering and RBF signaling.
fn add_spending_counts(
    segwit: &mut i32,
    native: &mut i32,
    nested: &mut i32,
    taproot: &mut i32,
    segwit_and_legacy: &mut i32,
    only_legacy: &mut i32,
    only_segwit: &mut i32,
    only_taproot: &mut i32,
    bip69: &mut i32,
    rbf: &mut i32,
    tx: &Tx,
    info: &TxSummary,
    Ghost(pre): Ghost<Seq<TxPair>>,
)
    requires
        pre.len() < i32::MAX,
        *old(segwit) == count_where(pre, tx_spends_segwit()) as i32,
        *old(native) == count_where(pre, tx_spends_native_segwit()) as i32,
        *old(nested) == count_where(pre, tx_spends_nested_segwit()) as i32,
        *old(taproot) == count_where(pre, tx_spends_taproot()) as i32,
        *old(segwit_and_legacy) == count_where(pre, tx_spends_segwit_and_legacy()) as i32,
        *old(only_legacy) == count_where(pre, tx_spends_only_legacy()) as i32,
        *old(only_segwit) == count_where(pre, tx_spends_only_segwit()) as i32,
        *old(only_taproot) == count_where(pre, tx_spends_only_taproot()) as i32,
        *old(bip69) == count_where(pre, tx_bip69()) as i32,
        *old(rbf) == count_where(pre, tx_signals_rbf()) as i32,
    ensures
        *final(segwit) == count_where(pre.push((*tx, *info)), tx_spends_segwit()) as i32,
        *final(native) == count_where(pre.push((*tx, *info)), tx_spends_native_segwit()) as i32,
        *final(nested) == count_where(pre.push((*tx, *info)), tx_spends_nested_segwit()) as i32,
        *final(taproot) == count_where(pre.push((*tx, *info)), tx_spends_taproot()) as i32,
        *final(segwit_and_legacy) == count_where(
            pre.push((*tx, *info)),
            tx_spends_segwit_and_legacy(),
        ) as i32,
        *final(only_legacy) == count_where(pre.push((*tx, *info)), tx_spends_only_legacy()) as i32,
        *final(only_segwit) == count_where(pre.push((*tx, *info)), tx_spends_only_segwit()) as i32,
        *final(only_taproot) == count_where(pre.push((*tx, *info)), tx_spends_only_taproot())
            as i32,
        *final(bip69) == count_where(pre.push((*tx, *info)), tx_bip69()) as i32,
        *final(rbf) == count_where(pre.push((*tx, *info)), tx_signals_rbf()) as i32,
{
    if info.is_spending_segwit() {
        *segwit = *segwit + 1;
        if info.is_spending_native_segwit() {
            *native = *native + 1;
        }
        if info.is_spending_nested_segwit() {
            *nested = *nested + 1;
        }
        if info.is_spending_taproot() {
            *taproot = *taproot + 1;
        }
    }
    if info.is_spending_segwit_and_legacy() {
        *segwit_and_legacy = *segwit_and_legacy + 1;
    }
    if info.is_only_spending_legacy() {
        *only_legacy = *only_legacy + 1;
    } else if info.is_only_spending_segwit() {
        *only_segwit = *only_segwit + 1;
        if info.is_only_spending_taproot() {
            *only_taproot = *only_taproot + 1;
        }
    }
    if info.is_bip69_compliant() {
        *bip69 = *bip69 + 1;
    }
    if info.is_signaling_explicit_rbf_replicability() {
        *rbf = *rbf + 1;
    }
}

/// Counts one transaction by its numbers of inputs and outputs.
fn add_shape_counts(
    one_in: &mut i32,
    one_out: &mut i32,
    one_in_one_out: &mut i32,
    one_in_two_out: &mut i32,
    tx: &Tx,
    info: &TxSummary,
    Ghost(pre): Ghost<Seq<TxPair>>,
)
    requires
        pre.len() < i32::MAX,
        *old(one_in) == count_where(pre, tx_one_input()) as i32,
        *old(one_out) == count_where(pre, tx_one_output()) as i32,
        *old(one_in_one_out) == count_where(pre, tx_one_input_one_output()) as i32,
        *old(one_in_two_out) == count_where(pre, tx_one_input_two_outputs()) as i32,
    ensures
        *final(one_in) == count_where(pre.push((*tx, *info)), tx_one_input()) as i32,
        *final(one_out) == count_where(pre.push((*tx, *info)), tx_one_output()) as i32,
        *final(one_in_one_out) == count_where(pre.push((*tx, *info)), tx_one_input_one_output())
            as i32,
        *final(one_in_two_out) == count_where(pre.push((*tx, *info)), tx_one_input_two_outputs())
            as i32,
{
    if tx.input.len() == 1 {
        *one_in = *one_in + 1;
        if tx.output.len() == 1 {
            *one_in_one_out = *one_in_one_out + 1;
        } else if tx.output.len() == 2 {
            *one_in_two_out = *one_in_two_out + 1;
        }
    }
    if tx.output.len() == 1 {
        *one_out = *one_out + 1;
    }
}

/// Counts one transaction by the use of its lock time.
fn add_lock_time_counts(
    by_height: &mut i32,
    by_timestamp: &mut i32,
    not_enforced: &mut i32,
    too_high: &mut i32,
    tx: &Tx,
    info: &TxSummary,
    height: i64,
    Ghost(pre): Ghost<Seq<TxPair>>,
)
    requires
        pre.len() < i32::MAX,
        *old(by_height) == count_where(pre, tx_timelock_height()) as i32,
        *old(by_timestamp) == count_where(pre, tx_timelock_timestamp()) as i32,
        *old(not_enforced) == count_where(pre, tx_timelock_not_enforced()) as i32,
        *old(too_high) == count_where(pre, tx_timelock_too_high(height)) as i32,
    ensures
        *final(by_height) == count_where(pre.push((*tx, *info)), tx_timelock_height()) as i32,
        *final(by_timestamp) == count_where(pre.push((*tx, *info)), tx_timelock_timestamp()) as i32,
        *final(not_enforced) == count_where(pre.push((*tx, *info)), tx_timelock_not_enforced())
            as i32,
        *final(too_high) == count_where(pre.push((*tx, *info)), tx_timelock_too_high(height))
            as i32,
{
    let lock_time = tx.lock_time;
    if lock_time_is_block_height(lock_time) && lock_time > 0 {
        *by_height = *by_height + 1;
    } else if lock_time_is_block_time(lock_time) {
        *by_timestamp = *by_timestamp + 1;
    }
    if lock_time > 0 && !tx.is_lock_time_enabled() {
        *not_enforced = *not_enforced + 1;
    }
    if lock_time_is_block_height(lock_time) && lock_time > height as u32 {
        *too_high = *too_high + 1;
    }
}

impl TxStats {
    /// Counts the transactions of a block by version, spent output types, input and output
    /// counts, lock time use, and the spending of outputs created in the same block and of
    /// ephemeral dust. `tx_infos[i]` is the script analysis of `block.txdata[i]`; only as many
    /// transactions are counted as both hold.
    pub fn from_block(block: &Block, date: String, tx_infos: &[TxSummary]) -> (r: TxStats)
        requires
            tx_stats_fits(*block, tx_infos@),
        ensures
            r == spec_tx_stats(*block, date, tx_infos@),
    {
        let height = block.height;
        let n = if block.txdata.len() <= tx_infos.len() {
            block.txdata.len()
        } else {
            tx_infos.len()
        };
        let ghost ps = tx_pairs(*block, tx_infos@);
        let ghost date0 = date;
        let mut s = TxStats {
            height,
            date,
            tx_version_1: 0,
            tx_version_2: 0,
            tx_version_3: 0,
            tx_version_unknown: 0,
            tx_output_amount: 0,
            tx_spending_segwit: 0,
            tx_spending_only_segwit: 0,
            tx_spending_only_legacy: 0,
            tx_spending_only_taproot: 0,
            tx_spending_segwit_and_legacy: 0,
            tx_spending_nested_segwit: 0,
            tx_spending_native_segwit: 0,
            tx_spending_taproot: 0,
            tx_bip69_compliant: 0,
            tx_signaling_explicit_rbf: 0,
            tx_1_input: 0,
            tx_1_output: 0,
            tx_1_input_1_output: 0,
            tx_1_input_2_output: 0,
            tx_spending_newly_created_utxos: 0,
            tx_spending_ephemeral_dust: 0,
            tx_timelock_height: 0,
            tx_timelock_timestamp: 0,
            tx_timelock_not_enforced: 0,
            tx_timelock_too_high: 0,
        };
        let mut dust: Vec<Outpoint> = Vec::new();
        proof {
            assert(ps.take(0) =~= Seq::<TxPair>::empty());
            assert(dust@.to_set() =~= Set::<Outpoint>::empty());
        }
        for t in 0..n
            invariant
                n == ps.len(),
                ps == tx_pairs(*block, tx_infos@),
                height == block.height,
                tx_stats_fits(*block, tx_infos@),
                s == tx_stats_over(height, date0, ps.take(t as int)),
                dust@.no_duplicates(),
                dust@.to_set() == dust_scan(ps.take(t as int)).2,
        {
            let tx = &block.txdata[t];
            let info = &tx_infos[t];
            let ghost pre = ps.take(t as int);
            proof {
                lemma_take_push(ps, t as int);
                assert(ps[t as int] == (*tx, *info));
                lemma_dust_scan_bounded(pre);
                lemma_sum_of_concat(ps.take(t + 1), ps.skip(t + 1), tx_output_value());
                assert(ps.take(t + 1) + ps.skip(t + 1) =~= ps);
                assert forall|p: TxPair| 0 <= #[trigger] output_value_total(p.1.output_infos@) by {
                    lemma_output_value_total_nonneg(p.1.output_infos@);
                }
                crate::seqs::lemma_sum_of_nonneg(ps.skip(t + 1), tx_output_value());
                crate::seqs::lemma_sum_of_nonneg(pre, tx_output_value());
            }
            add_version_counts(
                &mut s.tx_version_1,
                &mut s.tx_version_2,
                &mut s.tx_version_3,
                &mut s.tx_version_unknown,
                &mut s.tx_output_amount,
                tx,
                info,
                Ghost(pre),
            );
            add_spending_counts(
                &mut s.tx_spending_segwit,
                &mut s.tx_spending_native_segwit,
                &mut s.tx_spending_nested_segwit,
                &mut s.tx_spending_taproot,
                &mut s.tx_spending_segwit_and_legacy,
                &mut s.tx_spending_only_legacy,
                &mut s.tx_spending_only_segwit,
                &mut s.tx_spending_only_taproot,
                &mut s.tx_bip69_compliant,
                &mut s.tx_signaling_explicit_rbf,
                tx,
                info,
                Ghost(pre),
            );
            add_shape_counts(
                &mut s.tx_1_input,
                &mut s.tx_1_output,
                &mut s.tx_1_input_1_output,
                &mut s.tx_1_input_2_output,
                tx,
                info,
                Ghost(pre),
            );
            add_lock_time_counts(
                &mut s.tx_timelock_height,
                &mut s.tx_timelock_timestamp,
                &mut s.tx_timelock_not_enforced,
                &mut s.tx_timelock_too_high,
                tx,
                info,
                height,
                Ghost(pre),
            );
            // spending of this block's outputs and of ephemeral dust
            let ghost set_before = dust@.to_set();
            proof {
                lemma_fee_read_only_when_present(ps, t as int);
                assert(pre.map_values(|p: TxPair| p.0.txid) =~= block.txdata@.take(t as int).map_values(
                    |x: Tx| x.txid,
                ));
            }
            let (newly, spends_dust, _) = Self::scan_inputs(block, t, &mut dust);
            let ghost set_scanned = dust@.to_set();
            if newly {
                s.tx_spending_newly_created_utxos = s.tx_spending_newly_created_utxos + 1;
            }
            if spends_dust {
                s.tx_spending_ephemeral_dust = s.tx_spending_ephemeral_dust + 1;
            }
            if tx.version == 3 && tx.fee == Some(0u64) && tx.vsize <= 10_000 {
                let staged = collect_dust_outpoints(tx);
                if staged.len() == 1 {
                    insert_outpoint(&mut dust, staged[0]);
                }
            }
            proof {
                let next = ps.take(t + 1);
                assert(next.drop_last() =~= pre);
                assert(next.last() == (*tx, *info));
                let seen = pre.map_values(|p: TxPair| p.0.txid);
                assert(seen =~= block.txdata@.take(t as int).map_values(|x: Tx| x.txid));
                let sc = input_scan(*tx, seen, set_before, tx.input@);
                assert(set_scanned == sc.2);
                assert(dust@.to_set() == staged_ephemeral_dust(*tx, set_scanned));
                assert(dust_scan(next).2 == dust@.to_set());
                assert(s.tx_spending_newly_created_utxos == dust_scan(next).0 as i32);
                assert(s.tx_spending_ephemeral_dust == dust_scan(next).1 as i32);
                assert(s == tx_stats_over(height, date0, next));
            }
        }
        proof {
            assert(ps.take(n as int) =~= ps);
        }
        s
    }

    /// Scans the inputs of transaction `t` against the transactions before it and the staged
    /// ephemeral dust, taking spent dust out of the set. Returns whether the transaction spends
    /// a transaction of this block and whether it spends ephemeral dust; the third result is
    /// whether the scan stopped at reading a fee the transaction does not have, in which case
    /// the first two are not meaningful.
    fn scan_inputs(block: &Block, t: usize, dust: &mut Vec<Outpoint>) -> (r: (bool, bool, bool))
        requires
            t < block.txdata@.len(),
            old(dust)@.no_duplicates(),
        ensures
            ({
                let tx = block.txdata@[t as int];
                let seen = block.txdata@.take(t as int).map_values(|x: Tx| x.txid);
                let sc = input_scan(tx, seen, old(dust)@.to_set(), tx.input@);
                &&& r.2 == (tx.fee is None && input_scan_reads_fee(
                    tx,
                    seen,
                    old(dust)@.to_set(),
                    tx.input@,
                ))
                &&& !r.2 ==> r.0 == sc.0 && r.1 == sc.1 && final(dust)@.to_set() == sc.2
            }),
            final(dust)@.no_duplicates(),
    {
        let tx = &block.txdata[t];
        let ghost seen = block.txdata@.take(t as int).map_values(|x: Tx| x.txid);
        let ghost set0 = dust@.to_set();
        let mut newly = false;
        let mut spends_dust = false;
        let mut stopped = false;
        let mut k: usize = 0;
        let len = tx.input.len();
        proof {
            assert(tx.input@.take(0) =~= Seq::<TxIn>::empty());
        }
        while k < len && !stopped
            invariant
                0 <= k <= len,
                len == tx.input@.len(),
                t < block.txdata@.len(),
                *tx == block.txdata@[t as int],
                seen == block.txdata@.take(t as int).map_values(|x: Tx| x.txid),
                set0 == old(dust)@.to_set(),
                dust@.no_duplicates(),
                input_scan(*tx, seen, set0, tx.input@.take(k as int)) == (
                    newly,
                    spends_dust,
                    dust@.to_set(),
                    stopped,
                ),
                tx.fee is None ==> !input_scan_reads_fee(*tx, seen, set0, tx.input@.take(k as int)),
            decreases len - k,
        {
            proof {
                lemma_take_push(tx.input@, k as int);
                assert(tx.input@.take(k + 1).drop_last() =~= tx.input@.take(k as int));
            }
            match tx.input[k].data {
                InputData::Coinbase => {},
                InputData::NonCoinbase { txid, vout, prevout } => {
                    proof {
                        assert(tx.input@[k as int].is_non_coinbase());
                    }
                    newly = newly || txid_among_first(block, t, txid);
                    let taken = take_outpoint(dust, (txid, vout));
                    if taken && tx.version == 3 {
                        match tx.fee {
                            Some(f) => {
                                spends_dust = spends_dust || (f != 0 && tx.vsize <= 1000);
                            },
                            None => {
                                proof {
                                    assert(input_scan_reads_fee(
                                        *tx,
                                        seen,
                                        set0,
                                        tx.input@.take(k + 1),
                                    ));
                                    lemma_reads_fee_prefix(*tx, seen, set0, tx.input@, k + 1);
                                }
                                return (newly, spends_dust, true);
                            },
                        }
                    }
                    proof {
                        lemma_to_set_empty(dust@);
                    }
                    if (spends_dust || dust.len() == 0) && newly {
                        stopped = true;
                    }
                },
            }
            k = k + 1;
        }
        proof {
            if stopped {
                lemma_input_scan_stopped(*tx, seen, set0, tx.input@, k as int);
                lemma_reads_fee_stopped(*tx, seen, set0, tx.input@, k as int);
            } else {
                assert(tx.input@.take(k as int) =~= tx.input@);
            }
        }
        (newly, spends_dust, false)
    }
}

/// The total output value of analyzed outputs, or `None` when it exceeds `cap`.
fn output_value_total_capped(outs: &Vec<OutputSummary>, cap: u64) -> (r: Option<u64>)
    ensures
        r matches Some(v) ==> v == output_value_total(outs@) && v <= cap,
        r is None ==> output_value_total(outs@) > cap,
{
    let n = outs.len();
    let mut total: u64 = 0;
    let ghost f = |o: OutputSummary| o.value as int;
    proof {
        assert forall|o: OutputSummary| 0 <= #[trigger] f(o) by {}
    }
    for i in 0..n
        invariant
            n == outs@.len(),
            f == (|o: OutputSummary| o.value as int),
            forall|o: OutputSummary| 0 <= #[trigger] f(o),
            total == sum_of(outs@.take(i as int), f),
            total <= cap,
    {
        proof {
            lemma_take_push(outs@, i as int);
            lemma_sum_of_prefix_le(outs@, i + 1, f);
        }
        if outs[i].value > cap - total {
            return None;
        }
        total = total + outs[i].value;
    }
    proof {
        assert(outs@.take(n as int) =~= outs@);
    }
    Some(total)
}

impl TxStats {
    /// Whether `TxStats::from_block` can compute the statistics of these arguments.
    pub fn fits(block: &Block, tx_infos: &[TxSummary]) -> (r: bool)
        ensures
            r == tx_stats_fits(*block, tx_infos@),
    {
        let n = if block.txdata.len() <= tx_infos.len() {
            block.txdata.len()
        } else {
            tx_infos.len()
        };
        let ghost ps = tx_pairs(*block, tx_infos@);
        if n > i32::MAX as usize {
            return false;
        }
        let mut dust: Vec<Outpoint> = Vec::new();
        proof {
            assert(ps.take(0) =~= Seq::<TxPair>::empty());
            assert(dust@.to_set() =~= Set::<Outpoint>::empty());
        }
        let mut amount: u64 = 0;
        proof {
            assert forall|p: TxPair| 0 <= #[trigger] tx_output_value()(p) by {
                lemma_output_value_total_nonneg(p.1.output_infos@);
            }
        }
        for t in 0..n
            invariant
                n == ps.len(),
                n <= block.txdata@.len(),
                n <= tx_infos@.len(),
                ps == tx_pairs(*block, tx_infos@),
                ps.len() <= i32::MAX,
                forall|p: TxPair| 0 <= #[trigger] tx_output_value()(p),
                amount == sum_of(ps.take(t as int), tx_output_value()),
                amount <= i64::MAX,
                forall|i: int| 0 <= i < t ==> #[trigger] ps[i].1.output_infos@.len() <= u32::MAX,
                forall|i: int, j: int|
                    0 <= i < t && 0 <= j < ps[i].0.output@.len() ==> (
                    #[trigger] ps[i].0.output@[j]).script@.len() < 1_000_000_000_000,
                dust@.no_duplicates(),
                dust@.to_set() == dust_scan(ps.take(t as int)).2,
                !dust_scan_reads_missing_fee(ps.take(t as int)),
        {
            let tx = &block.txdata[t];
            let info = &tx_infos[t];
            proof {
                assert(ps[t as int] == (*tx, *info));
                lemma_take_push(ps, t as int);
                lemma_sum_of_prefix_le(ps, t + 1, tx_output_value());
            }
            if info.output_infos.len() > u32::MAX as usize {
                assert(ps[t as int].1.output_infos@.len() > u32::MAX);
                return false;
            }
            match output_value_total_capped(&info.output_infos, i64::MAX as u64 - amount) {
                Some(v) => {
                    amount = amount + v;
                },
                None => {
                    return false;
                },
            }
            let k = tx.output.len();
            for j in 0..k
                invariant
                    k == tx.output@.len(),
                    ps == tx_pairs(*block, tx_infos@),
                    t < ps.len(),
                    ps[t as int].0 == *tx,
                    forall|q: int| 0 <= q < j ==> (#[trigger] tx.output@[q]).script@.len() < 1_000_000_000_000,
            {
                if tx.output[j].script.len() as u64 >= 1_000_000_000_000u64 {
                    assert(ps[t as int].0.output@[j as int].script@.len() >= 1_000_000_000_000);
                    return false;
                }
            }
            let ghost pre = ps.take(t as int);
            let ghost set_before = dust@.to_set();
            proof {
                assert(pre.map_values(|p: TxPair| p.0.txid) =~= block.txdata@.take(t as int).map_values(
                    |x: Tx| x.txid,
                ));
            }
            let (_, _, reads_missing_fee) = Self::scan_inputs(block, t, &mut dust);
            let ghost set_scanned = dust@.to_set();
            proof {
                let next = ps.take(t + 1);
                assert(next.drop_last() =~= pre);
                assert(next.last() == (*tx, *info));
            }
            if reads_missing_fee {
                proof {
                    lemma_missing_fee_prefix(ps, t + 1);
                }
                return false;
            }
            if tx.version == 3 && tx.fee == Some(0u64) && tx.vsize <= 10_000 {
                let staged = collect_dust_outpoints(tx);
                if staged.len() == 1 {
                    insert_outpoint(&mut dust, staged[0]);
                }
            }
            proof {
                let next = ps.take(t + 1);
                let seen = pre.map_values(|p: TxPair| p.0.txid);
                let sc = input_scan(*tx, seen, set_before, tx.input@);
                assert(set_scanned == sc.2);
                assert(dust@.to_set() == staged_ephemeral_dust(*tx, set_scanned));
                assert(dust_scan(next).2 == dust@.to_set());
            }
        }
        proof {
            assert(ps.take(n as int) =~= ps);
        }
        true
    }
}

} // verus!
