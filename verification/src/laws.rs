//! Properties that hold of the statistics of every block: how the counts partition the
//! transactions, inputs, outputs, keys and signatures they count, which counts bound others,
//! and what the pool tables are made of.

use vstd::prelude::*;
use crate::block_stats::{
    any_summary, payments_where, spec_block_stats, summary_signals_rbf, summary_spends_segwit,
    summary_spends_taproot,
};
use crate::feerate_stats::{
    band_bound, fee_of, feerate_band, in_band, max_of, min_of, non_coinbase_pairs, pays_zero_fee,
    size_of, spec_feerate_stats,
};
use crate::input_stats::{
    all_input_infos, all_inputs, input_multisig, input_type_is, input_type_is_either, input_multisig_of, input_native_segwit,
    input_nested_segwit, input_segwit, input_taproot, spec_input_stats, spends_anchor,
    spends_anchor_dust, spends_from, spends_within, input_infos_of, input_stats_over,
};
use crate::model::{Block, InputData, Tx, TxIn, TxOut, Txid};
use crate::outpoints::Outpoint;
use crate::output_stats::{
    out_coinbase_flavor, out_coinbase_is, out_coinbase_opreturn, out_flavor, out_is,
    out_is_opreturn, out_opreturn_value, out_p2a_dust, out_value_if, output_records,
    output_stats_over, spec_output_stats, OutputRecord,
};
use crate::pools::{
    antpool_group, antpool_group_ids, antpool_slot, last_pool_name, names_row,
    outside_antpool_group, row_pool_name, MiningPoolID, NO_POOL,
};
use crate::script_stats::{
    any_sig, compressed, der_invalid, der_valid, ecdsa_where, input_signatures_of, length_in,
    low_r_s, r_is_low, s_is_low, script_stats_fits, script_stats_over, sig_is, sighash_is,
    spec_script_stats,
    tx_input_pubkeys, input_pubkeys_of, output_pubkeys_of,
    tx_output_pubkeys, tx_signatures, uncompressed,
};
use crate::seqs::{
    count_where, lemma_count_where_le_len, lemma_count_where_push, lemma_sum_of_push, flat_map, lemma_count_where_mono, lemma_count_where_split, lemma_sum_of_le,
    lemma_sum_of_nonneg, sum_of,
};
use crate::tx_stats::{
    count_dust_spenders, count_spending_earlier, spenders_have_fees, spends_each_outpoint_once,
    dust_outpoints, dust_scan, input_scan, spec_tx_stats, tx_stats_over, tx_one_input, tx_one_input_one_output,
    tx_one_input_two_outputs, tx_one_output, tx_pairs, tx_spends_native_segwit,
    tx_spends_nested_segwit, tx_spends_only_legacy, tx_spends_only_segwit, tx_spends_only_taproot,
    tx_spends_segwit, tx_spends_segwit_and_legacy, tx_spends_taproot, tx_timelock_height, tx_timelock_too_high, tx_version_is, tx_bip69,
    tx_version_other, TxPair,
};
use crate::txinfo::{
    InputSummary, InputType, OpReturnKind, OutputSummary, OutputType, SignatureSummary,
    SignatureType, TxSummary,
};

verus! {

broadcast use crate::seqs::group_seqs;

proof fn lemma_versions(ps: Seq<TxPair>)
    ensures
        count_where(ps, tx_version_is(1)) + count_where(ps, tx_version_is(2)) + count_where(
            ps,
            tx_version_is(3),
        ) + count_where(ps, tx_version_other()) == ps.len(),
    decreases ps.len(),
{
    if ps.len() > 0 {
        lemma_versions(ps.drop_last());
    }
}

/// Every counted transaction has exactly one of the versions 1, 2 and 3, or another one: the
/// four version counts add up to the number of transactions.
pub proof fn law_tx_versions_partition(block: Block, date: String, infos: Seq<TxSummary>)
    requires
        tx_pairs(block, infos).len() <= i32::MAX,
    ensures
        ({
            let s = spec_tx_stats(block, date, infos);
            s.tx_version_1 + s.tx_version_2 + s.tx_version_3 + s.tx_version_unknown == tx_pairs(
                block,
                infos,
            ).len()
        }),
{
    lemma_versions(tx_pairs(block, infos));
}

/// Of the counted transactions, those spending only Taproot inputs also spend only SegWit
/// inputs; those spending nested or native SegWit, Taproot, or SegWit together with legacy
/// inputs all spend SegWit; and the single-input transactions with one or two outputs are
/// among the single-input (and single-output) ones; a lock time above the block's height is a
/// block-height lock time.
pub proof fn law_tx_counts_nested(block: Block, date: String, infos: Seq<TxSummary>)
    requires
        tx_pairs(block, infos).len() <= i32::MAX,
    ensures
        ({
            let s = spec_tx_stats(block, date, infos);
            &&& s.tx_spending_only_taproot <= s.tx_spending_only_segwit
            &&& s.tx_spending_nested_segwit <= s.tx_spending_segwit
            &&& s.tx_spending_native_segwit <= s.tx_spending_segwit
            &&& s.tx_spending_taproot <= s.tx_spending_segwit
            &&& s.tx_spending_segwit_and_legacy <= s.tx_spending_segwit
            &&& s.tx_1_input_1_output <= s.tx_1_input
            &&& s.tx_1_input_1_output <= s.tx_1_output
            &&& s.tx_1_input_2_output <= s.tx_1_input
            &&& s.tx_spending_only_legacy + s.tx_spending_only_segwit <= tx_pairs(block, infos).len()
            &&& s.tx_timelock_too_high <= s.tx_timelock_height
        }),
{
    let ps = tx_pairs(block, infos);
    assert forall|p: TxPair| #[trigger] tx_timelock_too_high(block.height)(p) implies tx_timelock_height()(
        p,
    ) by {}
    lemma_count_where_mono(ps, tx_timelock_too_high(block.height), tx_timelock_height());
    lemma_count_where_mono(ps, tx_spends_only_taproot(), tx_spends_only_segwit());
    lemma_count_where_mono(ps, tx_spends_nested_segwit(), tx_spends_segwit());
    lemma_count_where_mono(ps, tx_spends_native_segwit(), tx_spends_segwit());
    lemma_count_where_mono(ps, tx_spends_taproot(), tx_spends_segwit());
    assert forall|p: TxPair| #[trigger] tx_spends_segwit_and_legacy()(p) implies tx_spends_segwit()(
        p,
    ) by {}
    lemma_count_where_mono(ps, tx_spends_segwit_and_legacy(), tx_spends_segwit());
    lemma_count_where_mono(ps, tx_one_input_one_output(), tx_one_input());
    lemma_count_where_mono(ps, tx_one_input_one_output(), tx_one_output());
    lemma_count_where_mono(ps, tx_one_input_two_outputs(), tx_one_input());
    lemma_legacy_segwit_disjoint(ps);
}

proof fn lemma_legacy_segwit_disjoint(ps: Seq<TxPair>)
    ensures
        count_where(ps, tx_spends_only_legacy()) + count_where(ps, tx_spends_only_segwit())
            <= ps.len(),
    decreases ps.len(),
{
    if ps.len() > 0 {
        lemma_legacy_segwit_disjoint(ps.drop_last());
    }
}

/// Of the counted inputs: those spending an output of the same block are among those
/// spending an output at most one block old, and those among the ones at most 6, 144 and 2016
/// blocks old, in turn; spent P2A dust is spent P2A; the multisig inputs of each kind are
/// multisig inputs; and the nested, native and Taproot SegWit inputs are SegWit inputs.
pub proof fn law_input_counts_nested(block: Block, date: String, infos: Seq<TxSummary>)
    requires
        all_input_infos(tx_pairs(block, infos)).len() <= i32::MAX,
        all_inputs(tx_pairs(block, infos)).len() <= i32::MAX,
    ensures
        ({
            let s = spec_input_stats(block, date, infos);
            &&& s.inputs_spend_in_same_block <= s.inputs_spending_prev_1_blocks
            &&& s.inputs_spending_prev_1_blocks <= s.inputs_spending_prev_6_blocks
            &&& s.inputs_spending_prev_6_blocks <= s.inputs_spending_prev_144_blocks
            &&& s.inputs_spending_prev_144_blocks <= s.inputs_spending_prev_2016_blocks
            &&& s.inputs_p2a_dust <= s.inputs_p2a
            &&& s.inputs_spending_p2ms_multisig <= s.inputs_spending_multisig
            &&& s.inputs_spending_p2sh_multisig <= s.inputs_spending_multisig
            &&& s.inputs_spending_nested_p2wsh_multisig <= s.inputs_spending_multisig
            &&& s.inputs_spending_p2wsh_multisig <= s.inputs_spending_multisig
            &&& s.inputs_spending_nested_segwit <= s.inputs_spending_segwit
            &&& s.inputs_spending_native_segwit <= s.inputs_spending_segwit
            &&& s.inputs_spending_taproot <= s.inputs_spending_segwit
        }),
{
    let ps = tx_pairs(block, infos);
    let ins = all_inputs(ps);
    let is = all_input_infos(ps);
    let ids = block.txids();
    let h = block.height;
    assert forall|i: TxIn| #[trigger] spends_from(ids)(i) implies spends_within(h, ids, 1)(i) by {}
    lemma_count_where_mono(ins, spends_from(ids), spends_within(h, ids, 1));
    lemma_count_where_mono(ins, spends_within(h, ids, 1), spends_within(h, ids, 6));
    lemma_count_where_mono(ins, spends_within(h, ids, 6), spends_within(h, ids, 144));
    lemma_count_where_mono(ins, spends_within(h, ids, 144), spends_within(h, ids, 2016));
    lemma_count_where_mono(ins, spends_anchor_dust(), spends_anchor());
    lemma_count_where_mono(is, input_multisig_of(InputType::P2ms), input_multisig());
    lemma_count_where_mono(is, input_multisig_of(InputType::P2sh), input_multisig());
    lemma_count_where_mono(is, input_multisig_of(InputType::P2shP2wsh), input_multisig());
    lemma_count_where_mono(is, input_multisig_of(InputType::P2wsh), input_multisig());
    lemma_count_where_mono(is, input_nested_segwit(), input_segwit());
    lemma_count_where_mono(is, input_native_segwit(), input_segwit());
    lemma_count_where_mono(is, input_taproot(), input_segwit());
}

proof fn lemma_output_types(rs: Seq<OutputRecord>)
    ensures
        count_where(rs, out_is(OutputType::P2pk)) + count_where(rs, out_is(OutputType::P2pkh))
            + count_where(rs, out_is(OutputType::P2wpkhV0)) + count_where(rs, out_is(OutputType::P2ms))
            + count_where(rs, out_is(OutputType::P2sh)) + count_where(rs, out_is(OutputType::P2wshV0))
            + count_where(rs, out_is_opreturn()) + count_where(rs, out_is(OutputType::P2tr))
            + count_where(rs, out_is(OutputType::P2a)) + count_where(rs, out_is(OutputType::Unknown))
            == rs.len(),
    decreases rs.len(),
{
    if rs.len() > 0 {
        lemma_output_types(rs.drop_last());
    }
}

/// Every analyzed output has exactly one type: the counts of P2PK, P2PKH, P2WPKH, P2MS, P2SH,
/// P2WSH, OP_RETURN, P2TR, P2A and unknown outputs add up to the number of analyzed outputs.
/// Coinbase outputs of a type are outputs of that type, and P2A dust outputs are P2A outputs.
pub proof fn law_output_types_partition(block: Block, date: String, infos: Seq<TxSummary>)
    requires
        output_records(tx_pairs(block, infos)).len() <= i32::MAX,
    ensures
        ({
            let s = spec_output_stats(block, date, infos);
            &&& s.outputs_p2pk + s.outputs_p2pkh + s.outputs_p2wpkh + s.outputs_p2ms + s.outputs_p2sh
                + s.outputs_p2wsh + s.outputs_opreturn + s.outputs_p2tr + s.outputs_p2a
                + s.outputs_unknown == output_records(tx_pairs(block, infos)).len()
            &&& s.outputs_coinbase_p2pk <= s.outputs_p2pk
            &&& s.outputs_coinbase_p2pkh <= s.outputs_p2pkh
            &&& s.outputs_coinbase_p2wpkh <= s.outputs_p2wpkh
            &&& s.outputs_coinbase_p2ms <= s.outputs_p2ms
            &&& s.outputs_coinbase_p2sh <= s.outputs_p2sh
            &&& s.outputs_coinbase_p2wsh <= s.outputs_p2wsh
            &&& s.outputs_coinbase_p2tr <= s.outputs_p2tr
            &&& s.outputs_coinbase_unknown <= s.outputs_unknown
            &&& s.outputs_p2a_dust <= s.outputs_p2a
        }),
{
    let rs = output_records(tx_pairs(block, infos));
    lemma_output_types(rs);
    lemma_count_where_mono(rs, out_coinbase_is(OutputType::P2pk), out_is(OutputType::P2pk));
    lemma_count_where_mono(rs, out_coinbase_is(OutputType::P2pkh), out_is(OutputType::P2pkh));
    lemma_count_where_mono(rs, out_coinbase_is(OutputType::P2wpkhV0), out_is(OutputType::P2wpkhV0));
    lemma_count_where_mono(rs, out_coinbase_is(OutputType::P2ms), out_is(OutputType::P2ms));
    lemma_count_where_mono(rs, out_coinbase_is(OutputType::P2sh), out_is(OutputType::P2sh));
    lemma_count_where_mono(rs, out_coinbase_is(OutputType::P2wshV0), out_is(OutputType::P2wshV0));
    lemma_count_where_mono(rs, out_coinbase_is(OutputType::P2tr), out_is(OutputType::P2tr));
    lemma_count_where_mono(rs, out_coinbase_is(OutputType::Unknown), out_is(OutputType::Unknown));
    lemma_count_where_mono(rs, out_p2a_dust(), out_is(OutputType::P2a));
}

proof fn lemma_signatures(sigs: Seq<SignatureSummary>)
    ensures
        count_where(sigs, sig_is(SignatureType::Schnorr)) + count_where(sigs, sig_is(SignatureType::Ecdsa))
            == sigs.len(),
        count_where(sigs, ecdsa_where(der_valid())) + count_where(sigs, ecdsa_where(der_invalid()))
            == count_where(sigs, sig_is(SignatureType::Ecdsa)),
        count_where(sigs, ecdsa_where(r_is_low(true))) + count_where(sigs, ecdsa_where(r_is_low(false)))
            == count_where(sigs, sig_is(SignatureType::Ecdsa)),
        count_where(sigs, ecdsa_where(s_is_low(true))) + count_where(sigs, ecdsa_where(s_is_low(false)))
            == count_where(sigs, sig_is(SignatureType::Ecdsa)),
        count_where(sigs, ecdsa_where(low_r_s(true, true))) + count_where(
            sigs,
            ecdsa_where(low_r_s(true, false)),
        ) + count_where(sigs, ecdsa_where(low_r_s(false, true))) + count_where(
            sigs,
            ecdsa_where(low_r_s(false, false)),
        ) == count_where(sigs, sig_is(SignatureType::Ecdsa)),
        count_where(sigs, ecdsa_where(any_sig())) == count_where(sigs, sig_is(SignatureType::Ecdsa)),
    decreases sigs.len(),
{
    if sigs.len() > 0 {
        lemma_signatures(sigs.drop_last());
    }
}

/// Every public key found is either compressed or not, and every signature found is either
/// a Schnorr or an ECDSA signature. Every ECDSA signature is either strictly DER encoded or
/// not, has a low or a high R, a low or a high S, exactly one of the four combinations of
/// these, and a sighash flag.
pub proof fn law_script_counts_partition(block: Block, date: String, infos: Seq<TxSummary>)
    requires
        flat_map(tx_pairs(block, infos), tx_input_pubkeys()).len() + flat_map(
            tx_pairs(block, infos),
            tx_output_pubkeys(),
        ).len() <= i32::MAX,
        flat_map(tx_pairs(block, infos), tx_signatures()).len() <= i32::MAX,
    ensures
        ({
            let s = spec_script_stats(block, date, infos);
            let ps = tx_pairs(block, infos);
            &&& s.pubkeys == s.pubkeys_compressed + s.pubkeys_uncompressed
            &&& s.pubkeys_compressed == s.pubkeys_compressed_inputs + s.pubkeys_compressed_outputs
            &&& s.pubkeys_uncompressed == s.pubkeys_uncompressed_inputs
                + s.pubkeys_uncompressed_outputs
            &&& s.sigs_schnorr + s.sigs_ecdsa == flat_map(ps, tx_signatures()).len()
            &&& s.sigs_ecdsa == s.sigs_ecdsa_strict_der + s.sigs_ecdsa_not_strict_der
            &&& s.sigs_ecdsa == s.sigs_ecdsa_low_r + s.sigs_ecdsa_high_r
            &&& s.sigs_ecdsa == s.sigs_ecdsa_low_s + s.sigs_ecdsa_high_s
            &&& s.sigs_ecdsa == s.sigs_ecdsa_low_rs + s.sigs_ecdsa_low_r_high_s
                + s.sigs_ecdsa_high_r_low_s + s.sigs_ecdsa_high_rs
            &&& s.sigs_sighashes == s.sigs_ecdsa
        }),
{
    let ps = tx_pairs(block, infos);
    let ins = flat_map(ps, tx_input_pubkeys());
    let outs = flat_map(ps, tx_output_pubkeys());
    let sigs = flat_map(ps, tx_signatures());
    assert forall|c: bool| #[trigger] compressed()(c) != uncompressed()(c) by {}
    lemma_count_where_split(ins, compressed(), uncompressed());
    lemma_count_where_split(outs, compressed(), uncompressed());
    lemma_signatures(sigs);
}

proof fn lemma_bands(ps: Seq<TxPair>)
    ensures
        count_where(ps, in_band(0)) + count_where(ps, in_band(1)) + count_where(ps, in_band(2))
            + count_where(ps, in_band(3)) + count_where(ps, in_band(4)) + count_where(ps, in_band(5))
            + count_where(ps, in_band(6)) + count_where(ps, in_band(7)) + count_where(ps, in_band(8))
            + count_where(ps, in_band(9)) + count_where(ps, in_band(10)) == ps.len(),
    decreases ps.len(),
{
    if ps.len() > 0 {
        lemma_bands(ps.drop_last());
    }
}

proof fn lemma_min_le_max(ps: Seq<TxPair>, f: spec_fn(TxPair) -> int)
    ensures
        min_of(ps, f) <= max_of(ps, f),
    decreases ps.len(),
{
    if ps.len() > 1 {
        lemma_min_le_max(ps.drop_last(), f);
    }
}

/// Every transaction but the coinbase falls in exactly one feerate band: the band counts add
/// up to the number of those transactions. The smallest fee is at most the largest, and so is
/// the smallest size, where fees and sizes fit the columns (`i64`, `i32`) that hold them.
pub proof fn law_feerate_bands_partition(block: Block, date: String, infos: Seq<TxSummary>)
    requires
        non_coinbase_pairs(block, infos).len() <= i32::MAX,
        forall|i: int|
            0 <= i < non_coinbase_pairs(block, infos).len() ==> crate::feerate_stats::fee_or_zero(
                (#[trigger] non_coinbase_pairs(block, infos)[i]).0,
            ) <= i64::MAX,
        forall|i: int|
            0 <= i < non_coinbase_pairs(block, infos).len() ==> (#[trigger] non_coinbase_pairs(
                block,
                infos,
            )[i]).0.size <= i32::MAX,
    ensures
        ({
            let s = spec_feerate_stats(block, date, infos);
            &&& s.below_1_sat_vbyte + s.feerate_1_2_sat_vbyte + s.feerate_2_5_sat_vbyte
                + s.feerate_5_10_sat_vbyte + s.feerate_10_25_sat_vbyte + s.feerate_25_50_sat_vbyte
                + s.feerate_50_100_sat_vbyte + s.feerate_100_250_sat_vbyte
                + s.feerate_250_500_sat_vbyte + s.feerate_500_1000_sat_vbyte
                + s.feerate_1000_plus_sat_vbyte == non_coinbase_pairs(block, infos).len()
            &&& s.fee_min <= s.fee_max
            &&& s.size_min <= s.size_max
        }),
{
    let nc = non_coinbase_pairs(block, infos);
    lemma_bands(nc);
    lemma_min_le_max(nc, fee_of());
    lemma_min_le_max(nc, size_of());
    assert forall|x: TxPair| 0 <= #[trigger] fee_of()(x) <= u64::MAX by {}
    assert forall|x: TxPair| 0 <= #[trigger] size_of()(x) <= u64::MAX by {}
    lemma_fee_bounds(nc);
}

proof fn lemma_fee_bounds(ps: Seq<TxPair>)
    requires
        forall|i: int| 0 <= i < ps.len() ==> crate::feerate_stats::fee_or_zero((#[trigger] ps[i]).0)
            <= i64::MAX,
        forall|i: int| 0 <= i < ps.len() ==> (#[trigger] ps[i]).0.size <= i32::MAX,
    ensures
        0 <= min_of(ps, fee_of()) <= i64::MAX,
        0 <= max_of(ps, fee_of()) <= i64::MAX,
        0 <= min_of(ps, size_of()) <= i32::MAX,
        0 <= max_of(ps, size_of()) <= i32::MAX,
        min_of(ps, size_of()) <= max_of(ps, size_of()),
    decreases ps.len(),
{
    if ps.len() > 1 {
        assert forall|i: int| 0 <= i < ps.drop_last().len() implies #[trigger] ps.drop_last()[i]
            == ps[i] by {}
        lemma_fee_bounds(ps.drop_last());
        assert(ps.drop_last()[0] == ps[0]);
        assert(ps.last() == ps[ps.len() - 1]);
    } else if ps.len() == 1 {
        assert(ps[0] == ps[0]);
    }
    lemma_min_le_max(ps, size_of());
}

/// A feerate band is the interval of its bounds: for a positive virtual size, a fee falls in
/// band `k` exactly when `band_bound(k) * vsize <= fee`, and, below the top band,
/// `fee < band_bound(k + 1) * vsize`. The bounds are 0, 1, 2, 5, 10, 25, 50, 100, 250, 500 and
/// 1000 sat/vbyte.
pub proof fn law_feerate_band_interval(fee: u64, vsize: u32, k: int)
    requires
        vsize > 0,
        0 <= k <= 10,
    ensures
        feerate_band(fee, vsize) == k <==> (band_bound(k) * vsize <= fee && (k == 10 || fee
            < band_bound(k + 1) * vsize)),
{
}

/// A larger fee never falls in a lower feerate band.
pub proof fn law_feerate_band_monotone(fee1: u64, fee2: u64, vsize: u32)
    requires
        fee1 <= fee2,
    ensures
        feerate_band(fee1, vsize) <= feerate_band(fee2, vsize),
{
}

/// A transaction paying no fee, with a positive virtual size, falls in the lowest band: the
/// zero-fee transactions are among those below 1 sat/vbyte.
pub proof fn law_zero_fee_below_one(block: Block, date: String, infos: Seq<TxSummary>)
    requires
        non_coinbase_pairs(block, infos).len() <= i32::MAX,
        forall|i: int|
            0 <= i < non_coinbase_pairs(block, infos).len() ==> (#[trigger] non_coinbase_pairs(
                block,
                infos,
            )[i]).0.vsize > 0,
    ensures
        spec_feerate_stats(block, date, infos).zero_fee_tx <= spec_feerate_stats(
            block,
            date,
            infos,
        ).below_1_sat_vbyte,
{
    let nc = non_coinbase_pairs(block, infos);
    lemma_zero_fee_in_lowest_band(nc);
}

proof fn lemma_zero_fee_in_lowest_band(ps: Seq<TxPair>)
    requires
        forall|i: int| 0 <= i < ps.len() ==> (#[trigger] ps[i]).0.vsize > 0,
    ensures
        count_where(ps, pays_zero_fee()) <= count_where(ps, in_band(0)),
    decreases ps.len(),
{
    if ps.len() > 0 {
        assert forall|i: int| 0 <= i < ps.drop_last().len() implies (
        #[trigger] ps.drop_last()[i]).0.vsize > 0 by {
            assert(ps.drop_last()[i] == ps[i]);
        }
        lemma_zero_fee_in_lowest_band(ps.drop_last());
        assert(ps.last() == ps[ps.len() - 1]);
    }
}

/// The payments of transactions spending SegWit, spending Taproot or signaling
/// replaceability are among all payments; a block is empty exactly when its only transaction
/// is the coinbase; and a coinbase lock time set as BIP-54 asks is a lock time set, unless the
/// block is at height 1 (where it is zero).
pub proof fn law_block_counts(
    block: Block,
    date: String,
    infos: Seq<TxSummary>,
    pool_id: i32,
    bits: i32,
    coinbase_weight: i64,
    coinbase_lock_time: u32,
    coinbase_sequences: Seq<u32>,
    coinbase_values: Seq<u64>,
)
    requires
        sum_of(infos, payments_where(any_summary())) <= i32::MAX,
        block.txdata@.len() <= i32::MAX,
    ensures
        ({
            let s = spec_block_stats(
                block,
                date,
                infos,
                pool_id,
                bits,
                coinbase_weight,
                coinbase_lock_time,
                coinbase_sequences,
                coinbase_values,
            );
            &&& s.payments_segwit_spending_tx <= s.payments
            &&& s.payments_taproot_spending_tx <= s.payments
            &&& s.payments_signaling_explicit_rbf <= s.payments
            &&& s.empty <==> s.transactions == 1
            &&& s.coinbase_locktime_set_bip54 && block.height != 1 ==> s.coinbase_locktime_set
        }),
{
    let all = payments_where(any_summary());
    assert forall|t: TxSummary| #[trigger] payments_where(summary_spends_segwit())(t) <= all(t) by {}
    assert forall|t: TxSummary| #[trigger] payments_where(summary_spends_taproot())(t) <= all(t) by {}
    assert forall|t: TxSummary| #[trigger] payments_where(summary_signals_rbf())(t) <= all(t) by {}
    assert forall|t: TxSummary| 0 <= #[trigger] payments_where(summary_spends_segwit())(t) by {}
    assert forall|t: TxSummary| 0 <= #[trigger] payments_where(summary_spends_taproot())(t) by {}
    assert forall|t: TxSummary| 0 <= #[trigger] payments_where(summary_signals_rbf())(t) by {}
    lemma_sum_of_le(infos, payments_where(summary_spends_segwit()), all);
    lemma_sum_of_le(infos, payments_where(summary_spends_taproot()), all);
    lemma_sum_of_le(infos, payments_where(summary_signals_rbf()), all);
    lemma_sum_of_nonneg(infos, payments_where(summary_spends_segwit()));
    lemma_sum_of_nonneg(infos, payments_where(summary_spends_taproot()));
    lemma_sum_of_nonneg(infos, payments_where(summary_signals_rbf()));
}

/// The dust outputs of a transaction are outputs of that transaction.
proof fn lemma_dust_outpoints_of(txid: Txid, outputs: Seq<TxOut>)
    ensures
        forall|i: int| 0 <= i < dust_outpoints(txid, outputs).len() ==> (#[trigger] dust_outpoints(
            txid,
            outputs,
        )[i]).0 == txid,
    decreases outputs.len(),
{
    if outputs.len() > 0 {
        lemma_dust_outpoints_of(txid, outputs.drop_last());
        let rest = dust_outpoints(txid, outputs.drop_last());
        let all = dust_outpoints(txid, outputs);
        assert forall|i: int| 0 <= i < all.len() implies (#[trigger] all[i]).0 == txid by {
            if i < rest.len() {
                assert(all[i] == rest[i]);
            }
        }
    }
}

/// Scanning inputs only removes staged dust, and a transaction found spending staged dust of
/// transactions seen before is found spending a transaction seen before.
proof fn lemma_input_scan_keeps(tx: Tx, seen: Seq<Txid>, set: Set<Outpoint>, inputs: Seq<TxIn>)
    requires
        forall|op: Outpoint| #[trigger] set.contains(op) ==> seen.contains(op.0),
    ensures
        input_scan(tx, seen, set, inputs).1 ==> input_scan(tx, seen, set, inputs).0,
        forall|op: Outpoint| #[trigger] input_scan(tx, seen, set, inputs).2.contains(op) ==> set.contains(
            op,
        ),
    decreases inputs.len(),
{
    if inputs.len() > 0 {
        lemma_input_scan_keeps(tx, seen, set, inputs.drop_last());
        let st = input_scan(tx, seen, set, inputs.drop_last());
        match inputs.last().data {
            InputData::NonCoinbase { txid, vout, .. } => {
                if !st.3 && st.2.contains((txid, vout)) {
                    assert(set.contains((txid, vout)));
                }
            },
            InputData::Coinbase => {},
        }
    }
}

/// The staged dust is made of outputs of the scanned transactions, and no more transactions
/// spend ephemeral dust than spend a transaction of the same block.
proof fn lemma_dust_scan_keeps(pairs: Seq<TxPair>)
    ensures
        dust_scan(pairs).1 <= dust_scan(pairs).0,
        forall|op: Outpoint| #[trigger] dust_scan(pairs).2.contains(op) ==> pairs.map_values(
            |p: TxPair| p.0.txid,
        ).contains(op.0),
    decreases pairs.len(),
{
    if pairs.len() > 0 {
        let pre = pairs.drop_last();
        lemma_dust_scan_keeps(pre);
        let prev = dust_scan(pre);
        let tx = pairs.last().0;
        let seen = pre.map_values(|p: TxPair| p.0.txid);
        let all = pairs.map_values(|p: TxPair| p.0.txid);
        assert(all =~= seen.push(tx.txid));
        lemma_input_scan_keeps(tx, seen, prev.2, tx.input@);
        let r = input_scan(tx, seen, prev.2, tx.input@);
        lemma_dust_outpoints_of(tx.txid, tx.output@);
        assert forall|op: Outpoint| #[trigger] dust_scan(pairs).2.contains(op) implies all.contains(
            op.0,
        ) by {
            if r.2.contains(op) {
                let k = choose|k: int| 0 <= k < seen.len() && seen[k] == op.0;
                assert(all[k] == op.0);
            } else {
                assert(all[all.len() - 1] == tx.txid);
            }
        }
    }
}

/// Every transaction spending ephemeral dust spends an output of a transaction of the same
/// block: the count of the former is at most the count of the latter.
pub proof fn law_ephemeral_dust_spends_same_block(block: Block, date: String, infos: Seq<TxSummary>)
    requires
        tx_pairs(block, infos).len() <= i32::MAX,
    ensures
        spec_tx_stats(block, date, infos).tx_spending_ephemeral_dust <= spec_tx_stats(
            block,
            date,
            infos,
        ).tx_spending_newly_created_utxos,
{
    let ps = tx_pairs(block, infos);
    lemma_dust_scan_keeps(ps);
    crate::tx_stats::lemma_dust_scan_bounded(ps);
}

/// In a block that spends every outpoint at most once and gives a fee for every transaction
/// spending one, the transactions counted as spending ephemeral dust are those that may spend
/// it (version 3, a non-zero fee, at most 1000 vbytes) and spend the single dust output of an
/// earlier zero-fee version 3 transaction of the block; and those counted as spending a newly
/// created output are those spending an output of an earlier transaction of the block.
pub proof fn law_ephemeral_dust_spenders(block: Block, date: String, infos: Seq<TxSummary>)
    requires
        tx_pairs(block, infos).len() <= i32::MAX,
        spends_each_outpoint_once(tx_pairs(block, infos)),
        spenders_have_fees(tx_pairs(block, infos)),
    ensures
        spec_tx_stats(block, date, infos).tx_spending_ephemeral_dust == count_dust_spenders(
            tx_pairs(block, infos),
        ),
        spec_tx_stats(block, date, infos).tx_spending_newly_created_utxos == count_spending_earlier(
            tx_pairs(block, infos),
        ),
{
    let ps = tx_pairs(block, infos);
    lemma_dust_scan_keeps(ps);
    crate::tx_stats::lemma_dust_scan_bounded(ps);
    crate::tx_stats::lemma_dust_scan_counts_dust_spenders(ps);
    crate::tx_stats::lemma_dust_scan_counts_spending_earlier(ps);
}

proof fn lemma_outside_group(top: Seq<MiningPoolID>)
    ensures
        forall|i: int|
            0 <= i < outside_antpool_group(top).len() ==> !antpool_group().contains(
                (#[verifier::truncate] ((#[trigger] outside_antpool_group(top)[i]).pool_id as u64)),
            ),
    decreases top.len(),
{
    if top.len() > 0 {
        lemma_outside_group(top.drop_last());
        let rest = outside_antpool_group(top.drop_last());
        let all = outside_antpool_group(top);
        assert forall|i: int| 0 <= i < all.len() implies !antpool_group().contains(
            (#[verifier::truncate] ((#[trigger] all[i]).pool_id as u64)),
        ) by {
            if i < rest.len() {
                assert(all[i] == rest[i]);
            }
        }
    }
}

/// In the "AntPool & friends" view, the first slot holds the whole group, and every other slot
/// holds either no pool or a single pool outside the group.
pub proof fn law_antpool_view_slots(top: Seq<MiningPoolID>)
    ensures
        antpool_slot(top, 0) == antpool_group_ids(),
        forall|i: int|
            1 <= i < 5 ==> #[trigger] antpool_slot(top, i) == seq![NO_POOL] || (antpool_slot(
                top,
                i,
            ).len() == 1 && !antpool_group().contains(
                (#[verifier::truncate] (antpool_slot(top, i)[0] as u64)),
            )),
{
    lemma_outside_group(top);
    assert forall|i: int| 1 <= i < 5 implies #[trigger] antpool_slot(top, i) == seq![NO_POOL] || (
    antpool_slot(top, i).len() == 1 && !antpool_group().contains(
        (#[verifier::truncate] (antpool_slot(top, i)[0] as u64)),
    )) by {
        let others = outside_antpool_group(top);
        if i - 1 < others.len() {
            assert(antpool_slot(top, i)[0] == others[i - 1].pool_id);
        }
    }
}

/// A pool is named after the last entry of the pool list with its id, and `Unknown` when the
/// list has none.
pub proof fn law_row_pool_name(pools: Seq<(u64, String)>, id: i64, name: String)
    ensures
        row_pool_name(pools.push(((#[verifier::truncate] (id as u64)), name)), id) == name@,
        (forall|i: int|
            0 <= i < pools.len() ==> (#[trigger] pools[i]).0 != (#[verifier::truncate] (id as u64)))
            ==> row_pool_name(pools, id) == "Unknown"@,
{
    let entry = ((#[verifier::truncate] (id as u64)), name);
    assert(pools.push(entry).last() == entry);
    lemma_no_entry(pools, id);
}

proof fn lemma_no_entry(pools: Seq<(u64, String)>, id: i64)
    ensures
        (forall|i: int|
            0 <= i < pools.len() ==> (#[trigger] pools[i]).0 != (#[verifier::truncate] (id as u64)))
            ==> last_pool_name(pools, names_row(id)) is None,
    decreases pools.len(),
{
    if pools.len() > 0 {
        lemma_no_entry(pools.drop_last(), id);
        if forall|i: int|
            0 <= i < pools.len() ==> (#[trigger] pools[i]).0 != (#[verifier::truncate] (id as u64)) {
            assert(pools.last() == pools[pools.len() - 1]);
            assert forall|i: int| 0 <= i < pools.drop_last().len() implies (
            #[trigger] pools.drop_last()[i]).0 != (#[verifier::truncate] (id as u64)) by {
                assert(pools.drop_last()[i] == pools[i]);
            }
        }
    }
}

/// What holds of every element of every image holds of every element of the flat map.
proof fn lemma_flat_map_all<A, B>(s: Seq<A>, f: spec_fn(A) -> Seq<B>, p: spec_fn(B) -> bool)
    requires
        forall|i: int, k: int| 0 <= i < s.len() && 0 <= k < f(s[i]).len() ==> p(#[trigger] f(s[i])[k]),
    ensures
        forall|j: int| 0 <= j < flat_map(s, f).len() ==> p(#[trigger] flat_map(s, f)[j]),
    decreases s.len(),
{
    if s.len() > 0 {
        let pre = s.drop_last();
        assert forall|i: int, k: int| 0 <= i < pre.len() && 0 <= k < f(pre[i]).len() implies p(
            #[trigger] f(pre[i])[k],
        ) by {
            assert(pre[i] == s[i]);
        }
        lemma_flat_map_all(pre, f, p);
        let all = flat_map(s, f);
        let head = flat_map(pre, f);
        assert forall|j: int| 0 <= j < all.len() implies p(#[trigger] all[j]) by {
            if j < head.len() {
                assert(all[j] == head[j]);
            } else {
                assert(all[j] == f(s[s.len() - 1])[j - head.len()]);
            }
        }
    }
}

/// An ECDSA signature that is at least 8 bytes long.
pub open spec fn ecdsa_length_ok() -> spec_fn(SignatureSummary) -> bool {
    |g: SignatureSummary| g.signature == SignatureType::Ecdsa ==> g.length >= 8
}

proof fn lemma_length_buckets(sigs: Seq<SignatureSummary>)
    requires
        forall|j: int| 0 <= j < sigs.len() ==> ecdsa_length_ok()(#[trigger] sigs[j]),
    ensures
        count_where(sigs, ecdsa_where(length_in(8, 69))) + count_where(
            sigs,
            ecdsa_where(length_in(70, 70)),
        ) + count_where(sigs, ecdsa_where(length_in(71, 71))) + count_where(
            sigs,
            ecdsa_where(length_in(72, 72)),
        ) + count_where(sigs, ecdsa_where(length_in(73, 73))) + count_where(
            sigs,
            ecdsa_where(length_in(74, 74)),
        ) + count_where(sigs, ecdsa_where(length_in(75, usize::MAX as int))) == count_where(
            sigs,
            sig_is(SignatureType::Ecdsa),
        ),
    decreases sigs.len(),
{
    if sigs.len() > 0 {
        let pre = sigs.drop_last();
        assert forall|j: int| 0 <= j < pre.len() implies ecdsa_length_ok()(#[trigger] pre[j]) by {
            assert(pre[j] == sigs[j]);
        }
        lemma_length_buckets(pre);
        assert(ecdsa_length_ok()(sigs[sigs.len() - 1]));
    }
}

/// Every ECDSA signature falls in exactly one length bucket: below 70 bytes, 70, 71, 72, 73,
/// 74, or 75 bytes and more (an ECDSA signature is at least 8 bytes long).
pub proof fn law_signature_length_buckets(block: Block, date: String, infos: Seq<TxSummary>)
    requires
        script_stats_fits(block, infos),
    ensures
        ({
            let s = spec_script_stats(block, date, infos);
            s.sigs_ecdsa_length_less_70byte + s.sigs_ecdsa_length_70byte + s.sigs_ecdsa_length_71byte
                + s.sigs_ecdsa_length_72byte + s.sigs_ecdsa_length_73byte + s.sigs_ecdsa_length_74byte
                + s.sigs_ecdsa_length_75byte_or_more == s.sigs_ecdsa
        }),
{
    let ps = tx_pairs(block, infos);
    let ok = ecdsa_length_ok();
    assert forall|i: int, k: int|
        0 <= i < ps.len() && 0 <= k < tx_signatures()(ps[i]).len() implies ok(
        #[trigger] tx_signatures()(ps[i])[k],
    ) by {
        let ins = ps[i].1.input_infos@;
        assert forall|j: int, q: int|
            0 <= j < ins.len() && 0 <= q < input_signatures_of()(ins[j]).len() implies ok(
            #[trigger] input_signatures_of()(ins[j])[q],
        ) by {
            assert(ps[i].1.input_infos@[j].signatures@[q] == input_signatures_of()(ins[j])[q]);
        }
        lemma_flat_map_all(ins, input_signatures_of(), ok);
    }
    lemma_flat_map_all(ps, tx_signatures(), ok);
    lemma_length_buckets(flat_map(ps, tx_signatures()));
}

proof fn lemma_flat_map_len<A, B>(s: Seq<A>, f: spec_fn(A) -> Seq<B>)
    ensures
        flat_map(s, f).len() == sum_of(s, |x: A| f(x).len() as int),
    decreases s.len(),
{
    if s.len() > 0 {
        lemma_flat_map_len(s.drop_last(), f);
    }
}

/// The number of public keys found in the inputs of a transaction.
pub open spec fn tx_input_pubkey_count(p: TxPair) -> int {
    sum_of(p.1.input_infos@, |i: InputSummary| i.pubkeys_compressed@.len() as int)
}

/// The number of public keys found in the outputs of a transaction.
pub open spec fn tx_output_pubkey_count(p: TxPair) -> int {
    sum_of(p.1.output_infos@, |o: OutputSummary| o.pubkeys_compressed@.len() as int)
}

/// The public keys counted are those of the inputs and the outputs of every transaction: the
/// total is the sum, over the transactions, of the numbers of keys found in their inputs and
/// in their outputs.
pub proof fn law_pubkeys_total(block: Block, date: String, infos: Seq<TxSummary>)
    requires
        flat_map(tx_pairs(block, infos), tx_input_pubkeys()).len() + flat_map(
            tx_pairs(block, infos),
            tx_output_pubkeys(),
        ).len() <= i32::MAX,
    ensures
        spec_script_stats(block, date, infos).pubkeys == sum_of(
            tx_pairs(block, infos),
            |p: TxPair| tx_input_pubkey_count(p) + tx_output_pubkey_count(p),
        ),
{
    let ps = tx_pairs(block, infos);
    lemma_flat_map_len(ps, tx_input_pubkeys());
    lemma_flat_map_len(ps, tx_output_pubkeys());
    let fi = |p: TxPair| tx_input_pubkeys()(p).len() as int;
    let fo = |p: TxPair| tx_output_pubkeys()(p).len() as int;
    assert forall|p: TxPair| #[trigger] fi(p) == tx_input_pubkey_count(p) by {
        lemma_flat_map_len(p.1.input_infos@, input_pubkeys_of());
        assert((|x: InputSummary| input_pubkeys_of()(x).len() as int) =~= (|i: InputSummary|
            i.pubkeys_compressed@.len() as int));
    }
    assert forall|p: TxPair| #[trigger] fo(p) == tx_output_pubkey_count(p) by {
        lemma_flat_map_len(p.1.output_infos@, output_pubkeys_of());
        assert((|x: OutputSummary| output_pubkeys_of()(x).len() as int) =~= (|o: OutputSummary|
            o.pubkeys_compressed@.len() as int));
    }
    lemma_sum_of_pair(ps, fi, fo);
    assert(fi =~= (|p: TxPair| tx_input_pubkey_count(p)));
    assert(fo =~= (|p: TxPair| tx_output_pubkey_count(p)));
    assert((|p: TxPair| fi(p) + fo(p)) =~= (|p: TxPair| tx_input_pubkey_count(p)
        + tx_output_pubkey_count(p)));
}

proof fn lemma_sum_of_pair<A>(s: Seq<A>, f: spec_fn(A) -> int, g: spec_fn(A) -> int)
    ensures
        sum_of(s, f) + sum_of(s, g) == sum_of(s, |x: A| f(x) + g(x)),
    decreases s.len(),
{
    if s.len() > 0 {
        lemma_sum_of_pair(s.drop_last(), f, g);
    }
}

proof fn lemma_sighashes(sigs: Seq<SignatureSummary>)
    ensures
        count_where(sigs, ecdsa_where(sighash_is(0x01))) + count_where(sigs, ecdsa_where(sighash_is(0x02)))
            + count_where(sigs, ecdsa_where(sighash_is(0x03))) + count_where(
            sigs,
            ecdsa_where(sighash_is(0x81)),
        ) + count_where(sigs, ecdsa_where(sighash_is(0x82))) + count_where(
            sigs,
            ecdsa_where(sighash_is(0x83)),
        ) <= count_where(sigs, ecdsa_where(any_sig())),
    decreases sigs.len(),
{
    if sigs.len() > 0 {
        lemma_sighashes(sigs.drop_last());
    }
}

/// Every ECDSA signature has one sighash flag: the counts of the six standard flags (ALL,
/// NONE, SINGLE and each with ANYONECANPAY) add up to at most the number of sighash flags
/// counted.
pub proof fn law_sighash_buckets(block: Block, date: String, infos: Seq<TxSummary>)
    requires
        flat_map(tx_pairs(block, infos), tx_signatures()).len() <= i32::MAX,
    ensures
        ({
            let s = spec_script_stats(block, date, infos);
            s.sigs_sighash_all + s.sigs_sighash_none + s.sigs_sighash_single + s.sigs_sighash_all_acp
                + s.sigs_sighash_none_acp + s.sigs_sighash_single_acp <= s.sigs_sighashes
        }),
{
    let sigs = flat_map(tx_pairs(block, infos), tx_signatures());
    lemma_sighashes(sigs);
    lemma_count_where_mono(sigs, ecdsa_where(sighash_is(0x01)), ecdsa_where(any_sig()));
    lemma_count_where_mono(sigs, ecdsa_where(sighash_is(0x02)), ecdsa_where(any_sig()));
    lemma_count_where_mono(sigs, ecdsa_where(sighash_is(0x03)), ecdsa_where(any_sig()));
    lemma_count_where_mono(sigs, ecdsa_where(sighash_is(0x81)), ecdsa_where(any_sig()));
    lemma_count_where_mono(sigs, ecdsa_where(sighash_is(0x82)), ecdsa_where(any_sig()));
    lemma_count_where_mono(sigs, ecdsa_where(sighash_is(0x83)), ecdsa_where(any_sig()));
}

proof fn lemma_input_types(is: Seq<InputSummary>)
    ensures
        count_where(is, input_type_is_either(InputType::P2pk, InputType::P2pkLaxDer)) + count_where(
            is,
            input_type_is_either(InputType::P2pkh, InputType::P2pkhLaxDer),
        ) + count_where(is, input_type_is(InputType::P2shP2wpkh)) + count_where(
            is,
            input_type_is(InputType::P2wpkh),
        ) + count_where(is, input_type_is_either(InputType::P2ms, InputType::P2msLaxDer))
            + count_where(is, input_type_is(InputType::P2sh)) + count_where(
            is,
            input_type_is(InputType::P2shP2wsh),
        ) + count_where(is, input_type_is(InputType::P2wsh)) + count_where(
            is,
            input_type_is(InputType::Coinbase),
        ) + count_where(is, input_type_is(InputType::CoinbaseWitness)) + count_where(
            is,
            input_type_is(InputType::P2trkp),
        ) + count_where(is, input_type_is(InputType::P2trsp)) + count_where(
            is,
            input_type_is_either(InputType::Unknown, InputType::P2a),
        ) == is.len(),
    decreases is.len(),
{
    if is.len() > 0 {
        lemma_input_types(is.drop_last());
    }
}

/// Every analyzed input is counted under exactly one of the fourteen input types: the counts
/// of P2PK, P2PKH, nested and native P2WPKH, P2MS, P2SH, nested and native P2WSH, coinbase,
/// witness coinbase, Taproot key path and script path, P2A and unknown inputs add up to the
/// number of analyzed inputs.
pub proof fn law_input_types_partition(block: Block, date: String, infos: Seq<TxSummary>)
    requires
        all_input_infos(tx_pairs(block, infos)).len() <= i32::MAX,
        all_inputs(tx_pairs(block, infos)).len() <= i32::MAX,
    ensures
        ({
            let s = spec_input_stats(block, date, infos);
            s.inputs_p2pk + s.inputs_p2pkh + s.inputs_nested_p2wpkh + s.inputs_p2wpkh + s.inputs_p2ms
                + s.inputs_p2sh + s.inputs_nested_p2wsh + s.inputs_p2wsh + s.inputs_coinbase
                + s.inputs_witness_coinbase + s.inputs_p2tr_keypath + s.inputs_p2tr_scriptpath
                + s.inputs_p2a + s.inputs_unknown == all_input_infos(tx_pairs(block, infos)).len()
        }),
{
    let ps = tx_pairs(block, infos);
    let is = all_input_infos(ps);
    let ins = all_inputs(ps);
    lemma_input_types(is);
    lemma_count_where_mono(is, input_type_is_either(InputType::Unknown, InputType::P2a), |x: InputSummary| true);
    lemma_count_where_mono(ins, spends_anchor(), |x: TxIn| true);
    lemma_count_where_all(is);
    lemma_count_where_all(ins);
}

proof fn lemma_count_where_all<A>(s: Seq<A>)
    ensures
        count_where(s, |x: A| true) == s.len(),
    decreases s.len(),
{
    if s.len() > 0 {
        lemma_count_where_all(s.drop_last());
    }
}

proof fn lemma_count_where_union<A>(s: Seq<A>, q: spec_fn(A) -> bool, p1: spec_fn(A) -> bool, p2: spec_fn(A) -> bool)
    requires
        forall|x: A| #[trigger] q(x) == (p1(x) || p2(x)),
        forall|x: A| !(#[trigger] p1(x) && p2(x)),
    ensures
        count_where(s, q) == count_where(s, p1) + count_where(s, p2),
    decreases s.len(),
{
    if s.len() > 0 {
        lemma_count_where_union(s.drop_last(), q, p1, p2);
        assert(q(s.last()) == (p1(s.last()) || p2(s.last())));
        assert(!(p1(s.last()) && p2(s.last())));
    }
}

/// A transaction pays to every output that is not an OP_RETURN output, except that, of two
/// or more such outputs, one is taken to be change: with `k` outputs that are not OP_RETURN
/// outputs, it makes `k` payments when `k` is 0 or 1, and `k - 1` payments otherwise. So two
/// ordinary outputs make one payment.
pub proof fn law_payments_count_outputs_but_change(s: TxSummary)
    ensures
        ({
            let k = count_where(s.output_infos@, |o: OutputSummary| !(o.out_type is OpReturn));
            &&& k <= 1 ==> s.spec_payments() == k
            &&& k >= 2 ==> s.spec_payments() == k - 1
        }),
{
    assert((|o: OutputSummary| !o.out_type.spec_is_opreturn()) =~= (|o: OutputSummary|
        !(o.out_type is OpReturn)));
}

/// Adding a transaction to a block adds one to the count of single-input transactions with
/// one output exactly when it has one input and one output, and one to the count of those
/// with two outputs exactly when it has one input and exactly two outputs; the counts of an
/// empty block are zero. A single-input transaction with three outputs is counted in neither.
pub proof fn law_transaction_shapes(height: i64, date: String, ps: Seq<TxPair>, p: TxPair)
    requires
        ps.len() < i32::MAX,
    ensures
        ({
            let s = tx_stats_over(height, date, ps);
            let t = tx_stats_over(height, date, ps.push(p));
            let ins = p.0.input@.len();
            let outs = p.0.output@.len();
            &&& t.tx_1_input == s.tx_1_input + if ins == 1 { 1int } else { 0int }
            &&& t.tx_1_output == s.tx_1_output + if outs == 1 { 1int } else { 0int }
            &&& t.tx_1_input_1_output == s.tx_1_input_1_output + if ins == 1 && outs == 1 { 1int } else { 0int }
            &&& t.tx_1_input_2_output == s.tx_1_input_2_output + if ins == 1 && outs == 2 { 1int } else { 0int }
        }),
        ({
            let e = tx_stats_over(height, date, Seq::<TxPair>::empty());
            &&& e.tx_1_input == 0 && e.tx_1_output == 0
            &&& e.tx_1_input_1_output == 0 && e.tx_1_input_2_output == 0
        }),
{
    let q = ps.push(p);
    lemma_count_where_push(ps, p, tx_one_input());
    lemma_count_where_push(ps, p, tx_one_output());
    lemma_count_where_push(ps, p, tx_one_input_one_output());
    lemma_count_where_push(ps, p, tx_one_input_two_outputs());
    lemma_count_where_le_len(q, tx_one_input());
    lemma_count_where_le_len(q, tx_one_output());
    lemma_count_where_le_len(q, tx_one_input_one_output());
    lemma_count_where_le_len(q, tx_one_input_two_outputs());
}

/// An input spends SegWit exactly when it spends native or nested SegWit, never both; the
/// native SegWit inputs are the P2WPKH, P2WSH, Taproot (key path and script path) and P2A
/// inputs, so every Taproot input spends native SegWit. In the statistics of every block,
/// the native and nested SegWit inputs add up to the SegWit inputs, the Taproot inputs are
/// among the native SegWit ones, and the transactions spending Taproot are among those
/// spending native SegWit.
pub proof fn law_native_segwit_inputs(block: Block, date: String, infos: Seq<TxSummary>)
    requires
        all_input_infos(tx_pairs(block, infos)).len() <= i32::MAX,
        all_inputs(tx_pairs(block, infos)).len() <= i32::MAX,
        tx_pairs(block, infos).len() <= i32::MAX,
    ensures
        forall|t: InputType| #[trigger] t.spec_is_segwit() == (t.spec_is_native_segwit() || t.spec_is_nested_segwit()),
        forall|t: InputType| !(#[trigger] t.spec_is_native_segwit() && t.spec_is_nested_segwit()),
        forall|t: InputType| #[trigger] t.spec_is_taproot() ==> t.spec_is_native_segwit(),
        forall|t: InputType|
            #[trigger] t.spec_is_native_segwit() <==> (t == InputType::P2wpkh || t == InputType::P2wsh
                || t == InputType::P2trkp || t == InputType::P2trsp || t == InputType::P2a),
        ({
            let s = spec_input_stats(block, date, infos);
            &&& s.inputs_spending_native_segwit + s.inputs_spending_nested_segwit == s.inputs_spending_segwit
            &&& s.inputs_spending_taproot <= s.inputs_spending_native_segwit
        }),
        spec_tx_stats(block, date, infos).tx_spending_taproot <= spec_tx_stats(
            block,
            date,
            infos,
        ).tx_spending_native_segwit,
{
    let ps = tx_pairs(block, infos);
    let is = all_input_infos(ps);
    lemma_count_where_union(is, input_segwit(), input_native_segwit(), input_nested_segwit());
    lemma_count_where_mono(is, input_taproot(), input_native_segwit());
    lemma_count_where_le_len(is, input_segwit());
    assert forall|p: TxPair| #[trigger] tx_spends_taproot()(p) implies tx_spends_native_segwit()(p) by {
        let i = choose|i: int|
            0 <= i < p.1.input_infos@.len() && (|t: InputType| t.spec_is_taproot())(
                (#[trigger] p.1.input_infos@[i]).in_type,
            );
        assert((|t: InputType| t.spec_is_native_segwit())(p.1.input_infos@[i].in_type));
    }
    lemma_count_where_mono(ps, tx_spends_taproot(), tx_spends_native_segwit());
}

/// Adding a signature adds one to the column of a sighash flag exactly when it is an ECDSA
/// signature with that flag: ALL (0x01), NONE (0x02), SINGLE (0x03), and each with
/// ANYONECANPAY (0x81, 0x82, 0x83); the columns are zero without signatures.
pub proof fn law_sighash_columns(
    height: i64,
    date: String,
    ins: Seq<bool>,
    outs: Seq<bool>,
    sigs: Seq<SignatureSummary>,
    g: SignatureSummary,
)
    requires
        sigs.len() < i32::MAX,
    ensures
        ({
            let s = script_stats_over(height, date, ins, outs, sigs);
            let t = script_stats_over(height, date, ins, outs, sigs.push(g));
            let ecdsa = g.signature == SignatureType::Ecdsa;
            &&& t.sigs_sighash_all == s.sigs_sighash_all + if ecdsa && g.sig_hash == 0x01 { 1int } else { 0int }
            &&& t.sigs_sighash_none == s.sigs_sighash_none + if ecdsa && g.sig_hash == 0x02 { 1int } else { 0int }
            &&& t.sigs_sighash_single == s.sigs_sighash_single + if ecdsa && g.sig_hash == 0x03 { 1int } else { 0int }
            &&& t.sigs_sighash_all_acp == s.sigs_sighash_all_acp + if ecdsa && g.sig_hash == 0x81 { 1int } else { 0int }
            &&& t.sigs_sighash_none_acp == s.sigs_sighash_none_acp + if ecdsa && g.sig_hash == 0x82 { 1int } else { 0int }
            &&& t.sigs_sighash_single_acp == s.sigs_sighash_single_acp + if ecdsa && g.sig_hash == 0x83 { 1int } else { 0int }
            &&& t.sigs_sighashes == s.sigs_sighashes + if ecdsa { 1int } else { 0int }
        }),
        ({
            let e = script_stats_over(height, date, ins, outs, Seq::<SignatureSummary>::empty());
            &&& e.sigs_sighash_all == 0 && e.sigs_sighash_none == 0 && e.sigs_sighash_single == 0
            &&& e.sigs_sighash_all_acp == 0 && e.sigs_sighash_none_acp == 0 && e.sigs_sighash_single_acp == 0
        }),
{
    let q = sigs.push(g);
    lemma_count_where_push(sigs, g, ecdsa_where(any_sig()));
    lemma_count_where_le_len(q, ecdsa_where(any_sig()));
    let flags: Seq<u8> = seq![0x01u8, 0x02u8, 0x03u8, 0x81u8, 0x82u8, 0x83u8];
    assert forall|k: int| 0 <= k < 6 implies {
        &&& count_where(q, ecdsa_where(sighash_is(#[trigger] flags[k]))) == count_where(
            sigs,
            ecdsa_where(sighash_is(flags[k])),
        ) + if g.signature == SignatureType::Ecdsa && g.sig_hash == flags[k] { 1int } else { 0int }
        &&& count_where(q, ecdsa_where(sighash_is(flags[k]))) <= q.len()
    } by {
        lemma_count_where_push(sigs, g, ecdsa_where(sighash_is(flags[k])));
        lemma_count_where_le_len(q, ecdsa_where(sighash_is(flags[k])));
    }
    assert(flags[0] == 0x01 && flags[1] == 0x02 && flags[2] == 0x03);
    assert(flags[3] == 0x81 && flags[4] == 0x82 && flags[5] == 0x83);
}

/// Adding an output record adds one to the column of an OP_RETURN flavor exactly when the
/// output is an OP_RETURN output of that flavor: Omni Layer, Stacks block commits, BIP-47
/// payment codes and runestones in every transaction, RSK, CoreDAO, exSat, Hathor and witness
/// commitments in the coinbase; the columns are zero without outputs.
pub proof fn law_opreturn_flavor_columns(
    height: i64,
    date: String,
    coinbase_outputs: int,
    rs: Seq<OutputRecord>,
    r: OutputRecord,
)
    requires
        rs.len() < i32::MAX,
    ensures
        ({
            let s = output_stats_over(height, date, coinbase_outputs, rs);
            let t = output_stats_over(height, date, coinbase_outputs, rs.push(r));
            let ty = r.0.out_type;
            let cb = r.1;
            &&& t.outputs_opreturn_omnilayer == s.outputs_opreturn_omnilayer + if ty == OutputType::OpReturn(OpReturnKind::Omni) { 1int } else { 0int }
            &&& t.outputs_opreturn_stacks_block_commit == s.outputs_opreturn_stacks_block_commit + if ty == OutputType::OpReturn(OpReturnKind::StacksBlockCommit) { 1int } else { 0int }
            &&& t.outputs_opreturn_bip47_payment_code == s.outputs_opreturn_bip47_payment_code + if ty == OutputType::OpReturn(OpReturnKind::Bip47PaymentCode) { 1int } else { 0int }
            &&& t.outputs_opreturn_runestone == s.outputs_opreturn_runestone + if ty == OutputType::OpReturn(OpReturnKind::Runestone) { 1int } else { 0int }
            &&& t.outputs_opreturn_coinbase_rsk == s.outputs_opreturn_coinbase_rsk + if cb && ty == OutputType::OpReturn(OpReturnKind::RSKBlock) { 1int } else { 0int }
            &&& t.outputs_opreturn_coinbase_coredao == s.outputs_opreturn_coinbase_coredao + if cb && ty == OutputType::OpReturn(OpReturnKind::CoreDao) { 1int } else { 0int }
            &&& t.outputs_opreturn_coinbase_exsat == s.outputs_opreturn_coinbase_exsat + if cb && ty == OutputType::OpReturn(OpReturnKind::ExSat) { 1int } else { 0int }
            &&& t.outputs_opreturn_coinbase_hathor == s.outputs_opreturn_coinbase_hathor + if cb && ty == OutputType::OpReturn(OpReturnKind::HathorNetwork) { 1int } else { 0int }
            &&& t.outputs_opreturn_coinbase_witness_commitment == s.outputs_opreturn_coinbase_witness_commitment + if cb && ty == OutputType::OpReturn(OpReturnKind::WitnessCommitment) { 1int } else { 0int }
        }),
        ({
            let e = output_stats_over(height, date, coinbase_outputs, Seq::<OutputRecord>::empty());
            &&& e.outputs_opreturn_omnilayer == 0 && e.outputs_opreturn_runestone == 0
            &&& e.outputs_opreturn_stacks_block_commit == 0 && e.outputs_opreturn_bip47_payment_code == 0
            &&& e.outputs_opreturn_coinbase_rsk == 0 && e.outputs_opreturn_coinbase_coredao == 0
            &&& e.outputs_opreturn_coinbase_exsat == 0 && e.outputs_opreturn_coinbase_hathor == 0
            &&& e.outputs_opreturn_coinbase_witness_commitment == 0
        }),
{
    let q = rs.push(r);
    let every: Seq<OpReturnKind> = seq![
        OpReturnKind::Omni,
        OpReturnKind::StacksBlockCommit,
        OpReturnKind::Bip47PaymentCode,
        OpReturnKind::Runestone,
    ];
    let coinbase: Seq<OpReturnKind> = seq![
        OpReturnKind::RSKBlock,
        OpReturnKind::CoreDao,
        OpReturnKind::ExSat,
        OpReturnKind::HathorNetwork,
        OpReturnKind::WitnessCommitment,
    ];
    assert forall|k: int| 0 <= k < 4 implies {
        &&& count_where(q, out_flavor(#[trigger] every[k])) == count_where(rs, out_flavor(every[k]))
            + if r.0.out_type == OutputType::OpReturn(every[k]) { 1int } else { 0int }
        &&& count_where(q, out_flavor(every[k])) <= q.len()
    } by {
        lemma_count_where_push(rs, r, out_flavor(every[k]));
        lemma_count_where_le_len(q, out_flavor(every[k]));
    }
    assert forall|k: int| 0 <= k < 5 implies {
        &&& count_where(q, out_coinbase_flavor(#[trigger] coinbase[k])) == count_where(
            rs,
            out_coinbase_flavor(coinbase[k]),
        ) + if r.1 && r.0.out_type == OutputType::OpReturn(coinbase[k]) { 1int } else { 0int }
        &&& count_where(q, out_coinbase_flavor(coinbase[k])) <= q.len()
    } by {
        lemma_count_where_push(rs, r, out_coinbase_flavor(coinbase[k]));
        lemma_count_where_le_len(q, out_coinbase_flavor(coinbase[k]));
    }
    assert(every[0] == OpReturnKind::Omni && every[1] == OpReturnKind::StacksBlockCommit);
    assert(every[2] == OpReturnKind::Bip47PaymentCode && every[3] == OpReturnKind::Runestone);
    assert(coinbase[0] == OpReturnKind::RSKBlock && coinbase[1] == OpReturnKind::CoreDao);
    assert(coinbase[2] == OpReturnKind::ExSat && coinbase[3] == OpReturnKind::HathorNetwork);
    assert(coinbase[4] == OpReturnKind::WitnessCommitment);
}

proof fn lemma_count_push_fits<A>(s: Seq<A>, x: A, p: spec_fn(A) -> bool)
    ensures
        count_where(s.push(x), p) == count_where(s, p) + if p(x) {
            1int
        } else {
            0int
        },
        count_where(s.push(x), p) <= s.len() + 1,
{
    lemma_count_where_push(s, x, p);
    lemma_count_where_le_len(s.push(x), p);
}

/// Adding a signature adds one to the Schnorr or the ECDSA count by its scheme, and, for an
/// ECDSA signature, one to the strict or non-strict DER count, to the one length bucket its
/// length falls in (8 to 69 bytes, 70, 71, 72, 73, 74, 75 and more), to the low or high R and
/// S counts, and to the one count of its combination of R and S; a Schnorr signature leaves
/// the ECDSA counts as they are.
pub proof fn law_signature_columns(
    height: i64,
    date: String,
    ins: Seq<bool>,
    outs: Seq<bool>,
    sigs: Seq<SignatureSummary>,
    g: SignatureSummary,
)
    requires
        sigs.len() < i32::MAX,
    ensures
        ({
            let s = script_stats_over(height, date, ins, outs, sigs);
            let t = script_stats_over(height, date, ins, outs, sigs.push(g));
            let e = g.signature == SignatureType::Ecdsa;
            let n = g.length;
            &&& t.sigs_schnorr == s.sigs_schnorr + if g.signature == SignatureType::Schnorr { 1int } else { 0int }
            &&& t.sigs_ecdsa == s.sigs_ecdsa + if e { 1int } else { 0int }
            &&& t.sigs_ecdsa_strict_der == s.sigs_ecdsa_strict_der + if e && g.der_valid { 1int } else { 0int }
            &&& t.sigs_ecdsa_not_strict_der == s.sigs_ecdsa_not_strict_der + if e && !g.der_valid { 1int } else { 0int }
            &&& t.sigs_ecdsa_length_less_70byte == s.sigs_ecdsa_length_less_70byte + if e && 8 <= n < 70 { 1int } else { 0int }
            &&& t.sigs_ecdsa_length_70byte == s.sigs_ecdsa_length_70byte + if e && n == 70 { 1int } else { 0int }
            &&& t.sigs_ecdsa_length_71byte == s.sigs_ecdsa_length_71byte + if e && n == 71 { 1int } else { 0int }
            &&& t.sigs_ecdsa_length_72byte == s.sigs_ecdsa_length_72byte + if e && n == 72 { 1int } else { 0int }
            &&& t.sigs_ecdsa_length_73byte == s.sigs_ecdsa_length_73byte + if e && n == 73 { 1int } else { 0int }
            &&& t.sigs_ecdsa_length_74byte == s.sigs_ecdsa_length_74byte + if e && n == 74 { 1int } else { 0int }
            &&& t.sigs_ecdsa_length_75byte_or_more == s.sigs_ecdsa_length_75byte_or_more + if e && n >= 75 { 1int } else { 0int }
            &&& t.sigs_ecdsa_low_r == s.sigs_ecdsa_low_r + if e && g.low_r { 1int } else { 0int }
            &&& t.sigs_ecdsa_high_r == s.sigs_ecdsa_high_r + if e && !g.low_r { 1int } else { 0int }
            &&& t.sigs_ecdsa_low_s == s.sigs_ecdsa_low_s + if e && g.low_s { 1int } else { 0int }
            &&& t.sigs_ecdsa_high_s == s.sigs_ecdsa_high_s + if e && !g.low_s { 1int } else { 0int }
            &&& t.sigs_ecdsa_low_rs == s.sigs_ecdsa_low_rs + if e && g.low_r && g.low_s { 1int } else { 0int }
            &&& t.sigs_ecdsa_high_rs == s.sigs_ecdsa_high_rs + if e && !g.low_r && !g.low_s { 1int } else { 0int }
            &&& t.sigs_ecdsa_low_r_high_s == s.sigs_ecdsa_low_r_high_s + if e && g.low_r && !g.low_s { 1int } else { 0int }
            &&& t.sigs_ecdsa_high_r_low_s == s.sigs_ecdsa_high_r_low_s + if e && !g.low_r && g.low_s { 1int } else { 0int }
        }),
{
    lemma_count_push_fits(sigs, g, sig_is(SignatureType::Schnorr));
    lemma_count_push_fits(sigs, g, sig_is(SignatureType::Ecdsa));
    lemma_count_push_fits(sigs, g, ecdsa_where(der_valid()));
    lemma_count_push_fits(sigs, g, ecdsa_where(der_invalid()));
    lemma_count_push_fits(sigs, g, ecdsa_where(length_in(8, 69)));
    lemma_count_push_fits(sigs, g, ecdsa_where(length_in(70, 70)));
    lemma_count_push_fits(sigs, g, ecdsa_where(length_in(71, 71)));
    lemma_count_push_fits(sigs, g, ecdsa_where(length_in(72, 72)));
    lemma_count_push_fits(sigs, g, ecdsa_where(length_in(73, 73)));
    lemma_count_push_fits(sigs, g, ecdsa_where(length_in(74, 74)));
    lemma_count_push_fits(sigs, g, ecdsa_where(length_in(75, usize::MAX as int)));
    lemma_count_push_fits(sigs, g, ecdsa_where(r_is_low(true)));
    lemma_count_push_fits(sigs, g, ecdsa_where(r_is_low(false)));
    lemma_count_push_fits(sigs, g, ecdsa_where(s_is_low(true)));
    lemma_count_push_fits(sigs, g, ecdsa_where(s_is_low(false)));
    lemma_count_push_fits(sigs, g, ecdsa_where(low_r_s(true, true)));
    lemma_count_push_fits(sigs, g, ecdsa_where(low_r_s(false, false)));
    lemma_count_push_fits(sigs, g, ecdsa_where(low_r_s(true, false)));
    lemma_count_push_fits(sigs, g, ecdsa_where(low_r_s(false, true)));
}

/// Adding a public key found in an input adds one to the key count, and one to the
/// compressed or the uncompressed count, of all keys and of the keys in inputs, by whether it
/// is compressed, and leaves the counts of keys in outputs as they are; and likewise for a
/// key found in an output.
pub proof fn law_pubkey_columns(
    height: i64,
    date: String,
    ins: Seq<bool>,
    outs: Seq<bool>,
    sigs: Seq<SignatureSummary>,
    b: bool,
)
    requires
        ins.len() + outs.len() < i32::MAX,
    ensures
        ({
            let s = script_stats_over(height, date, ins, outs, sigs);
            let t = script_stats_over(height, date, ins.push(b), outs, sigs);
            &&& t.pubkeys == s.pubkeys + 1
            &&& t.pubkeys_compressed == s.pubkeys_compressed + if b { 1int } else { 0int }
            &&& t.pubkeys_uncompressed == s.pubkeys_uncompressed + if b { 0int } else { 1int }
            &&& t.pubkeys_compressed_inputs == s.pubkeys_compressed_inputs + if b { 1int } else { 0int }
            &&& t.pubkeys_uncompressed_inputs == s.pubkeys_uncompressed_inputs + if b { 0int } else { 1int }
            &&& t.pubkeys_compressed_outputs == s.pubkeys_compressed_outputs
            &&& t.pubkeys_uncompressed_outputs == s.pubkeys_uncompressed_outputs
        }),
        ({
            let s = script_stats_over(height, date, ins, outs, sigs);
            let t = script_stats_over(height, date, ins, outs.push(b), sigs);
            &&& t.pubkeys == s.pubkeys + 1
            &&& t.pubkeys_compressed == s.pubkeys_compressed + if b { 1int } else { 0int }
            &&& t.pubkeys_uncompressed == s.pubkeys_uncompressed + if b { 0int } else { 1int }
            &&& t.pubkeys_compressed_outputs == s.pubkeys_compressed_outputs + if b { 1int } else { 0int }
            &&& t.pubkeys_uncompressed_outputs == s.pubkeys_uncompressed_outputs + if b { 0int } else { 1int }
            &&& t.pubkeys_compressed_inputs == s.pubkeys_compressed_inputs
            &&& t.pubkeys_uncompressed_inputs == s.pubkeys_uncompressed_inputs
        }),
{
    lemma_count_push_fits(ins, b, compressed());
    lemma_count_push_fits(ins, b, uncompressed());
    lemma_count_push_fits(outs, b, compressed());
    lemma_count_push_fits(outs, b, uncompressed());
    lemma_count_where_le_len(ins, compressed());
    lemma_count_where_le_len(ins, uncompressed());
    lemma_count_where_le_len(outs, compressed());
    lemma_count_where_le_len(outs, uncompressed());
}

/// Adding a transaction adds one to the count of its version when that is 1, 2 or 3, and to
/// the count of other versions otherwise; and one to the BIP-69 count when its inputs and
/// outputs are ordered as BIP-69 prescribes.
pub proof fn law_version_columns(height: i64, date: String, ps: Seq<TxPair>, p: TxPair)
    requires
        ps.len() < i32::MAX,
    ensures
        ({
            let s = tx_stats_over(height, date, ps);
            let t = tx_stats_over(height, date, ps.push(p));
            let v = p.0.version;
            &&& t.tx_version_1 == s.tx_version_1 + if v == 1 { 1int } else { 0int }
            &&& t.tx_version_2 == s.tx_version_2 + if v == 2 { 1int } else { 0int }
            &&& t.tx_version_3 == s.tx_version_3 + if v == 3 { 1int } else { 0int }
            &&& t.tx_version_unknown == s.tx_version_unknown + if v != 1 && v != 2 && v != 3 { 1int } else { 0int }
            &&& t.tx_bip69_compliant == s.tx_bip69_compliant + if p.1.is_bip69_compliant { 1int } else { 0int }
        }),
{
    lemma_count_push_fits(ps, p, tx_version_is(1));
    lemma_count_push_fits(ps, p, tx_version_is(2));
    lemma_count_push_fits(ps, p, tx_version_is(3));
    lemma_count_push_fits(ps, p, tx_version_other());
    lemma_count_push_fits(ps, p, tx_bip69());
}

/// Adding an output adds one to the count of its type, and its value to the amount of its
/// type; one to the OP_RETURN count and its value to the OP_RETURN amount for an OP_RETURN
/// output; one to the P2A dust count for a P2A output below 240 sat; and one to the coinbase
/// count of its type for an output of the coinbase.
pub proof fn law_output_type_columns(
    height: i64,
    date: String,
    coinbase_outputs: int,
    rs: Seq<OutputRecord>,
    r: OutputRecord,
)
    requires
        rs.len() < i32::MAX,
        sum_of(rs.push(r), |x: OutputRecord| x.0.value as int) <= i64::MAX,
    ensures
        ({
            let s = output_stats_over(height, date, coinbase_outputs, rs);
            let t = output_stats_over(height, date, coinbase_outputs, rs.push(r));
            let ty = r.0.out_type;
            let v = r.0.value as int;
            let cb = r.1;
            &&& t.outputs_p2pk == s.outputs_p2pk + if ty == OutputType::P2pk { 1int } else { 0int }
            &&& t.outputs_p2pkh == s.outputs_p2pkh + if ty == OutputType::P2pkh { 1int } else { 0int }
            &&& t.outputs_p2wpkh == s.outputs_p2wpkh + if ty == OutputType::P2wpkhV0 { 1int } else { 0int }
            &&& t.outputs_p2ms == s.outputs_p2ms + if ty == OutputType::P2ms { 1int } else { 0int }
            &&& t.outputs_p2sh == s.outputs_p2sh + if ty == OutputType::P2sh { 1int } else { 0int }
            &&& t.outputs_p2wsh == s.outputs_p2wsh + if ty == OutputType::P2wshV0 { 1int } else { 0int }
            &&& t.outputs_opreturn == s.outputs_opreturn + if ty is OpReturn { 1int } else { 0int }
            &&& t.outputs_p2tr == s.outputs_p2tr + if ty == OutputType::P2tr { 1int } else { 0int }
            &&& t.outputs_p2a == s.outputs_p2a + if ty == OutputType::P2a { 1int } else { 0int }
            &&& t.outputs_p2a_dust == s.outputs_p2a_dust + if ty == OutputType::P2a && v < 240 { 1int } else { 0int }
            &&& t.outputs_unknown == s.outputs_unknown + if ty == OutputType::Unknown { 1int } else { 0int }
            &&& t.outputs_p2pk_amount == s.outputs_p2pk_amount + if ty == OutputType::P2pk { v } else { 0int }
            &&& t.outputs_p2pkh_amount == s.outputs_p2pkh_amount + if ty == OutputType::P2pkh { v } else { 0int }
            &&& t.outputs_p2wpkh_amount == s.outputs_p2wpkh_amount + if ty == OutputType::P2wpkhV0 { v } else { 0int }
            &&& t.outputs_p2ms_amount == s.outputs_p2ms_amount + if ty == OutputType::P2ms { v } else { 0int }
            &&& t.outputs_p2sh_amount == s.outputs_p2sh_amount + if ty == OutputType::P2sh { v } else { 0int }
            &&& t.outputs_p2wsh_amount == s.outputs_p2wsh_amount + if ty == OutputType::P2wshV0 { v } else { 0int }
            &&& t.outputs_p2tr_amount == s.outputs_p2tr_amount + if ty == OutputType::P2tr { v } else { 0int }
            &&& t.outputs_p2a_amount == s.outputs_p2a_amount + if ty == OutputType::P2a { v } else { 0int }
            &&& t.outputs_opreturn_amount == s.outputs_opreturn_amount + if ty is OpReturn { v } else { 0int }
            &&& t.outputs_unknown_amount == s.outputs_unknown_amount + if ty == OutputType::Unknown { v } else { 0int }
            &&& t.outputs_coinbase_p2pk == s.outputs_coinbase_p2pk + if cb && ty == OutputType::P2pk { 1int } else { 0int }
            &&& t.outputs_coinbase_p2pkh == s.outputs_coinbase_p2pkh + if cb && ty == OutputType::P2pkh { 1int } else { 0int }
            &&& t.outputs_coinbase_p2wpkh == s.outputs_coinbase_p2wpkh + if cb && ty == OutputType::P2wpkhV0 { 1int } else { 0int }
            &&& t.outputs_coinbase_p2ms == s.outputs_coinbase_p2ms + if cb && ty == OutputType::P2ms { 1int } else { 0int }
            &&& t.outputs_coinbase_p2sh == s.outputs_coinbase_p2sh + if cb && ty == OutputType::P2sh { 1int } else { 0int }
            &&& t.outputs_coinbase_p2wsh == s.outputs_coinbase_p2wsh + if cb && ty == OutputType::P2wshV0 { 1int } else { 0int }
            &&& t.outputs_coinbase_p2tr == s.outputs_coinbase_p2tr + if cb && ty == OutputType::P2tr { 1int } else { 0int }
            &&& t.outputs_coinbase_opreturn == s.outputs_coinbase_opreturn + if cb && ty is OpReturn { 1int } else { 0int }
            &&& t.outputs_coinbase_unknown == s.outputs_coinbase_unknown + if cb && ty == OutputType::Unknown { 1int } else { 0int }
        }),
{
    let q = rs.push(r);
    let all = |x: OutputRecord| x.0.value as int;
    let types: Seq<OutputType> = seq![
        OutputType::P2pk,
        OutputType::P2pkh,
        OutputType::P2wpkhV0,
        OutputType::P2ms,
        OutputType::P2sh,
        OutputType::P2wshV0,
        OutputType::P2tr,
        OutputType::P2a,
        OutputType::Unknown,
    ];
    assert forall|k: int| 0 <= k < 9 implies {
        &&& count_where(q, out_is(#[trigger] types[k])) == count_where(rs, out_is(types[k]))
            + if r.0.out_type == types[k] { 1int } else { 0int }
        &&& count_where(q, out_is(types[k])) <= q.len()
        &&& count_where(q, out_coinbase_is(types[k])) == count_where(rs, out_coinbase_is(types[k]))
            + if r.1 && r.0.out_type == types[k] { 1int } else { 0int }
        &&& count_where(q, out_coinbase_is(types[k])) <= q.len()
        &&& sum_of(q, out_value_if(types[k])) == sum_of(rs, out_value_if(types[k]))
            + if r.0.out_type == types[k] { r.0.value as int } else { 0int }
        &&& 0 <= sum_of(rs, out_value_if(types[k])) <= sum_of(q, out_value_if(types[k])) <= i64::MAX
    } by {
        lemma_count_push_fits(rs, r, out_is(types[k]));
        lemma_count_push_fits(rs, r, out_coinbase_is(types[k]));
        lemma_sum_of_push(rs, r, out_value_if(types[k]));
        assert forall|x: OutputRecord| #[trigger] out_value_if(types[k])(x) <= all(x) by {}
        assert forall|x: OutputRecord| 0 <= #[trigger] out_value_if(types[k])(x) by {}
        lemma_sum_of_le(q, out_value_if(types[k]), all);
        lemma_sum_of_nonneg(rs, out_value_if(types[k]));
    }
    assert(types[0] == OutputType::P2pk && types[1] == OutputType::P2pkh && types[2] == OutputType::P2wpkhV0);
    assert(types[3] == OutputType::P2ms && types[4] == OutputType::P2sh && types[5] == OutputType::P2wshV0);
    assert(types[6] == OutputType::P2tr && types[7] == OutputType::P2a && types[8] == OutputType::Unknown);
    lemma_count_push_fits(rs, r, out_is_opreturn());
    lemma_count_push_fits(rs, r, out_coinbase_opreturn());
    lemma_count_push_fits(rs, r, out_p2a_dust());
    lemma_sum_of_push(rs, r, out_opreturn_value());
    assert forall|x: OutputRecord| #[trigger] out_opreturn_value()(x) <= all(x) by {}
    assert forall|x: OutputRecord| 0 <= #[trigger] out_opreturn_value()(x) by {}
    lemma_sum_of_le(q, out_opreturn_value(), all);
    lemma_sum_of_nonneg(rs, out_opreturn_value());
}

/// Adding a transaction with one analyzed input adds one to the count of the input's type:
/// P2PK (strict or lax DER), P2PKH (strict or lax DER), nested P2WPKH, P2WPKH, P2MS (strict
/// or lax DER), P2SH, nested P2WSH, P2WSH, coinbase, witness coinbase, Taproot key path and
/// Taproot script path; and one to the SegWit, nested SegWit, native SegWit and Taproot counts
/// when the input is of such a type.
pub proof fn law_input_type_columns(
    height: i64,
    date: String,
    ids: Seq<Txid>,
    ps: Seq<TxPair>,
    p: TxPair,
)
    requires
        all_input_infos(ps).len() + 1 < i32::MAX,
        all_inputs(ps.push(p)).len() <= i32::MAX,
        p.1.input_infos@.len() == 1,
    ensures
        ({
            let s = input_stats_over(height, date, ids, ps);
            let t = input_stats_over(height, date, ids, ps.push(p));
            let ty = p.1.input_infos@[0].in_type;
            &&& t.inputs_p2pk == s.inputs_p2pk + if ty == InputType::P2pk || ty == InputType::P2pkLaxDer { 1int } else { 0int }
            &&& t.inputs_p2pkh == s.inputs_p2pkh + if ty == InputType::P2pkh || ty == InputType::P2pkhLaxDer { 1int } else { 0int }
            &&& t.inputs_nested_p2wpkh == s.inputs_nested_p2wpkh + if ty == InputType::P2shP2wpkh { 1int } else { 0int }
            &&& t.inputs_p2wpkh == s.inputs_p2wpkh + if ty == InputType::P2wpkh { 1int } else { 0int }
            &&& t.inputs_p2ms == s.inputs_p2ms + if ty == InputType::P2ms || ty == InputType::P2msLaxDer { 1int } else { 0int }
            &&& t.inputs_p2sh == s.inputs_p2sh + if ty == InputType::P2sh { 1int } else { 0int }
            &&& t.inputs_nested_p2wsh == s.inputs_nested_p2wsh + if ty == InputType::P2shP2wsh { 1int } else { 0int }
            &&& t.inputs_p2wsh == s.inputs_p2wsh + if ty == InputType::P2wsh { 1int } else { 0int }
            &&& t.inputs_coinbase == s.inputs_coinbase + if ty == InputType::Coinbase { 1int } else { 0int }
            &&& t.inputs_witness_coinbase == s.inputs_witness_coinbase + if ty == InputType::CoinbaseWitness { 1int } else { 0int }
            &&& t.inputs_p2tr_keypath == s.inputs_p2tr_keypath + if ty == InputType::P2trkp { 1int } else { 0int }
            &&& t.inputs_p2tr_scriptpath == s.inputs_p2tr_scriptpath + if ty == InputType::P2trsp { 1int } else { 0int }
            &&& t.inputs_spending_nested_segwit == s.inputs_spending_nested_segwit + if ty == InputType::P2shP2wpkh || ty == InputType::P2shP2wsh { 1int } else { 0int }
            &&& t.inputs_spending_native_segwit == s.inputs_spending_native_segwit + if ty == InputType::P2wpkh || ty == InputType::P2wsh || ty == InputType::P2trkp || ty == InputType::P2trsp || ty == InputType::P2a { 1int } else { 0int }
            &&& t.inputs_spending_taproot == s.inputs_spending_taproot + if ty == InputType::P2trkp || ty == InputType::P2trsp { 1int } else { 0int }
            &&& t.inputs_spending_segwit == s.inputs_spending_segwit + if ty == InputType::P2shP2wpkh || ty == InputType::P2shP2wsh || ty == InputType::P2wpkh || ty == InputType::P2wsh || ty == InputType::P2trkp || ty == InputType::P2trsp || ty == InputType::P2a { 1int } else { 0int }
        }),
{
    let is = all_input_infos(ps);
    let i = p.1.input_infos@[0];
    assert(all_input_infos(ps.push(p)) =~= is.push(i)) by {
        crate::seqs::lemma_flat_map_push(ps, p, input_infos_of());
        assert(input_infos_of()(p) =~= seq![i]);
    }
    let q = is.push(i);
    let pairs: Seq<(InputType, InputType)> = seq![
        (InputType::P2pk, InputType::P2pkLaxDer),
        (InputType::P2pkh, InputType::P2pkhLaxDer),
        (InputType::P2ms, InputType::P2msLaxDer),
    ];
    assert forall|k: int| 0 <= k < 3 implies {
        &&& count_where(q, input_type_is_either((#[trigger] pairs[k]).0, pairs[k].1)) == count_where(
            is,
            input_type_is_either(pairs[k].0, pairs[k].1),
        ) + if i.in_type == pairs[k].0 || i.in_type == pairs[k].1 { 1int } else { 0int }
        &&& count_where(q, input_type_is_either(pairs[k].0, pairs[k].1)) <= q.len()
    } by {
        lemma_count_where_push(is, i, input_type_is_either(pairs[k].0, pairs[k].1));
        lemma_count_where_le_len(q, input_type_is_either(pairs[k].0, pairs[k].1));
    }
    let singles: Seq<InputType> = seq![
        InputType::P2shP2wpkh,
        InputType::P2wpkh,
        InputType::P2sh,
        InputType::P2shP2wsh,
        InputType::P2wsh,
        InputType::Coinbase,
        InputType::CoinbaseWitness,
        InputType::P2trkp,
        InputType::P2trsp,
    ];
    assert forall|k: int| 0 <= k < 9 implies {
        &&& count_where(q, input_type_is(#[trigger] singles[k])) == count_where(is, input_type_is(singles[k]))
            + if i.in_type == singles[k] { 1int } else { 0int }
        &&& count_where(q, input_type_is(singles[k])) <= q.len()
    } by {
        lemma_count_where_push(is, i, input_type_is(singles[k]));
        lemma_count_where_le_len(q, input_type_is(singles[k]));
    }
    assert(pairs[0] == (InputType::P2pk, InputType::P2pkLaxDer));
    assert(pairs[1] == (InputType::P2pkh, InputType::P2pkhLaxDer));
    assert(pairs[2] == (InputType::P2ms, InputType::P2msLaxDer));
    assert(singles[0] == InputType::P2shP2wpkh && singles[1] == InputType::P2wpkh && singles[2] == InputType::P2sh);
    assert(singles[3] == InputType::P2shP2wsh && singles[4] == InputType::P2wsh && singles[5] == InputType::Coinbase);
    assert(singles[6] == InputType::CoinbaseWitness && singles[7] == InputType::P2trkp && singles[8] == InputType::P2trsp);
    lemma_count_where_push(is, i, input_nested_segwit());
    lemma_count_where_push(is, i, input_native_segwit());
    lemma_count_where_push(is, i, input_taproot());
    lemma_count_where_push(is, i, input_segwit());
    lemma_count_where_le_len(q, input_nested_segwit());
    lemma_count_where_le_len(q, input_native_segwit());
    lemma_count_where_le_len(q, input_taproot());
    lemma_count_where_le_len(q, input_segwit());
}

/// Adding a transaction's analysis to a block adds its payments to the block's payments, and
/// to the payments of SegWit-spending, Taproot-spending and replaceability-signaling
/// transactions when it is such a transaction; a block without analyses has no payments.
pub proof fn law_block_payment_columns(
    block: Block,
    date: String,
    infos: Seq<TxSummary>,
    ti: TxSummary,
    pool_id: i32,
    bits: i32,
    coinbase_weight: i64,
    coinbase_lock_time: u32,
    coinbase_sequences: Seq<u32>,
    coinbase_values: Seq<u64>,
)
    requires
        sum_of(infos.push(ti), payments_where(any_summary())) <= i32::MAX,
    ensures
        ({
            let s = spec_block_stats(block, date, infos, pool_id, bits, coinbase_weight, coinbase_lock_time, coinbase_sequences, coinbase_values);
            let t = spec_block_stats(block, date, infos.push(ti), pool_id, bits, coinbase_weight, coinbase_lock_time, coinbase_sequences, coinbase_values);
            let n = ti.spec_payments() as int;
            &&& t.payments == s.payments + n
            &&& t.payments_segwit_spending_tx == s.payments_segwit_spending_tx + if ti.spec_spending_segwit() { n } else { 0int }
            &&& t.payments_taproot_spending_tx == s.payments_taproot_spending_tx + if ti.spec_spending_taproot() { n } else { 0int }
            &&& t.payments_signaling_explicit_rbf == s.payments_signaling_explicit_rbf + if ti.spec_signals_rbf() { n } else { 0int }
        }),
        spec_block_stats(block, date, Seq::<TxSummary>::empty(), pool_id, bits, coinbase_weight, coinbase_lock_time, coinbase_sequences, coinbase_values).payments == 0,
{
    let q = infos.push(ti);
    let all = payments_where(any_summary());
    lemma_sum_of_push(infos, ti, all);
    lemma_sum_of_push(infos, ti, payments_where(summary_spends_segwit()));
    lemma_sum_of_push(infos, ti, payments_where(summary_spends_taproot()));
    lemma_sum_of_push(infos, ti, payments_where(summary_signals_rbf()));
    assert forall|t: TxSummary| 0 <= #[trigger] all(t) by {}
    assert forall|t: TxSummary| #[trigger] payments_where(summary_spends_segwit())(t) <= all(t) by {}
    assert forall|t: TxSummary| #[trigger] payments_where(summary_spends_taproot())(t) <= all(t) by {}
    assert forall|t: TxSummary| #[trigger] payments_where(summary_signals_rbf())(t) <= all(t) by {}
    assert forall|t: TxSummary| 0 <= #[trigger] payments_where(summary_spends_segwit())(t) by {}
    assert forall|t: TxSummary| 0 <= #[trigger] payments_where(summary_spends_taproot())(t) by {}
    assert forall|t: TxSummary| 0 <= #[trigger] payments_where(summary_signals_rbf())(t) by {}
    lemma_sum_of_nonneg(infos, all);
    lemma_sum_of_le(q, payments_where(summary_spends_segwit()), all);
    lemma_sum_of_le(q, payments_where(summary_spends_taproot()), all);
    lemma_sum_of_le(q, payments_where(summary_signals_rbf()), all);
    lemma_sum_of_nonneg(infos, payments_where(summary_spends_segwit()));
    lemma_sum_of_nonneg(infos, payments_where(summary_spends_taproot()));
    lemma_sum_of_nonneg(infos, payments_where(summary_signals_rbf()));
}

} // verus!
