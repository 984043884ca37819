//! Input-level statistics of a block.

use vstd::prelude::*;
use crate::model::{Block, InputData, ScriptPubkeyType, Tx, TxIn, Txid};
use crate::seqs::{
    count_where, flat_map, lemma_flat_map_concat, lemma_flat_map_prefix_len, lemma_flat_map_push,
    lemma_take_push,
};
use crate::tx_stats::{tx_pairs, TxPair};
use crate::txinfo::{InputSummary, InputType, TxSummary};

verus! {

broadcast use crate::seqs::group_seqs;

/// Spent pay-to-anchor outputs below this value in satoshi are dust.
pub const P2A_DUST_THRESHOLD: u64 = 240;

/// Input counts of a block.
#[derive(Clone, Debug)]
pub struct InputStats {
    pub height: i64,
    pub date: String,
    pub inputs_spending_legacy: i32,
    pub inputs_spending_segwit: i32,
    pub inputs_spending_taproot: i32,
    pub inputs_spending_nested_segwit: i32,
    pub inputs_spending_native_segwit: i32,
    pub inputs_spending_multisig: i32,
    pub inputs_spending_p2ms_multisig: i32,
    pub inputs_spending_p2sh_multisig: i32,
    pub inputs_spending_nested_p2wsh_multisig: i32,
    pub inputs_spending_p2wsh_multisig: i32,
    pub inputs_p2pk: i32,
    pub inputs_p2pkh: i32,
    pub inputs_nested_p2wpkh: i32,
    pub inputs_p2wpkh: i32,
    pub inputs_p2ms: i32,
    pub inputs_p2sh: i32,
    pub inputs_nested_p2wsh: i32,
    pub inputs_p2wsh: i32,
    pub inputs_coinbase: i32,
    pub inputs_witness_coinbase: i32,
    pub inputs_p2tr_keypath: i32,
    pub inputs_p2tr_scriptpath: i32,
    /// Inputs spending a pay-to-anchor output.
    pub inputs_p2a: i32,
    /// Inputs spending a pay-to-anchor output below the dust threshold.
    pub inputs_p2a_dust: i32,
    /// Inputs of unknown or anchor type, less the inputs spending an anchor output.
    pub inputs_unknown: i32,
    /// Inputs spending an output created in the same block.
    pub inputs_spend_in_same_block: i32,
    pub inputs_spending_prev_1_blocks: i32,
    pub inputs_spending_prev_6_blocks: i32,
    pub inputs_spending_prev_144_blocks: i32,
    pub inputs_spending_prev_2016_blocks: i32,
}

pub open spec fn input_infos_of() -> spec_fn(TxPair) -> Seq<InputSummary> {
    |p: TxPair| p.1.input_infos@
}

pub open spec fn inputs_of() -> spec_fn(TxPair) -> Seq<TxIn> {
    |p: TxPair| p.0.input@
}

/// The analyzed inputs of a sequence of transaction pairs, in order.
pub open spec fn all_input_infos(ps: Seq<TxPair>) -> Seq<InputSummary> {
    flat_map(ps, input_infos_of())
}

/// The inputs of a sequence of transaction pairs, in order.
pub open spec fn all_inputs(ps: Seq<TxPair>) -> Seq<TxIn> {
    flat_map(ps, inputs_of())
}

pub open spec fn input_type_is(t: InputType) -> spec_fn(InputSummary) -> bool {
    |i: InputSummary| i.in_type == t
}

pub open spec fn input_type_is_either(a: InputType, b: InputType) -> spec_fn(InputSummary) -> bool {
    |i: InputSummary| i.in_type == a || i.in_type == b
}

pub open spec fn input_legacy() -> spec_fn(InputSummary) -> bool {
    |i: InputSummary| i.in_type.spec_is_legacy()
}

pub open spec fn input_segwit() -> spec_fn(InputSummary) -> bool {
    |i: InputSummary| i.in_type.spec_is_segwit()
}

pub open spec fn input_taproot() -> spec_fn(InputSummary) -> bool {
    |i: InputSummary| i.in_type.spec_is_taproot()
}

pub open spec fn input_nested_segwit() -> spec_fn(InputSummary) -> bool {
    |i: InputSummary| i.in_type.spec_is_nested_segwit()
}

pub open spec fn input_native_segwit() -> spec_fn(InputSummary) -> bool {
    |i: InputSummary| i.in_type.spec_is_native_segwit()
}

pub open spec fn input_multisig() -> spec_fn(InputSummary) -> bool {
    |i: InputSummary| i.multisig
}

pub open spec fn input_multisig_of(t: InputType) -> spec_fn(InputSummary) -> bool {
    |i: InputSummary| i.multisig && i.in_type == t
}

/// The transaction id an input spends from, if it is not a coinbase input.
pub open spec fn spent_txid(i: TxIn) -> Option<Txid> {
    match i.data {
        InputData::NonCoinbase { txid, .. } => Some(txid),
        InputData::Coinbase => None,
    }
}

/// A non-coinbase input spending a transaction whose id is among `ids`.
pub open spec fn spends_from(ids: Seq<Txid>) -> spec_fn(TxIn) -> bool {
    |i: TxIn| spent_txid(i) matches Some(txid) && ids.contains(txid)
}

/// A non-coinbase input spending a pay-to-anchor output.
pub open spec fn spends_anchor() -> spec_fn(TxIn) -> bool {
    |i: TxIn|
        i.data matches InputData::NonCoinbase { prevout, .. } && prevout.script_type
            == ScriptPubkeyType::Anchor
}

/// A non-coinbase input spending a pay-to-anchor output below the dust threshold.
pub open spec fn spends_anchor_dust() -> spec_fn(TxIn) -> bool {
    |i: TxIn|
        i.data matches InputData::NonCoinbase { prevout, .. } && prevout.script_type
            == ScriptPubkeyType::Anchor && prevout.value < P2A_DUST_THRESHOLD
}

/// The number of blocks between the spent output's block and `height`; zero for an output of
/// the same block.
pub open spec fn confirmation_age(height: i64, ids: Seq<Txid>, i: TxIn) -> int {
    match i.data {
        InputData::NonCoinbase { txid, prevout, .. } => if ids.contains(txid) {
            0
        } else {
            height - prevout.height
        },
        InputData::Coinbase => 0,
    }
}

/// A non-coinbase input spending an output at most `k` blocks old.
pub open spec fn spends_within(height: i64, ids: Seq<Txid>, k: int) -> spec_fn(TxIn) -> bool {
    |i: TxIn| i.is_non_coinbase() && confirmation_age(height, ids, i) <= k
}

/// The input statistics over a sequence of transaction pairs, in a block at `height` whose
/// transaction ids are `ids`.
pub open spec fn input_stats_over(height: i64, date: String, ids: Seq<Txid>, ps: Seq<TxPair>) -> InputStats {
    let infos = all_input_infos(ps);
    let ins = all_inputs(ps);
    InputStats {
        height,
        date,
        inputs_spending_legacy: count_where(infos, input_legacy()) as i32,
        inputs_spending_segwit: count_where(infos, input_segwit()) as i32,
        inputs_spending_taproot: count_where(infos, input_taproot()) as i32,
        inputs_spending_nested_segwit: count_where(infos, input_nested_segwit()) as i32,
        inputs_spending_native_segwit: count_where(infos, input_native_segwit()) as i32,
        inputs_spending_multisig: count_where(infos, input_multisig()) as i32,
        inputs_spending_p2ms_multisig: count_where(infos, input_multisig_of(InputType::P2ms)) as i32,
        inputs_spending_p2sh_multisig: count_where(infos, input_multisig_of(InputType::P2sh)) as i32,
        inputs_spending_nested_p2wsh_multisig: count_where(
            infos,
            input_multisig_of(InputType::P2shP2wsh),
        ) as i32,
        inputs_spending_p2wsh_multisig: count_where(infos, input_multisig_of(InputType::P2wsh))
            as i32,
        inputs_p2pk: count_where(infos, input_type_is_either(InputType::P2pk, InputType::P2pkLaxDer))
            as i32,
        inputs_p2pkh: count_where(
            infos,
            input_type_is_either(InputType::P2pkh, InputType::P2pkhLaxDer),
        ) as i32,
        inputs_nested_p2wpkh: count_where(infos, input_type_is(InputType::P2shP2wpkh)) as i32,
        inputs_p2wpkh: count_where(infos, input_type_is(InputType::P2wpkh)) as i32,
        inputs_p2ms: count_where(infos, input_type_is_either(InputType::P2ms, InputType::P2msLaxDer))
            as i32,
        inputs_p2sh: count_where(infos, input_type_is(InputType::P2sh)) as i32,
        inputs_nested_p2wsh: count_where(infos, input_type_is(InputType::P2shP2wsh)) as i32,
        inputs_p2wsh: count_where(infos, input_type_is(InputType::P2wsh)) as i32,
        inputs_coinbase: count_where(infos, input_type_is(InputType::Coinbase)) as i32,
        inputs_witness_coinbase: count_where(infos, input_type_is(InputType::CoinbaseWitness))
            as i32,
        inputs_p2tr_keypath: count_where(infos, input_type_is(InputType::P2trkp)) as i32,
        inputs_p2tr_scriptpath: count_where(infos, input_type_is(InputType::P2trsp)) as i32,
        inputs_p2a: count_where(ins, spends_anchor()) as i32,
        inputs_p2a_dust: count_where(ins, spends_anchor_dust()) as i32,
        inputs_unknown: (count_where(
            infos,
            input_type_is_either(InputType::Unknown, InputType::P2a),
        ) - count_where(ins, spends_anchor())) as i32,
        inputs_spend_in_same_block: count_where(ins, spends_from(ids)) as i32,
        inputs_spending_prev_1_blocks: count_where(ins, spends_within(height, ids, 1)) as i32,
        inputs_spending_prev_6_blocks: count_where(ins, spends_within(height, ids, 6)) as i32,
        inputs_spending_prev_144_blocks: count_where(ins, spends_within(height, ids, 144)) as i32,
        inputs_spending_prev_2016_blocks: count_where(ins, spends_within(height, ids, 2016)) as i32,
    }
}

/// The input statistics of a block.
pub open spec fn spec_input_stats(block: Block, date: String, infos: Seq<TxSummary>) -> InputStats {
    input_stats_over(block.height, date, block.txids(), tx_pairs(block, infos))
}

/// What `InputStats::from_block` needs of its arguments: the counts fit in `i32`, and the age
/// of every spent output of an earlier block fits in `i64`.
pub open spec fn input_stats_fits(block: Block, infos: Seq<TxSummary>) -> bool {
    let ps = tx_pairs(block, infos);
    &&& all_input_infos(ps).len() <= i32::MAX
    &&& all_inputs(ps).len() <= i32::MAX
    &&& ages_fit(block, all_inputs(ps))
}

/// The age of the output an input spends fits in `i64`, unless the output was created in the
/// block itself.
pub open spec fn age_fits(block: Block, input: TxIn) -> bool {
    match input.data {
        InputData::NonCoinbase { txid, prevout, .. } => block.txids().contains(txid) || (i64::MIN
            <= block.height - prevout.height <= i64::MAX),
        InputData::Coinbase => true,
    }
}

/// Counts one analyzed input by the kinds of outputs it spends.
fn add_spending_counts(
    legacy: &mut i32,
    segwit: &mut i32,
    taproot: &mut i32,
    nested: &mut i32,
    native: &mut i32,
    multisig: &mut i32,
    p2ms_multisig: &mut i32,
    nested_p2wsh_multisig: &mut i32,
    p2wsh_multisig: &mut i32,
    p2sh_multisig: &mut i32,
    input: &InputSummary,
    Ghost(pre): Ghost<Seq<InputSummary>>,
)
    requires
        pre.len() < i32::MAX,
        *old(legacy) == count_where(pre, input_legacy()) as i32,
        *old(segwit) == count_where(pre, input_segwit()) as i32,
        *old(taproot) == count_where(pre, input_taproot()) as i32,
        *old(nested) == count_where(pre, input_nested_segwit()) as i32,
        *old(native) == count_where(pre, input_native_segwit()) as i32,
        *old(multisig) == count_where(pre, input_multisig()) as i32,
        *old(p2ms_multisig) == count_where(pre, input_multisig_of(InputType::P2ms)) as i32,
        *old(nested_p2wsh_multisig) == count_where(pre, input_multisig_of(InputType::P2shP2wsh))
            as i32,
        *old(p2wsh_multisig) == count_where(pre, input_multisig_of(InputType::P2wsh)) as i32,
        *old(p2sh_multisig) == count_where(pre, input_multisig_of(InputType::P2sh)) as i32,
    ensures
        *final(legacy) == count_where(pre.push(*input), input_legacy()) as i32,
        *final(segwit) == count_where(pre.push(*input), input_segwit()) as i32,
        *final(taproot) == count_where(pre.push(*input), input_taproot()) as i32,
        *final(nested) == count_where(pre.push(*input), input_nested_segwit()) as i32,
        *final(native) == count_where(pre.push(*input), input_native_segwit()) as i32,
        *final(multisig) == count_where(pre.push(*input), input_multisig()) as i32,
        *final(p2ms_multisig) == count_where(pre.push(*input), input_multisig_of(InputType::P2ms))
            as i32,
        *final(nested_p2wsh_multisig) == count_where(
            pre.push(*input),
            input_multisig_of(InputType::P2shP2wsh),
        ) as i32,
        *final(p2wsh_multisig) == count_where(
            pre.push(*input),
            input_multisig_of(InputType::P2wsh),
        ) as i32,
        *final(p2sh_multisig) == count_where(pre.push(*input), input_multisig_of(InputType::P2sh))
            as i32,
{
    if input.is_spending_legacy() {
        *legacy = *legacy + 1;
    }
    if input.is_spending_segwit() {
        *segwit = *segwit + 1;
    }
    if input.is_spending_taproot() {
        *taproot = *taproot + 1;
    }
    if input.is_spending_nested_segwit() {
        *nested = *nested + 1;
    }
    if input.is_spending_native_segwit() {
        *native = *native + 1;
    }
    if input.is_spending_multisig() {
        *multisig = *multisig + 1;
        match input.in_type {
            InputType::P2ms => *p2ms_multisig = *p2ms_multisig + 1,
            InputType::P2shP2wsh => *nested_p2wsh_multisig = *nested_p2wsh_multisig + 1,
            InputType::P2wsh => *p2wsh_multisig = *p2wsh_multisig + 1,
            InputType::P2sh => *p2sh_multisig = *p2sh_multisig + 1,
            _ => {},
        }
    }
}

/// Counts one analyzed input by its type.
fn add_type_counts(
    p2pk: &mut i32,
    p2pkh: &mut i32,
    nested_p2wpkh: &mut i32,
    p2wpkh: &mut i32,
    p2ms: &mut i32,
    p2sh: &mut i32,
    nested_p2wsh: &mut i32,
    p2wsh: &mut i32,
    coinbase: &mut i32,
    witness_coinbase: &mut i32,
    p2tr_keypath: &mut i32,
    p2tr_scriptpath: &mut i32,
    unknown: &mut i32,
    input: &InputSummary,
    Ghost(pre): Ghost<Seq<InputSummary>>,
    Ghost(anchors): Ghost<int>,
)
    requires
        pre.len() < i32::MAX,
        0 <= anchors <= i32::MAX,
        *old(p2pk) == count_where(pre, input_type_is_either(InputType::P2pk, InputType::P2pkLaxDer))
            as i32,
        *old(p2pkh) == count_where(
            pre,
            input_type_is_either(InputType::P2pkh, InputType::P2pkhLaxDer),
        ) as i32,
        *old(nested_p2wpkh) == count_where(pre, input_type_is(InputType::P2shP2wpkh)) as i32,
        *old(p2wpkh) == count_where(pre, input_type_is(InputType::P2wpkh)) as i32,
        *old(p2ms) == count_where(pre, input_type_is_either(InputType::P2ms, InputType::P2msLaxDer))
            as i32,
        *old(p2sh) == count_where(pre, input_type_is(InputType::P2sh)) as i32,
        *old(nested_p2wsh) == count_where(pre, input_type_is(InputType::P2shP2wsh)) as i32,
        *old(p2wsh) == count_where(pre, input_type_is(InputType::P2wsh)) as i32,
        *old(coinbase) == count_where(pre, input_type_is(InputType::Coinbase)) as i32,
        *old(witness_coinbase) == count_where(pre, input_type_is(InputType::CoinbaseWitness))
            as i32,
        *old(p2tr_keypath) == count_where(pre, input_type_is(InputType::P2trkp)) as i32,
        *old(p2tr_scriptpath) == count_where(pre, input_type_is(InputType::P2trsp)) as i32,
        *old(unknown) == (count_where(pre, input_type_is_either(InputType::Unknown, InputType::P2a))
            - anchors) as i32,
    ensures
        *final(p2pk) == count_where(
            pre.push(*input),
            input_type_is_either(InputType::P2pk, InputType::P2pkLaxDer),
        ) as i32,
        *final(p2pkh) == count_where(
            pre.push(*input),
            input_type_is_either(InputType::P2pkh, InputType::P2pkhLaxDer),
        ) as i32,
        *final(nested_p2wpkh) == count_where(pre.push(*input), input_type_is(InputType::P2shP2wpkh))
            as i32,
        *final(p2wpkh) == count_where(pre.push(*input), input_type_is(InputType::P2wpkh)) as i32,
        *final(p2ms) == count_where(
            pre.push(*input),
            input_type_is_either(InputType::P2ms, InputType::P2msLaxDer),
        ) as i32,
        *final(p2sh) == count_where(pre.push(*input), input_type_is(InputType::P2sh)) as i32,
        *final(nested_p2wsh) == count_where(pre.push(*input), input_type_is(InputType::P2shP2wsh))
            as i32,
        *final(p2wsh) == count_where(pre.push(*input), input_type_is(InputType::P2wsh)) as i32,
        *final(coinbase) == count_where(pre.push(*input), input_type_is(InputType::Coinbase))
            as i32,
        *final(witness_coinbase) == count_where(
            pre.push(*input),
            input_type_is(InputType::CoinbaseWitness),
        ) as i32,
        *final(p2tr_keypath) == count_where(pre.push(*input), input_type_is(InputType::P2trkp))
            as i32,
        *final(p2tr_scriptpath) == count_where(pre.push(*input), input_type_is(InputType::P2trsp))
            as i32,
        *final(unknown) == (count_where(
            pre.push(*input),
            input_type_is_either(InputType::Unknown, InputType::P2a),
        ) - anchors) as i32,
{
    match input.in_type {
        InputType::P2pk | InputType::P2pkLaxDer => *p2pk = *p2pk + 1,
        InputType::P2pkh | InputType::P2pkhLaxDer => *p2pkh = *p2pkh + 1,
        InputType::P2shP2wpkh => *nested_p2wpkh = *nested_p2wpkh + 1,
        InputType::P2wpkh => *p2wpkh = *p2wpkh + 1,
        InputType::P2ms | InputType::P2msLaxDer => *p2ms = *p2ms + 1,
        InputType::P2sh => *p2sh = *p2sh + 1,
        InputType::P2shP2wsh => *nested_p2wsh = *nested_p2wsh + 1,
        InputType::P2wsh => *p2wsh = *p2wsh + 1,
        InputType::Coinbase => *coinbase = *coinbase + 1,
        InputType::CoinbaseWitness => *witness_coinbase = *witness_coinbase + 1,
        InputType::P2trkp => *p2tr_keypath = *p2tr_keypath + 1,
        InputType::P2trsp => *p2tr_scriptpath = *p2tr_scriptpath + 1,
        InputType::Unknown | InputType::P2a => *unknown = *unknown + 1,
    }
}

/// Counts one input of the block by what it spends: an anchor, an output of this block, and
/// how old the spent output is.
fn add_spend_counts(
    same_block: &mut i32,
    p2a: &mut i32,
    p2a_dust: &mut i32,
    unknown: &mut i32,
    prev_1: &mut i32,
    prev_6: &mut i32,
    prev_144: &mut i32,
    prev_2016: &mut i32,
    block: &Block,
    input: &TxIn,
    Ghost(pre): Ghost<Seq<TxIn>>,
    Ghost(unknown_types): Ghost<int>,
)
    requires
        pre.len() < i32::MAX,
        0 <= unknown_types <= i32::MAX,
        match input.data {
            InputData::NonCoinbase { txid, prevout, .. } => block.txids().contains(txid) || (
            i64::MIN <= block.height - prevout.height <= i64::MAX),
            InputData::Coinbase => true,
        },
        *old(same_block) == count_where(pre, spends_from(block.txids())) as i32,
        *old(p2a) == count_where(pre, spends_anchor()) as i32,
        *old(p2a_dust) == count_where(pre, spends_anchor_dust()) as i32,
        *old(unknown) == (unknown_types - count_where(pre, spends_anchor())) as i32,
        *old(prev_1) == count_where(pre, spends_within(block.height, block.txids(), 1)) as i32,
        *old(prev_6) == count_where(pre, spends_within(block.height, block.txids(), 6)) as i32,
        *old(prev_144) == count_where(pre, spends_within(block.height, block.txids(), 144)) as i32,
        *old(prev_2016) == count_where(pre, spends_within(block.height, block.txids(), 2016))
            as i32,
    ensures
        *final(same_block) == count_where(pre.push(*input), spends_from(block.txids())) as i32,
        *final(p2a) == count_where(pre.push(*input), spends_anchor()) as i32,
        *final(p2a_dust) == count_where(pre.push(*input), spends_anchor_dust()) as i32,
        *final(unknown) == (unknown_types - count_where(pre.push(*input), spends_anchor())) as i32,
        *final(prev_1) == count_where(
            pre.push(*input),
            spends_within(block.height, block.txids(), 1),
        ) as i32,
        *final(prev_6) == count_where(
            pre.push(*input),
            spends_within(block.height, block.txids(), 6),
        ) as i32,
        *final(prev_144) == count_where(
            pre.push(*input),
            spends_within(block.height, block.txids(), 144),
        ) as i32,
        *final(prev_2016) == count_where(
            pre.push(*input),
            spends_within(block.height, block.txids(), 2016),
        ) as i32,
{
    match input.data {
        InputData::Coinbase => {},
        InputData::NonCoinbase { txid, prevout, .. } => {
            // the spent output's height is not known for outputs of this block
            let is_same_block = block.has_txid(txid);
            if is_same_block {
                *same_block = *same_block + 1;
            }
            if prevout.script_type == ScriptPubkeyType::Anchor {
                *p2a = *p2a + 1;
                *unknown = *unknown - 1;
                if prevout.value < P2A_DUST_THRESHOLD {
                    *p2a_dust = *p2a_dust + 1;
                }
            }
            let confirmation_age: i64 = if is_same_block {
                0
            } else {
                block.height - prevout.height
            };
            if confirmation_age <= 1 {
                *prev_1 = *prev_1 + 1;
            }
            if confirmation_age <= 6 {
                *prev_6 = *prev_6 + 1;
            }
            if confirmation_age <= 144 {
                *prev_144 = *prev_144 + 1;
            }
            if confirmation_age <= 2016 {
                *prev_2016 = *prev_2016 + 1;
            }
        },
    }
}

impl InputStats {
    /// Counts the inputs of a block by the type and kind of output they spend, by whether they
    /// spend an anchor or an output of the same block, and by the age of the spent output.
    /// `tx_infos[i]` is the script analysis of `block.txdata[i]`; only as many transactions are
    /// counted as both hold.
    pub fn from_block(block: &Block, date: String, tx_infos: &[TxSummary]) -> (r: InputStats)
        requires
            input_stats_fits(*block, tx_infos@),
        ensures
            r == spec_input_stats(*block, date, tx_infos@),
    {
        let height = block.height;
        let n = if block.txdata.len() <= tx_infos.len() {
            block.txdata.len()
        } else {
            tx_infos.len()
        };
        let ghost ps = tx_pairs(*block, tx_infos@);
        let ghost ids = block.txids();
        let ghost date0 = date;
        let mut s = InputStats {
            height,
            date,
            inputs_spending_legacy: 0,
            inputs_spending_segwit: 0,
            inputs_spending_taproot: 0,
            inputs_spending_nested_segwit: 0,
            inputs_spending_native_segwit: 0,
            inputs_spending_multisig: 0,
            inputs_spending_p2ms_multisig: 0,
            inputs_spending_p2sh_multisig: 0,
            inputs_spending_nested_p2wsh_multisig: 0,
            inputs_spending_p2wsh_multisig: 0,
            inputs_p2pk: 0,
            inputs_p2pkh: 0,
            inputs_nested_p2wpkh: 0,
            inputs_p2wpkh: 0,
            inputs_p2ms: 0,
            inputs_p2sh: 0,
            inputs_nested_p2wsh: 0,
            inputs_p2wsh: 0,
            inputs_coinbase: 0,
            inputs_witness_coinbase: 0,
            inputs_p2tr_keypath: 0,
            inputs_p2tr_scriptpath: 0,
            inputs_p2a: 0,
            inputs_p2a_dust: 0,
            inputs_unknown: 0,
            inputs_spend_in_same_block: 0,
            inputs_spending_prev_1_blocks: 0,
            inputs_spending_prev_6_blocks: 0,
            inputs_spending_prev_144_blocks: 0,
            inputs_spending_prev_2016_blocks: 0,
        };
        proof {
            assert(ps.take(0) =~= Seq::<TxPair>::empty());
        }
        for t in 0..n
            invariant
                n == ps.len(),
                ps == tx_pairs(*block, tx_infos@),
                ids == block.txids(),
                height == block.height,
                input_stats_fits(*block, tx_infos@),
                s == input_stats_over(height, date0, ids, ps.take(t as int)),
        {
            let tx = &block.txdata[t];
            let info = &tx_infos[t];
            let ghost pre = ps.take(t as int);
            let ghost infos0 = all_input_infos(pre);
            let ghost ins0 = all_inputs(pre);
            let ghost anchors0 = count_where(ins0, spends_anchor());
            proof {
                lemma_take_push(ps, t as int);
                assert(ps[t as int] == (*tx, *info));
                lemma_flat_map_prefix_len(ps, t as int, input_infos_of());
                lemma_flat_map_prefix_len(ps, t as int, inputs_of());
                assert(info.input_infos@.take(0) =~= Seq::<InputSummary>::empty());
                assert(infos0 + info.input_infos@.take(0) =~= infos0);
            }
            let m = info.input_infos.len();
            for j in 0..m
                invariant
                    m == info.input_infos@.len(),
                    infos0.len() + m <= i32::MAX,
                    0 <= anchors0 <= i32::MAX,
                    s.height == height,
                    s.date == date0,
                    s.inputs_spending_legacy == count_where(
                        infos0 + info.input_infos@.take(j as int),
                        input_legacy(),
                    ) as i32,
                    s.inputs_spending_segwit == count_where(
                        infos0 + info.input_infos@.take(j as int),
                        input_segwit(),
                    ) as i32,
                    s.inputs_spending_taproot == count_where(
                        infos0 + info.input_infos@.take(j as int),
                        input_taproot(),
                    ) as i32,
                    s.inputs_spending_nested_segwit == count_where(
                        infos0 + info.input_infos@.take(j as int),
                        input_nested_segwit(),
                    ) as i32,
                    s.inputs_spending_native_segwit == count_where(
                        infos0 + info.input_infos@.take(j as int),
                        input_native_segwit(),
                    ) as i32,
                    s.inputs_spending_multisig == count_where(
                        infos0 + info.input_infos@.take(j as int),
                        input_multisig(),
                    ) as i32,
                    s.inputs_spending_p2ms_multisig == count_where(
                        infos0 + info.input_infos@.take(j as int),
                        input_multisig_of(InputType::P2ms),
                    ) as i32,
                    s.inputs_spending_p2sh_multisig == count_where(
                        infos0 + info.input_infos@.take(j as int),
                        input_multisig_of(InputType::P2sh),
                    ) as i32,
                    s.inputs_spending_nested_p2wsh_multisig == count_where(
                        infos0 + info.input_infos@.take(j as int),
                        input_multisig_of(InputType::P2shP2wsh),
                    ) as i32,
                    s.inputs_spending_p2wsh_multisig == count_where(
                        infos0 + info.input_infos@.take(j as int),
                        input_multisig_of(InputType::P2wsh),
                    ) as i32,
                    s.inputs_p2pk == count_where(
                        infos0 + info.input_infos@.take(j as int),
                        input_type_is_either(InputType::P2pk, InputType::P2pkLaxDer),
                    ) as i32,
                    s.inputs_p2pkh == count_where(
                        infos0 + info.input_infos@.take(j as int),
                        input_type_is_either(InputType::P2pkh, InputType::P2pkhLaxDer),
                    ) as i32,
                    s.inputs_nested_p2wpkh == count_where(
                        infos0 + info.input_infos@.take(j as int),
                        input_type_is(InputType::P2shP2wpkh),
                    ) as i32,
                    s.inputs_p2wpkh == count_where(
                        infos0 + info.input_infos@.take(j as int),
                        input_type_is(InputType::P2wpkh),
                    ) as i32,
                    s.inputs_p2ms == count_where(
                        infos0 + info.input_infos@.take(j as int),
                        input_type_is_either(InputType::P2ms, InputType::P2msLaxDer),
                    ) as i32,
                    s.inputs_p2sh == count_where(
                        infos0 + info.input_infos@.take(j as int),
                        input_type_is(InputType::P2sh),
                    ) as i32,
                    s.inputs_nested_p2wsh == count_where(
                        infos0 + info.input_infos@.take(j as int),
                        input_type_is(InputType::P2shP2wsh),
                    ) as i32,
                    s.inputs_p2wsh == count_where(
                        infos0 + info.input_infos@.take(j as int),
                        input_type_is(InputType::P2wsh),
                    ) as i32,
                    s.inputs_coinbase == count_where(
                        infos0 + info.input_infos@.take(j as int),
                        input_type_is(InputType::Coinbase),
                    ) as i32,
                    s.inputs_witness_coinbase == count_where(
                        infos0 + info.input_infos@.take(j as int),
                        input_type_is(InputType::CoinbaseWitness),
                    ) as i32,
                    s.inputs_p2tr_keypath == count_where(
                        infos0 + info.input_infos@.take(j as int),
                        input_type_is(InputType::P2trkp),
                    ) as i32,
                    s.inputs_p2tr_scriptpath == count_where(
                        infos0 + info.input_infos@.take(j as int),
                        input_type_is(InputType::P2trsp),
                    ) as i32,
                    s.inputs_unknown == (count_where(
                        infos0 + info.input_infos@.take(j as int),
                        input_type_is_either(InputType::Unknown, InputType::P2a),
                    ) - anchors0) as i32,
                    s.inputs_p2a == input_stats_over(height, date0, ids, pre).inputs_p2a,
                    s.inputs_p2a_dust == input_stats_over(height, date0, ids, pre).inputs_p2a_dust,
                    s.inputs_spend_in_same_block == input_stats_over(
                        height,
                        date0,
                        ids,
                        pre,
                    ).inputs_spend_in_same_block,
                    s.inputs_spending_prev_1_blocks == input_stats_over(
                        height,
                        date0,
                        ids,
                        pre,
                    ).inputs_spending_prev_1_blocks,
                    s.inputs_spending_prev_6_blocks == input_stats_over(
                        height,
                        date0,
                        ids,
                        pre,
                    ).inputs_spending_prev_6_blocks,
                    s.inputs_spending_prev_144_blocks == input_stats_over(
                        height,
                        date0,
                        ids,
                        pre,
                    ).inputs_spending_prev_144_blocks,
                    s.inputs_spending_prev_2016_blocks == input_stats_over(
                        height,
                        date0,
                        ids,
                        pre,
                    ).inputs_spending_prev_2016_blocks,
            {
                let input = &info.input_infos[j];
                let ghost cur = infos0 + info.input_infos@.take(j as int);
                proof {
                    assert(infos0 + info.input_infos@.take(j + 1) =~= cur.push(*input));
                }
                add_spending_counts(
                    &mut s.inputs_spending_legacy,
                    &mut s.inputs_spending_segwit,
                    &mut s.inputs_spending_taproot,
                    &mut s.inputs_spending_nested_segwit,
                    &mut s.inputs_spending_native_segwit,
                    &mut s.inputs_spending_multisig,
                    &mut s.inputs_spending_p2ms_multisig,
                    &mut s.inputs_spending_nested_p2wsh_multisig,
                    &mut s.inputs_spending_p2wsh_multisig,
                    &mut s.inputs_spending_p2sh_multisig,
                    input,
                    Ghost(cur),
                );
                add_type_counts(
                    &mut s.inputs_p2pk,
                    &mut s.inputs_p2pkh,
                    &mut s.inputs_nested_p2wpkh,
                    &mut s.inputs_p2wpkh,
                    &mut s.inputs_p2ms,
                    &mut s.inputs_p2sh,
                    &mut s.inputs_nested_p2wsh,
                    &mut s.inputs_p2wsh,
                    &mut s.inputs_coinbase,
                    &mut s.inputs_witness_coinbase,
                    &mut s.inputs_p2tr_keypath,
                    &mut s.inputs_p2tr_scriptpath,
                    &mut s.inputs_unknown,
                    input,
                    Ghost(cur),
                    Ghost(anchors0 as int),
                );
            }
            let ghost infos1 = infos0 + info.input_infos@;
            let ghost unknown_types = count_where(
                infos1,
                input_type_is_either(InputType::Unknown, InputType::P2a),
            );
            proof {
                assert(info.input_infos@.take(m as int) =~= info.input_infos@);
                assert(tx.input@.take(0) =~= Seq::<TxIn>::empty());
                assert(ins0 + tx.input@.take(0) =~= ins0);
                assert(infos1.len() <= i32::MAX);
                lemma_flat_map_concat(ps.take(t + 1), ps.skip(t + 1), inputs_of());
                assert(ps.take(t + 1) + ps.skip(t + 1) =~= ps);
                assert(ps.take(t + 1) =~= pre.push((*tx, *info)));
                crate::seqs::lemma_flat_map_push(pre, (*tx, *info), inputs_of());
                crate::seqs::lemma_flat_map_push(pre, (*tx, *info), input_infos_of());
                assert(all_inputs(ps.take(t + 1)) == ins0 + tx.input@);
                assert forall|q: int| 0 <= q < tx.input@.len() implies match (#[trigger] tx.input@[q]).data {
                    InputData::NonCoinbase { txid, prevout, .. } => ids.contains(txid) || (
                    i64::MIN <= height - prevout.height <= i64::MAX),
                    InputData::Coinbase => true,
                } by {
                    assert(all_inputs(ps)[ins0.len() + q] == tx.input@[q]);
                }
            }
            let k_len = tx.input.len();
            for k in 0..k_len
                invariant
                    k_len == tx.input@.len(),
                    *tx == block.txdata@[t as int],
                    ins0.len() + k_len <= i32::MAX,
                    0 <= unknown_types <= i32::MAX,
                    ids == block.txids(),
                    height == block.height,
                    forall|q: int| 0 <= q < k_len ==> match (#[trigger] tx.input@[q]).data {
                        InputData::NonCoinbase { txid, prevout, .. } => ids.contains(txid) || (
                        i64::MIN <= height - prevout.height <= i64::MAX),
                        InputData::Coinbase => true,
                    },
                    s.inputs_spend_in_same_block == count_where(
                        ins0 + tx.input@.take(k as int),
                        spends_from(ids),
                    ) as i32,
                    s.inputs_p2a == count_where(ins0 + tx.input@.take(k as int), spends_anchor())
                        as i32,
                    s.inputs_p2a_dust == count_where(
                        ins0 + tx.input@.take(k as int),
                        spends_anchor_dust(),
                    ) as i32,
                    s.inputs_unknown == (unknown_types - count_where(
                        ins0 + tx.input@.take(k as int),
                        spends_anchor(),
                    )) as i32,
                    s.inputs_spending_prev_1_blocks == count_where(
                        ins0 + tx.input@.take(k as int),
                        spends_within(height, ids, 1),
                    ) as i32,
                    s.inputs_spending_prev_6_blocks == count_where(
                        ins0 + tx.input@.take(k as int),
                        spends_within(height, ids, 6),
                    ) as i32,
                    s.inputs_spending_prev_144_blocks == count_where(
                        ins0 + tx.input@.take(k as int),
                        spends_within(height, ids, 144),
                    ) as i32,
                    s.inputs_spending_prev_2016_blocks == count_where(
                        ins0 + tx.input@.take(k as int),
                        spends_within(height, ids, 2016),
                    ) as i32,
                    s.height == height,
                    s.date == date0,
                    s.inputs_spending_legacy == count_where(infos1, input_legacy()) as i32,
                    s.inputs_spending_segwit == count_where(infos1, input_segwit()) as i32,
                    s.inputs_spending_taproot == count_where(infos1, input_taproot()) as i32,
                    s.inputs_spending_nested_segwit == count_where(infos1, input_nested_segwit())
                        as i32,
                    s.inputs_spending_native_segwit == count_where(infos1, input_native_segwit())
                        as i32,
                    s.inputs_spending_multisig == count_where(infos1, input_multisig()) as i32,
                    s.inputs_spending_p2ms_multisig == count_where(
                        infos1,
                        input_multisig_of(InputType::P2ms),
                    ) as i32,
                    s.inputs_spending_p2sh_multisig == count_where(
                        infos1,
                        input_multisig_of(InputType::P2sh),
                    ) as i32,
                    s.inputs_spending_nested_p2wsh_multisig == count_where(
                        infos1,
                        input_multisig_of(InputType::P2shP2wsh),
                    ) as i32,
                    s.inputs_spending_p2wsh_multisig == count_where(
                        infos1,
                        input_multisig_of(InputType::P2wsh),
                    ) as i32,
                    s.inputs_p2pk == count_where(
                        infos1,
                        input_type_is_either(InputType::P2pk, InputType::P2pkLaxDer),
                    ) as i32,
                    s.inputs_p2pkh == count_where(
                        infos1,
                        input_type_is_either(InputType::P2pkh, InputType::P2pkhLaxDer),
                    ) as i32,
                    s.inputs_nested_p2wpkh == count_where(infos1, input_type_is(InputType::P2shP2wpkh))
                        as i32,
                    s.inputs_p2wpkh == count_where(infos1, input_type_is(InputType::P2wpkh)) as i32,
                    s.inputs_p2ms == count_where(
                        infos1,
                        input_type_is_either(InputType::P2ms, InputType::P2msLaxDer),
                    ) as i32,
                    s.inputs_p2sh == count_where(infos1, input_type_is(InputType::P2sh)) as i32,
                    s.inputs_nested_p2wsh == count_where(infos1, input_type_is(InputType::P2shP2wsh))
                        as i32,
                    s.inputs_p2wsh == count_where(infos1, input_type_is(InputType::P2wsh)) as i32,
                    s.inputs_coinbase == count_where(infos1, input_type_is(InputType::Coinbase))
                        as i32,
                    s.inputs_witness_coinbase == count_where(
                        infos1,
                        input_type_is(InputType::CoinbaseWitness),
                    ) as i32,
                    s.inputs_p2tr_keypath == count_where(infos1, input_type_is(InputType::P2trkp))
                        as i32,
                    s.inputs_p2tr_scriptpath == count_where(infos1, input_type_is(InputType::P2trsp))
                        as i32,
            {
                let input = &tx.input[k];
                let ghost cur = ins0 + tx.input@.take(k as int);
                proof {
                    assert(ins0 + tx.input@.take(k + 1) =~= cur.push(*input));
                }
                add_spend_counts(
                    &mut s.inputs_spend_in_same_block,
                    &mut s.inputs_p2a,
                    &mut s.inputs_p2a_dust,
                    &mut s.inputs_unknown,
                    &mut s.inputs_spending_prev_1_blocks,
                    &mut s.inputs_spending_prev_6_blocks,
                    &mut s.inputs_spending_prev_144_blocks,
                    &mut s.inputs_spending_prev_2016_blocks,
                    block,
                    input,
                    Ghost(cur),
                    Ghost(unknown_types as int),
                );
            }
            proof {
                let next = ps.take(t + 1);
                assert(next =~= pre.push((*tx, *info)));
                assert(tx.input@.take(k_len as int) =~= tx.input@);
                crate::seqs::lemma_flat_map_push(pre, (*tx, *info), input_infos_of());
                crate::seqs::lemma_flat_map_push(pre, (*tx, *info), inputs_of());
                assert(all_input_infos(next) =~= infos1);
                assert(all_inputs(next) =~= ins0 + tx.input@);
                assert(s == input_stats_over(height, date0, ids, next));
            }
        }
        proof {
            assert(ps.take(n as int) =~= ps);
        }
        s
    }
}

/// The ages of the outputs some inputs spend all fit in `i64`.
pub open spec fn ages_fit(block: Block, inputs: Seq<TxIn>) -> bool {
    forall|i: int| 0 <= i < inputs.len() ==> age_fits(block, #[trigger] inputs[i])
}

/// Whether the age of the output an input spends fits in `i64`, unless the output was
/// created in the block itself.
fn input_age_fits(block: &Block, input: &TxIn) -> (r: bool)
    ensures
        r == age_fits(*block, *input),
{
    match input.data {
        InputData::NonCoinbase { txid, prevout, .. } => {
            if block.has_txid(txid) {
                true
            } else {
                let age = block.height as i128 - prevout.height as i128;
                i64::MIN as i128 <= age && age <= i64::MAX as i128
            }
        },
        InputData::Coinbase => true,
    }
}

impl InputStats {
    /// Whether `InputStats::from_block` can compute the statistics of these arguments.
    pub fn fits(block: &Block, tx_infos: &[TxSummary]) -> (r: bool)
        ensures
            r == input_stats_fits(*block, tx_infos@),
    {
        let n = if block.txdata.len() <= tx_infos.len() {
            block.txdata.len()
        } else {
            tx_infos.len()
        };
        let ghost ps = tx_pairs(*block, tx_infos@);
        let mut infos_count: u64 = 0;
        let mut inputs_count: u64 = 0;
        proof {
            assert(ps.take(0) =~= Seq::<TxPair>::empty());
        }
        for t in 0..n
            invariant
                n == ps.len(),
                n <= block.txdata@.len(),
                n <= tx_infos@.len(),
                ps == tx_pairs(*block, tx_infos@),
                infos_count == all_input_infos(ps.take(t as int)).len(),
                inputs_count == all_inputs(ps.take(t as int)).len(),
                infos_count <= i32::MAX,
                inputs_count <= i32::MAX,
                ages_fit(*block, all_inputs(ps.take(t as int))),
        {
            let tx = &block.txdata[t];
            let info = &tx_infos[t];
            let ghost pre = ps.take(t as int);
            let ghost next = ps.take(t + 1);
            let ghost p = ps[t as int];
            proof {
                assert(p == (*tx, *info));
                lemma_take_push(ps, t as int);
                lemma_flat_map_push(pre, p, input_infos_of());
                lemma_flat_map_push(pre, p, inputs_of());
                lemma_flat_map_prefix_len(ps, t as int, input_infos_of());
                lemma_flat_map_prefix_len(ps, t as int, inputs_of());
                lemma_flat_map_concat(next, ps.skip(t + 1), inputs_of());
                assert(next + ps.skip(t + 1) =~= ps);
                assert(all_inputs(next) == all_inputs(pre) + tx.input@);
            }
            let a = info.input_infos.len() as u64;
            let b = tx.input.len() as u64;
            if a > i32::MAX as u64 - infos_count || b > i32::MAX as u64 - inputs_count {
                return false;
            }
            let k = tx.input.len();
            for j in 0..k
                invariant
                    k == tx.input@.len(),
                    ps == tx_pairs(*block, tx_infos@),
                    all_inputs(next) == all_inputs(pre) + tx.input@,
                    all_inputs(ps) == all_inputs(next) + all_inputs(ps.skip(t + 1)),
                    ages_fit(*block, all_inputs(pre)),
                    ages_fit(*block, tx.input@.take(j as int)),
            {
                if !input_age_fits(block, &tx.input[j]) {
                    proof {
                        let i = all_inputs(pre).len() + j;
                        assert(all_inputs(ps)[i] == tx.input@[j as int]);
                    }
                    return false;
                }
                proof {
                    assert(tx.input@.take(j + 1) =~= tx.input@.take(j as int).push(tx.input@[j as int]));
                }
            }
            proof {
                assert(tx.input@.take(k as int) =~= tx.input@);
                assert forall|i: int| 0 <= i < all_inputs(next).len() implies age_fits(
                    *block,
                    #[trigger] all_inputs(next)[i],
                ) by {
                    if i >= all_inputs(pre).len() {
                        assert(all_inputs(next)[i] == tx.input@[i - all_inputs(pre).len()]);
                    } else {
                        assert(all_inputs(next)[i] == all_inputs(pre)[i]);
                    }
                }
            }
            infos_count = infos_count + a;
            inputs_count = inputs_count + b;
        }
        proof {
            assert(ps.take(n as int) =~= ps);
        }
        true
    }
}

} // verus!
