//! All statistics of a block, computed together from the block as the REST interface
//! delivers it, and the errors that can stop their computation.

use vstd::prelude::*;
use crate::block_stats::{block_stats_fits, spec_block_stats_of, BlockStats};
use crate::feerate_stats::{feerate_stats_fits, spec_feerate_stats, FeerateStats};
use crate::hex::{hex_i32, unprefixed_hex_u32};
use crate::input_stats::{input_stats_fits, spec_input_stats, InputStats};
use crate::model::Block;
use crate::outside::{
    analysis_bip69, analysis_input_count, analysis_input_multisig, analysis_input_pubkeys,
    analysis_input_sequence, analysis_input_type, analysis_opreturn_kind, analysis_output_count,
    analysis_output_pubkeys, analysis_output_type, analysis_output_value, analysis_signature_count,
    analysis_signature_der_valid, analysis_signature_length, analysis_signature_low_r,
    analysis_signature_low_s, analysis_signature_sig_hash, analysis_signature_type,
    analyze_raw_transaction, analyzes_as_transaction, bip69_of, decodes_as_transaction,
    input_count_of, input_multisig_of, input_pubkeys_of, input_sequence_of, input_type_of,
    is_coinbase_of, mainnet_pool_id_of, output_count_of, output_pubkeys_of, output_type_of,
    output_value_of, raw_is_coinbase, signature_count_of, signature_der_valid_of,
    signature_length_of, signature_low_r_of, signature_low_s_of, signature_sig_hash_of,
    signature_type_of, utc_date, utc_date_of, weight_of, KnownPools, RawAnalysis,
};
use crate::output_stats::{output_stats_fits, spec_output_stats, OutputStats};
use crate::script_stats::{script_stats_fits, spec_script_stats, ScriptStats};
use crate::tx_stats::{spec_tx_stats, tx_stats_fits, TxStats};
use crate::txinfo::{InputSummary, OutputSummary, OutputType, SignatureSummary, TxSummary};

verus! {

/// Why the statistics of a block could not be computed.
#[derive(Debug)]
pub enum StatsError {
    /// The script analysis of a transaction failed.
    TxInfo(rawtx_rs::tx::TxInfoError),
    /// A raw transaction could not be decoded.
    BitcoinEncode(bitcoin::consensus::encode::Error),
    /// The compact target is not a hexadecimal `i32`.
    ParseInt(std::num::ParseIntError),
    /// The compact target is not an unprefixed hexadecimal `u32`.
    UnprefixedHex(bitcoin::error::UnprefixedHexError),
    /// The statistics cannot be computed from the block: a count or a sum exceeds the integer
    /// that holds it, a version 3 transaction spending staged ephemeral dust has no fee, or an
    /// analysis does not match its transaction (see `stats_fit`).
    Unsupported,
}

impl From<rawtx_rs::tx::TxInfoError> for StatsError {
    fn from(e: rawtx_rs::tx::TxInfoError) -> (r: Self) {
        StatsError::TxInfo(e)
    }
}

impl vstd::std_specs::convert::FromSpecImpl<rawtx_rs::tx::TxInfoError> for StatsError {
    open spec fn obeys_from_spec() -> bool {
        true
    }

    open spec fn from_spec(v: rawtx_rs::tx::TxInfoError) -> Self {
        StatsError::TxInfo(v)
    }
}

impl From<bitcoin::consensus::encode::Error> for StatsError {
    fn from(e: bitcoin::consensus::encode::Error) -> (r: Self) {
        StatsError::BitcoinEncode(e)
    }
}

impl vstd::std_specs::convert::FromSpecImpl<bitcoin::consensus::encode::Error> for StatsError {
    open spec fn obeys_from_spec() -> bool {
        true
    }

    open spec fn from_spec(v: bitcoin::consensus::encode::Error) -> Self {
        StatsError::BitcoinEncode(v)
    }
}

impl From<std::num::ParseIntError> for StatsError {
    fn from(e: std::num::ParseIntError) -> (r: Self) {
        StatsError::ParseInt(e)
    }
}

impl vstd::std_specs::convert::FromSpecImpl<std::num::ParseIntError> for StatsError {
    open spec fn obeys_from_spec() -> bool {
        true
    }

    open spec fn from_spec(v: std::num::ParseIntError) -> Self {
        StatsError::ParseInt(v)
    }
}

impl From<bitcoin::error::UnprefixedHexError> for StatsError {
    fn from(e: bitcoin::error::UnprefixedHexError) -> (r: Self) {
        StatsError::UnprefixedHex(e)
    }
}

impl vstd::std_specs::convert::FromSpecImpl<bitcoin::error::UnprefixedHexError> for StatsError {
    open spec fn obeys_from_spec() -> bool {
        true
    }

    open spec fn from_spec(v: bitcoin::error::UnprefixedHexError) -> Self {
        StatsError::UnprefixedHex(v)
    }
}

/// All statistics of one block.
#[derive(Clone, Debug)]
pub struct Stats {
    pub block: BlockStats,
    pub tx: TxStats,
    pub input: InputStats,
    pub output: OutputStats,
    pub feerate: FeerateStats,
    pub script: ScriptStats,
}

/// Whether every part of the statistics can be computed from a block and the analyses of
/// its transactions.
pub open spec fn stats_fit(block: Block, infos: Seq<TxSummary>) -> bool {
    &&& block_stats_fits(block, infos)
    &&& tx_stats_fits(block, infos)
    &&& input_stats_fits(block, infos)
    &&& output_stats_fits(block, infos)
    &&& script_stats_fits(block, infos)
    &&& feerate_stats_fits(block, infos)
}

/// The statistics of a block with the given block-level statistics.
pub open spec fn spec_stats(block: Block, date: String, infos: Seq<TxSummary>, block_stats: BlockStats) -> Stats {
    Stats {
        block: block_stats,
        tx: spec_tx_stats(block, date, infos),
        input: spec_input_stats(block, date, infos),
        output: spec_output_stats(block, date, infos),
        feerate: spec_feerate_stats(block, date, infos),
        script: spec_script_stats(block, date, infos),
    }
}

/// Whether the statistics are computable for the block and its analyses.
pub fn stats_fit_check(block: &Block, tx_infos: &[TxSummary]) -> (r: bool)
    ensures
        r == stats_fit(*block, tx_infos@),
{
    BlockStats::fits(block, tx_infos) && TxStats::fits(block, tx_infos) && InputStats::fits(
        block,
        tx_infos,
    ) && OutputStats::fits(block, tx_infos) && ScriptStats::fits(block, tx_infos)
        && FeerateStats::fits(block, tx_infos)
}

/// Whether a signature summary holds what the analysis of `raw` says of signature `k` of
/// input `i`.
pub open spec fn is_signature_analysis(s: SignatureSummary, raw: Seq<u8>, i: int, k: int) -> bool {
    s == SignatureSummary {
        signature: signature_type_of(raw, i, k),
        der_valid: signature_der_valid_of(raw, i, k),
        sig_hash: signature_sig_hash_of(raw, i, k),
        length: signature_length_of(raw, i, k),
        low_r: signature_low_r_of(raw, i, k),
        low_s: signature_low_s_of(raw, i, k),
    }
}

/// Whether an input summary holds what the analysis of `raw` says of input `i`.
pub open spec fn is_input_analysis(s: InputSummary, raw: Seq<u8>, i: int) -> bool {
    &&& s.in_type == input_type_of(raw, i)
    &&& s.sequence == input_sequence_of(raw, i)
    &&& s.multisig == input_multisig_of(raw, i)
    &&& s.pubkeys_compressed@ == input_pubkeys_of(raw, i)
    &&& s.signatures@.len() == signature_count_of(raw, i)
    &&& forall|k: int|
        0 <= k < s.signatures@.len() ==> is_signature_analysis(#[trigger] s.signatures@[k], raw, i, k)
}

/// Whether an output summary holds what the analysis of `raw` says of output `o`.
pub open spec fn is_output_analysis(s: OutputSummary, raw: Seq<u8>, o: int) -> bool {
    &&& s.out_type == output_type_of(raw, o)
    &&& s.value == output_value_of(raw, o)
    &&& s.pubkeys_compressed@ == output_pubkeys_of(raw, o)
}

/// Whether a transaction summary holds what the `rawtx_rs` analysis of the transaction with
/// these consensus bytes says: one summary per input and per output, in order.
pub open spec fn is_analysis_of(s: TxSummary, raw: Seq<u8>) -> bool {
    &&& s.is_bip69_compliant == bip69_of(raw)
    &&& s.input_infos@.len() == input_count_of(raw)
    &&& forall|i: int|
        0 <= i < s.input_infos@.len() ==> is_input_analysis(#[trigger] s.input_infos@[i], raw, i)
    &&& s.output_infos@.len() == output_count_of(raw)
    &&& forall|o: int|
        0 <= o < s.output_infos@.len() ==> is_output_analysis(#[trigger] s.output_infos@[o], raw, o)
}

/// Whether a transaction's bytes decode and its decoding is analyzed.
pub open spec fn tx_analyzable(raw: Seq<u8>) -> bool {
    decodes_as_transaction(raw) && analyzes_as_transaction(raw)
}

/// What the statistics read of signature `k` of input `i` of an analysis.
fn summarize_signature(a: &RawAnalysis, i: usize, k: usize) -> (r: SignatureSummary)
    requires
        i < input_count_of(a.bytes()),
        k < signature_count_of(a.bytes(), i as int),
    ensures
        is_signature_analysis(r, a.bytes(), i as int, k as int),
{
    SignatureSummary {
        signature: analysis_signature_type(a, i, k),
        der_valid: analysis_signature_der_valid(a, i, k),
        sig_hash: analysis_signature_sig_hash(a, i, k),
        length: analysis_signature_length(a, i, k),
        low_r: analysis_signature_low_r(a, i, k),
        low_s: analysis_signature_low_s(a, i, k),
    }
}

/// What the statistics read of input `i` of an analysis, one summary per signature found.
fn summarize_input(a: &RawAnalysis, i: usize) -> (r: InputSummary)
    requires
        i < input_count_of(a.bytes()),
    ensures
        is_input_analysis(r, a.bytes(), i as int),
{
    let n = analysis_signature_count(a, i);
    let mut signatures: Vec<SignatureSummary> = Vec::new();
    for k in 0..n
        invariant
            i < input_count_of(a.bytes()),
            n == signature_count_of(a.bytes(), i as int),
            signatures@.len() == k,
            forall|q: int|
                0 <= q < k ==> is_signature_analysis(#[trigger] signatures@[q], a.bytes(), i as int, q),
    {
        signatures.push(summarize_signature(a, i, k));
    }
    InputSummary {
        in_type: analysis_input_type(a, i),
        sequence: analysis_input_sequence(a, i),
        multisig: analysis_input_multisig(a, i),
        pubkeys_compressed: analysis_input_pubkeys(a, i),
        signatures,
    }
}

/// What the statistics read of output `o` of an analysis.
fn summarize_output(a: &RawAnalysis, o: usize) -> (r: OutputSummary)
    requires
        o < output_count_of(a.bytes()),
    ensures
        is_output_analysis(r, a.bytes(), o as int),
{
    let out_type = match analysis_output_type(a, o) {
        Some(t) => t,
        None => OutputType::OpReturn(analysis_opreturn_kind(a, o)),
    };
    OutputSummary {
        out_type,
        value: analysis_output_value(a, o),
        pubkeys_compressed: analysis_output_pubkeys(a, o),
    }
}

/// What the statistics read of the analysis of a transaction.
fn summarize(a: &RawAnalysis) -> (r: TxSummary)
    ensures
        is_analysis_of(r, a.bytes()),
{
    let n = analysis_input_count(a);
    let mut input_infos: Vec<InputSummary> = Vec::new();
    for k in 0..n
        invariant
            n == input_count_of(a.bytes()),
            input_infos@.len() == k,
            forall|q: int| 0 <= q < k ==> is_input_analysis(#[trigger] input_infos@[q], a.bytes(), q),
    {
        input_infos.push(summarize_input(a, k));
    }
    let m = analysis_output_count(a);
    let mut output_infos: Vec<OutputSummary> = Vec::new();
    for k in 0..m
        invariant
            m == output_count_of(a.bytes()),
            output_infos@.len() == k,
            forall|q: int| 0 <= q < k ==> is_output_analysis(#[trigger] output_infos@[q], a.bytes(), q),
    {
        output_infos.push(summarize_output(a, k));
    }
    TxSummary { input_infos, output_infos, is_bip69_compliant: analysis_bip69(a) }
}

impl TxSummary {
    /// Decodes a consensus-serialized transaction and analyzes its scripts. Fails when the
    /// bytes do not decode as a transaction, or when the analysis fails; otherwise the summary
    /// is that of the analysis.
    pub fn from_raw(raw: &[u8]) -> (r: Result<TxSummary, StatsError>)
        ensures
            r matches Err(StatsError::BitcoinEncode(_)) <==> !decodes_as_transaction(raw@),
            r matches Err(StatsError::TxInfo(_)) <==> decodes_as_transaction(raw@)
                && !analyzes_as_transaction(raw@),
            r is Ok <==> tx_analyzable(raw@),
            r matches Ok(s) ==> is_analysis_of(s, raw@),
    {
        match analyze_raw_transaction(raw) {
            Err(e) => Err(StatsError::BitcoinEncode(e)),
            Ok(Err(e)) => Err(StatsError::TxInfo(e)),
            Ok(Ok(a)) => Ok(summarize(&a)),
        }
    }
}

/// Whether the first transaction of a block, where it decodes, is a coinbase transaction.
pub open spec fn coinbase_first(block: Block) -> bool {
    block.txdata@.len() > 0 && decodes_as_transaction(block.txdata@[0].raw@) ==> is_coinbase_of(
        block.txdata@[0].raw@,
    )
}

/// Whether the transactions before position `j` of a block decode and are analyzed.
pub open spec fn analyzable_upto(block: Block, j: int) -> bool {
    forall|k: int| 0 <= k < j ==> tx_analyzable(#[trigger] block.txdata@[k].raw@)
}

/// Whether `infos` are the analyses of the transactions of a block, one per transaction.
pub open spec fn are_analyses_of(block: Block, infos: Seq<TxSummary>) -> bool {
    &&& infos.len() == block.txdata@.len()
    &&& forall|i: int| 0 <= i < infos.len() ==> is_analysis_of(#[trigger] infos[i], block.txdata@[i].raw@)
}

/// Whether the statistics can be computed from the analyses of a block's transactions.
pub open spec fn analyses_fit(block: Block) -> bool {
    forall|infos: Seq<TxSummary>| #[trigger] are_analyses_of(block, infos) ==> stats_fit(block, infos)
}

/// Whether the statistics cannot be computed from the analyses of a block's transactions.
pub open spec fn analyses_unfit(block: Block) -> bool {
    forall|infos: Seq<TxSummary>| #[trigger] are_analyses_of(block, infos) ==> !stats_fit(block, infos)
}

impl Stats {
    /// All statistics of a block, given the analyses of its transactions. Fails with
    /// `Unsupported` when they cannot be computed (`stats_fit`), and otherwise as
    /// `BlockStats::from_block` does.
    pub fn from_summaries(
        block: &Block,
        date: String,
        tx_infos: &[TxSummary],
        pools: &KnownPools,
    ) -> (r: Result<Stats, StatsError>)
        requires
            coinbase_first(*block),
        ensures
            r matches Err(StatsError::Unsupported) <==> !stats_fit(*block, tx_infos@),
            stats_fit(*block, tx_infos@) ==> (r is Ok <==> decodes_as_transaction(
                block.txdata@[0].raw@,
            ) && unprefixed_hex_u32(block.bits@) is Some && hex_i32(block.bits@) is Some),
            stats_fit(*block, tx_infos@) ==> (r matches Err(StatsError::BitcoinEncode(_))
                <==> !decodes_as_transaction(block.txdata@[0].raw@)),
            stats_fit(*block, tx_infos@) && decodes_as_transaction(block.txdata@[0].raw@)
                && unprefixed_hex_u32(block.bits@) is None ==> r matches Err(
                StatsError::UnprefixedHex(_),
            ),
            stats_fit(*block, tx_infos@) && decodes_as_transaction(block.txdata@[0].raw@)
                && unprefixed_hex_u32(block.bits@) is Some && hex_i32(block.bits@) is None
                ==> r matches Err(StatsError::ParseInt(_)),
            !(r matches Err(StatsError::TxInfo(_))),
            r matches Ok(st) ==> st.block == spec_block_stats_of(*block, date, tx_infos@) && st
                == spec_stats(*block, date, tx_infos@, st.block),
    {
        if !stats_fit_check(block, tx_infos) {
            return Err(StatsError::Unsupported);
        }
        let block_stats = match BlockStats::from_block(block, date.clone(), tx_infos, pools) {
            Ok(s) => s,
            Err(e) => {
                return Err(e);
            },
        };
        Ok(Stats {
            block: block_stats,
            tx: TxStats::from_block(block, date.clone(), tx_infos),
            input: InputStats::from_block(block, date.clone(), tx_infos),
            output: OutputStats::from_block(block, date.clone(), tx_infos),
            feerate: FeerateStats::from_block(block, date.clone(), tx_infos),
            script: ScriptStats::from_block(block, date, tx_infos),
        })
    }

    /// All statistics of a block: decodes and analyzes each transaction, identifies the
    /// mining pool among the known mainnet pools, and dates the block by its header time
    /// (UTC). Fails on the first transaction that does not decode (`BitcoinEncode`) or whose
    /// analysis fails (`TxInfo`); then with `Unsupported` when the first transaction is no
    /// coinbase or the statistics of the analyses cannot be computed; and otherwise as
    /// `BlockStats::from_block` does.
    pub fn from_block(block: Block) -> (r: Result<Stats, StatsError>)
        ensures
            r matches Err(StatsError::BitcoinEncode(_)) <==> exists|j: int|
                0 <= j < block.txdata@.len() && analyzable_upto(block, j) && !decodes_as_transaction(
                    #[trigger] block.txdata@[j].raw@,
                ),
            r matches Err(StatsError::TxInfo(_)) <==> exists|j: int|
                0 <= j < block.txdata@.len() && analyzable_upto(block, j) && decodes_as_transaction(
                    #[trigger] block.txdata@[j].raw@,
                ) && !analyzes_as_transaction(block.txdata@[j].raw@),
            r matches Err(StatsError::Unsupported) ==> analyzable_upto(block, block.txdata@.len() as int)
                && (block.txdata@.len() == 0 || !is_coinbase_of(block.txdata@[0].raw@) || !analyses_fit(
                block,
            )),
            analyzable_upto(block, block.txdata@.len() as int) && (block.txdata@.len() == 0
                || !is_coinbase_of(block.txdata@[0].raw@) || analyses_unfit(block)) ==> r matches Err(
                StatsError::Unsupported,
            ),
            analyzable_upto(block, block.txdata@.len() as int) && block.txdata@.len() > 0
                && is_coinbase_of(block.txdata@[0].raw@) && analyses_fit(block) ==> (r is Ok <==> (
                unprefixed_hex_u32(block.bits@) is Some && hex_i32(block.bits@) is Some)),
            analyzable_upto(block, block.txdata@.len() as int) && block.txdata@.len() > 0
                && is_coinbase_of(block.txdata@[0].raw@) && analyses_fit(block) && unprefixed_hex_u32(
                block.bits@,
            ) is None ==> r matches Err(StatsError::UnprefixedHex(_)),
            analyzable_upto(block, block.txdata@.len() as int) && block.txdata@.len() > 0
                && is_coinbase_of(block.txdata@[0].raw@) && analyses_fit(block) && unprefixed_hex_u32(
                block.bits@,
            ) is Some && hex_i32(block.bits@) is None ==> r matches Err(StatsError::ParseInt(_)),
            r matches Ok(st) ==> st.block.date@ == utc_date_of(block.time as i64) && exists|
                infos: Seq<TxSummary>,
            |
                #[trigger] are_analyses_of(block, infos) && stats_fit(block, infos) && st.block
                    == spec_block_stats_of(block, st.block.date, infos) && st == spec_stats(
                    block,
                    st.block.date,
                    infos,
                    st.block,
                ),
    {
        let date = utc_date(block.time as i64).unwrap();
        let n = block.txdata.len();
        let mut tx_infos: Vec<TxSummary> = Vec::new();
        for i in 0..n
            invariant
                n == block.txdata@.len(),
                tx_infos@.len() == i,
                analyzable_upto(block, i as int),
                forall|k: int|
                    0 <= k < i ==> is_analysis_of(#[trigger] tx_infos@[k], block.txdata@[k].raw@),
        {
            match TxSummary::from_raw(block.txdata[i].raw.as_slice()) {
                Ok(info) => tx_infos.push(info),
                Err(e) => {
                    proof {
                        assert(!tx_analyzable(block.txdata@[i as int].raw@));
                        assert forall|j: int|
                            0 <= j < n && analyzable_upto(block, j) && !tx_analyzable(
                                #[trigger] block.txdata@[j].raw@,
                            ) implies j == i by {
                            if j > i {
                                assert(tx_analyzable(block.txdata@[i as int].raw@));
                            }
                        }
                    }
                    return Err(e);
                },
            }
        }
        proof {
            assert(are_analyses_of(block, tx_infos@));
            assert forall|j: int| 0 <= j < n implies tx_analyzable(
                #[trigger] block.txdata@[j].raw@,
            ) by {}
        }
        if n == 0 {
            return Err(StatsError::Unsupported);
        }
        if !raw_is_coinbase(block.txdata[0].raw.as_slice()) {
            return Err(StatsError::Unsupported);
        }
        let r = Stats::from_summaries(&block, date, tx_infos.as_slice(), &KnownPools::mainnet());
        proof {
            if analyses_fit(block) {
                assert(stats_fit(block, tx_infos@));
            }
            if analyses_unfit(block) {
                assert(!stats_fit(block, tx_infos@));
            }
        }
        r
    }
}

} // verus!
