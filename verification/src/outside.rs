//! The calls into `bitcoin`, `rawtx_rs`, `bitcoin_pool_identification`, `chrono` and the
//! standard library that the statistics rest on, each behind a small trusted item.
//! Their contracts say what those crates' sources and documentation show; nothing here is proved.
//! A `rawtx_rs` analysis is held together with the bytes it was made from, and a decoded
//! transaction is decoded again from its bytes, so that each result can be named as a
//! function of those bytes.

use vstd::prelude::*;
use crate::hex::{hex_i32, unprefixed_hex_u32};
use crate::txinfo::{InputType, OpReturnKind, OutputType, SignatureType};
use bitcoin::script::Instruction;
use bitcoin_pool_identification::PoolIdentification;
use rawtx_rs::input::InputType as RawInputType;
use rawtx_rs::output::OpReturnFlavor as RawFlavor;
use rawtx_rs::output::OutputType as RawOutputType;

verus! {

#[verifier::external_type_specification]
#[verifier::external_body]
pub struct ExBitcoinTransaction(bitcoin::Transaction);

#[verifier::external_type_specification]
#[verifier::external_body]
pub struct ExBitcoinEncodeError(bitcoin::consensus::encode::Error);

#[verifier::external_type_specification]
#[verifier::external_body]
pub struct ExUnprefixedHexError(bitcoin::error::UnprefixedHexError);

#[verifier::external_type_specification]
#[verifier::external_body]
pub struct ExParseIntError(std::num::ParseIntError);

#[verifier::external_type_specification]
#[verifier::external_body]
pub struct ExRawTxInfo(rawtx_rs::tx::TxInfo);

#[verifier::external_type_specification]
#[verifier::external_body]
pub struct ExRawTxInfoError(rawtx_rs::tx::TxInfoError);

#[verifier::external_type_specification]
#[verifier::external_body]
pub struct ExPool(bitcoin_pool_identification::Pool);

/// Whether `bitcoin::consensus::deserialize` accepts these bytes as a transaction.
pub uninterp spec fn decodes_as_transaction(raw: Seq<u8>) -> bool;

/// The proleptic Gregorian year, month and day of a day counted from 1970-01-01 (for
/// `days >= 0`).
pub open spec fn civil_from_days(days: int) -> (int, int, int) {
    let z = days + 719468;
    let era = z / 146097;
    let doe = z - era * 146097;
    let yoe = (doe - doe / 1460 + doe / 36524 - doe / 146096) / 365;
    let doy = doe - (365 * yoe + yoe / 4 - yoe / 100);
    let mp = (5 * doy + 2) / 153;
    let d = doy - (153 * mp + 2) / 5 + 1;
    let m = if mp < 10 {
        mp + 3
    } else {
        mp - 9
    };
    (yoe + era * 400 + if m <= 2 {
        1int
    } else {
        0int
    }, m, d)
}

/// The last `width` decimal digits of `n`, zero-padded.
pub open spec fn padded_digits(n: int, width: nat) -> Seq<char>
    decreases width,
{
    if width == 0 {
        Seq::empty()
    } else {
        padded_digits(n / 10, (width - 1) as nat).push(crate::text::digit_char((n % 10) as nat))
    }
}

/// The UTC calendar date of a UNIX timestamp written as `%Y-%m-%d` (for timestamps from 1970
/// to 9999).
pub open spec fn utc_date_of(secs: i64) -> Seq<char> {
    let (y, m, d) = civil_from_days(secs / 86400);
    padded_digits(y, 4) + seq!['-'] + padded_digits(m, 2) + seq!['-'] + padded_digits(d, 2)
}

/// The number of bytes of the compact-size prefix encoding a length.
pub open spec fn compact_size_len(n: nat) -> nat {
    if n < 0xfd {
        1
    } else if n <= 0xffff {
        3
    } else if n <= 0xffff_ffff {
        5
    } else {
        9
    }
}

/// `Script::is_witness_program`: a version opcode (OP_0 or OP_1 to OP_16) followed by one push
/// of 2 to 40 bytes that ends the script.
pub open spec fn is_witness_program(script: Seq<u8>) -> bool {
    &&& 4 <= script.len() <= 42
    &&& (script[0] == 0 || 0x51 <= script[0] <= 0x60)
    &&& 2 <= script[1] <= 40
    &&& script.len() == script[1] + 2
}

/// The dust threshold in satoshi of `Script::minimal_non_dust` at the default dust relay fee
/// of 3 sat/vbyte: zero for an OP_RETURN script, and otherwise three times the spend cost
/// (67 bytes for a witness program, 148 otherwise) plus the 8 bytes of the amount and the
/// serialized size of the script.
pub open spec fn minimal_non_dust_of(script: Seq<u8>) -> u64 {
    let size = compact_size_len(script.len()) + script.len();
    if script.len() > 0 && script[0] == 0x6a {
        0
    } else if is_witness_program(script) {
        (3 * (67 + 8 + size)) as u64
    } else {
        (3 * (148 + 8 + size)) as u64
    }
}

/// For each instruction `bitcoin` reads from a script: the length of the data it pushes,
/// or `None` for an opcode or a malformed instruction.
pub uninterp spec fn script_pushes_of(script: Seq<u8>) -> Seq<Option<usize>>;

/// The number of bytes one instruction pushes.
pub open spec fn push_len() -> spec_fn(Option<usize>) -> int {
    |p: Option<usize>|
        match p {
            Some(n) => n as int,
            None => 0,
        }
}

/// The total number of bytes a sequence of instructions pushes.
pub open spec fn pushed_total(pushes: Seq<Option<usize>>) -> int {
    crate::seqs::sum_of(pushes, push_len())
}

/// Instructions never push a negative number of bytes.
pub proof fn lemma_pushed_total_nonneg(pushes: Seq<Option<usize>>)
    ensures
        0 <= pushed_total(pushes),
{
    crate::seqs::lemma_sum_of_nonneg(pushes, push_len());
}

/// `bitcoin::consensus::deserialize::<Transaction>`: decodes a consensus-serialized
/// transaction. Claimed: it succeeds on the same bytes every time (a function of the bytes).
#[verifier::external_body]
pub(crate) fn decode_transaction(raw: &[u8]) -> (r: Result<
    bitcoin::Transaction,
    bitcoin::consensus::encode::Error,
>)
    ensures
        r is Ok <==> decodes_as_transaction(raw@),
{
    bitcoin::consensus::deserialize(raw)
}

/// Whether `rawtx_rs::tx::TxInfo::new` analyzes the transaction these bytes decode to.
pub uninterp spec fn analyzes_as_transaction(raw: Seq<u8>) -> bool;

/// `TxInfo::is_bip69_compliant` of the analysis of these bytes.
pub uninterp spec fn bip69_of(raw: Seq<u8>) -> bool;

/// The length of the analysis's `input_infos`.
pub uninterp spec fn input_count_of(raw: Seq<u8>) -> nat;

/// The length of the analysis's `output_infos`.
pub uninterp spec fn output_count_of(raw: Seq<u8>) -> nat;

/// The `in_type` of input `i` of the analysis, variant for variant.
pub uninterp spec fn input_type_of(raw: Seq<u8>, i: int) -> InputType;

/// The `sequence` of input `i` of the analysis, as its consensus `u32`.
pub uninterp spec fn input_sequence_of(raw: Seq<u8>, i: int) -> u32;

/// `InputInfo::is_spending_multisig` of input `i` of the analysis.
pub uninterp spec fn input_multisig_of(raw: Seq<u8>, i: int) -> bool;

/// The `compressed` flag of each entry of the `pubkey_stats` of input `i`.
pub uninterp spec fn input_pubkeys_of(raw: Seq<u8>, i: int) -> Seq<bool>;

/// The length of the `signature_info` of input `i`.
pub uninterp spec fn signature_count_of(raw: Seq<u8>, i: int) -> nat;

/// The scheme of signature `k` of input `i`.
pub uninterp spec fn signature_type_of(raw: Seq<u8>, i: int, k: int) -> SignatureType;

/// Whether the `der_encoded` of signature `k` of input `i` is `DEREncoding::Valid`.
pub uninterp spec fn signature_der_valid_of(raw: Seq<u8>, i: int, k: int) -> bool;

/// The `sig_hash` of signature `k` of input `i`.
pub uninterp spec fn signature_sig_hash_of(raw: Seq<u8>, i: int, k: int) -> u8;

/// The `length` of signature `k` of input `i`.
pub uninterp spec fn signature_length_of(raw: Seq<u8>, i: int, k: int) -> usize;

/// `SignatureInfo::low_r` of signature `k` of input `i`.
pub uninterp spec fn signature_low_r_of(raw: Seq<u8>, i: int, k: int) -> bool;

/// `SignatureInfo::low_s` of signature `k` of input `i`.
pub uninterp spec fn signature_low_s_of(raw: Seq<u8>, i: int, k: int) -> bool;

/// The `out_type` of output `o` of the analysis, variant for variant, with the flavor of an
/// OP_RETURN output.
pub uninterp spec fn output_type_of(raw: Seq<u8>, o: int) -> OutputType;

/// The `value` of output `o` of the analysis in satoshi.
pub uninterp spec fn output_value_of(raw: Seq<u8>, o: int) -> u64;

/// The `compressed` flag of each entry of the `pubkey_stats` of output `o`.
pub uninterp spec fn output_pubkeys_of(raw: Seq<u8>, o: int) -> Seq<bool>;

/// `Transaction::is_coinbase` of the transaction these bytes decode to.
pub uninterp spec fn is_coinbase_of(raw: Seq<u8>) -> bool;

/// `Transaction::weight` in weight units of the transaction these bytes decode to.
pub uninterp spec fn weight_of(raw: Seq<u8>) -> u64;

/// The `lock_time` of the transaction these bytes decode to, as its consensus `u32`.
pub uninterp spec fn lock_time_of(raw: Seq<u8>) -> u32;

/// The `sequence` of each input of the transaction these bytes decode to, as its consensus
/// `u32`, in order.
pub uninterp spec fn input_sequences_of(raw: Seq<u8>) -> Seq<u32>;

/// The value in satoshi of each output of the transaction these bytes decode to, in order.
pub uninterp spec fn output_values_of(raw: Seq<u8>) -> Seq<u64>;

/// The id of the pool `PoolIdentification::identify_pool` finds on mainnet, among the known
/// mainnet pools, for the coinbase transaction these bytes decode to.
pub uninterp spec fn mainnet_pool_id_of(raw: Seq<u8>) -> Option<u64>;

/// A transaction's consensus bytes together with the `rawtx_rs` analysis of the transaction
/// they decode to. Its fields are private and only `analyze_raw_transaction` builds one, so
/// the analysis is always that of the bytes it holds; the accessors below rest on this.
pub struct RawAnalysis {
    raw: Vec<u8>,
    info: rawtx_rs::tx::TxInfo,
}

impl RawAnalysis {
    /// The bytes that were analyzed.
    pub closed spec fn bytes(&self) -> Seq<u8> {
        self.raw@
    }
}

/// `bitcoin::consensus::deserialize::<Transaction>` followed by `rawtx_rs::tx::TxInfo::new`.
/// Claimed: decoding succeeds exactly when `decode_transaction` does, the analysis succeeds on
/// the same bytes every time, and the analysis keeps the bytes it was made from.
#[verifier::external_body]
pub(crate) fn analyze_raw_transaction(raw: &[u8]) -> (r: Result<
    Result<RawAnalysis, rawtx_rs::tx::TxInfoError>,
    bitcoin::consensus::encode::Error,
>)
    ensures
        r is Ok <==> decodes_as_transaction(raw@),
        r matches Ok(a) ==> (a is Ok <==> analyzes_as_transaction(raw@)),
        r matches Ok(Ok(a)) ==> a.bytes() == raw@,
{
    match bitcoin::consensus::deserialize::<bitcoin::Transaction>(raw) {
        Ok(tx) => Ok(match rawtx_rs::tx::TxInfo::new(&tx) {
            Ok(info) => Ok(RawAnalysis { raw: raw.to_vec(), info }),
            Err(e) => Err(e),
        }),
        Err(e) => Err(e),
    }
}

/// `TxInfo::is_bip69_compliant` of an analysis. Claimed: `bip69_of` its bytes.
#[verifier::external_body]
pub(crate) fn analysis_bip69(a: &RawAnalysis) -> (r: bool)
    ensures
        r == bip69_of(a.bytes()),
{
    a.info.is_bip69_compliant()
}

/// The number of `input_infos` of an analysis. Claimed: `input_count_of` its bytes.
#[verifier::external_body]
pub(crate) fn analysis_input_count(a: &RawAnalysis) -> (r: usize)
    ensures
        r == input_count_of(a.bytes()),
{
    a.info.input_infos.len()
}

/// The number of `output_infos` of an analysis. Claimed: `output_count_of` its bytes.
#[verifier::external_body]
pub(crate) fn analysis_output_count(a: &RawAnalysis) -> (r: usize)
    ensures
        r == output_count_of(a.bytes()),
{
    a.info.output_infos.len()
}

/// The `in_type` of input `i`, variant for variant. Claimed: `input_type_of`.
#[verifier::external_body]
pub(crate) fn analysis_input_type(a: &RawAnalysis, i: usize) -> (r: InputType)
    requires
        i < input_count_of(a.bytes()),
    ensures
        r == input_type_of(a.bytes(), i as int),
{
    match a.info.input_infos[i].in_type {
        RawInputType::P2pk => InputType::P2pk, RawInputType::P2pkLaxDer => InputType::P2pkLaxDer,
        RawInputType::P2pkh => InputType::P2pkh, RawInputType::P2pkhLaxDer => InputType::P2pkhLaxDer,
        RawInputType::P2shP2wpkh => InputType::P2shP2wpkh, RawInputType::P2wpkh => InputType::P2wpkh,
        RawInputType::P2ms => InputType::P2ms, RawInputType::P2msLaxDer => InputType::P2msLaxDer,
        RawInputType::P2sh => InputType::P2sh, RawInputType::P2shP2wsh => InputType::P2shP2wsh,
        RawInputType::P2wsh => InputType::P2wsh, RawInputType::P2trkp => InputType::P2trkp,
        RawInputType::P2trsp => InputType::P2trsp, RawInputType::P2a => InputType::P2a,
        RawInputType::Coinbase => InputType::Coinbase, RawInputType::CoinbaseWitness => InputType::CoinbaseWitness,
        RawInputType::Unknown => InputType::Unknown,
    }
}

/// The `sequence` of input `i` as its consensus `u32`. Claimed: `input_sequence_of`.
#[verifier::external_body]
pub(crate) fn analysis_input_sequence(a: &RawAnalysis, i: usize) -> (r: u32)
    requires
        i < input_count_of(a.bytes()),
    ensures
        r == input_sequence_of(a.bytes(), i as int),
{
    a.info.input_infos[i].sequence.to_consensus_u32()
}

/// `InputInfo::is_spending_multisig` of input `i`. Claimed: `input_multisig_of`.
#[verifier::external_body]
pub(crate) fn analysis_input_multisig(a: &RawAnalysis, i: usize) -> (r: bool)
    requires
        i < input_count_of(a.bytes()),
    ensures
        r == input_multisig_of(a.bytes(), i as int),
{
    a.info.input_infos[i].is_spending_multisig()
}

/// The `compressed` flags of the `pubkey_stats` of input `i`. Claimed: `input_pubkeys_of`.
#[verifier::external_body]
pub(crate) fn analysis_input_pubkeys(a: &RawAnalysis, i: usize) -> (r: Vec<bool>)
    requires
        i < input_count_of(a.bytes()),
    ensures
        r@ == input_pubkeys_of(a.bytes(), i as int),
{
    a.info.input_infos[i].pubkey_stats.iter().map(|p| p.compressed).collect()
}

/// The number of signatures of input `i`. Claimed: `signature_count_of`.
#[verifier::external_body]
pub(crate) fn analysis_signature_count(a: &RawAnalysis, i: usize) -> (r: usize)
    requires
        i < input_count_of(a.bytes()),
    ensures
        r == signature_count_of(a.bytes(), i as int),
{
    a.info.input_infos[i].signature_info.len()
}

/// The scheme of signature `k` of input `i`. Claimed: `signature_type_of`.
#[verifier::external_body]
pub(crate) fn analysis_signature_type(a: &RawAnalysis, i: usize, k: usize) -> (r: SignatureType)
    requires
        i < input_count_of(a.bytes()),
        k < signature_count_of(a.bytes(), i as int),
    ensures
        r == signature_type_of(a.bytes(), i as int, k as int),
{
    match a.info.input_infos[i].signature_info[k].signature {
        rawtx_rs::script::SignatureType::Ecdsa(_) => SignatureType::Ecdsa,
        rawtx_rs::script::SignatureType::Schnorr(_) => SignatureType::Schnorr,
    }
}

/// Whether signature `k` of input `i` is strictly DER encoded. Claimed: `signature_der_valid_of`.
#[verifier::external_body]
pub(crate) fn analysis_signature_der_valid(a: &RawAnalysis, i: usize, k: usize) -> (r: bool)
    requires
        i < input_count_of(a.bytes()),
        k < signature_count_of(a.bytes(), i as int),
    ensures
        r == signature_der_valid_of(a.bytes(), i as int, k as int),
{
    a.info.input_infos[i].signature_info[k].der_encoded == rawtx_rs::script::DEREncoding::Valid
}

/// The `sig_hash` of signature `k` of input `i`. Claimed: `signature_sig_hash_of`.
#[verifier::external_body]
pub(crate) fn analysis_signature_sig_hash(a: &RawAnalysis, i: usize, k: usize) -> (r: u8)
    requires
        i < input_count_of(a.bytes()),
        k < signature_count_of(a.bytes(), i as int),
    ensures
        r == signature_sig_hash_of(a.bytes(), i as int, k as int),
{
    a.info.input_infos[i].signature_info[k].sig_hash
}

/// The `length` of signature `k` of input `i`. Claimed: `signature_length_of`.
#[verifier::external_body]
pub(crate) fn analysis_signature_length(a: &RawAnalysis, i: usize, k: usize) -> (r: usize)
    requires
        i < input_count_of(a.bytes()),
        k < signature_count_of(a.bytes(), i as int),
    ensures
        r == signature_length_of(a.bytes(), i as int, k as int),
{
    a.info.input_infos[i].signature_info[k].length
}

/// `SignatureInfo::low_r` of signature `k` of input `i`. Claimed: `signature_low_r_of`.
#[verifier::external_body]
pub(crate) fn analysis_signature_low_r(a: &RawAnalysis, i: usize, k: usize) -> (r: bool)
    requires
        i < input_count_of(a.bytes()),
        k < signature_count_of(a.bytes(), i as int),
    ensures
        r == signature_low_r_of(a.bytes(), i as int, k as int),
{
    a.info.input_infos[i].signature_info[k].low_r()
}

/// `SignatureInfo::low_s` of signature `k` of input `i`. Claimed: `signature_low_s_of`.
#[verifier::external_body]
pub(crate) fn analysis_signature_low_s(a: &RawAnalysis, i: usize, k: usize) -> (r: bool)
    requires
        i < input_count_of(a.bytes()),
        k < signature_count_of(a.bytes(), i as int),
    ensures
        r == signature_low_s_of(a.bytes(), i as int, k as int),
{
    a.info.input_infos[i].signature_info[k].low_s()
}

/// The `out_type` of output `o`, variant for variant, for every variant but `OpReturn`.
/// Claimed: `None` exactly for an OP_RETURN output, and otherwise `output_type_of`.
#[verifier::external_body]
pub(crate) fn analysis_output_type(a: &RawAnalysis, o: usize) -> (r: Option<OutputType>)
    requires
        o < output_count_of(a.bytes()),
    ensures
        r is None <==> output_type_of(a.bytes(), o as int) is OpReturn,
        r matches Some(t) ==> t == output_type_of(a.bytes(), o as int),
{
    match a.info.output_infos[o].out_type {
        RawOutputType::P2pk => Some(OutputType::P2pk), RawOutputType::P2pkh => Some(OutputType::P2pkh),
        RawOutputType::P2wpkhV0 => Some(OutputType::P2wpkhV0), RawOutputType::P2ms => Some(OutputType::P2ms),
        RawOutputType::P2sh => Some(OutputType::P2sh), RawOutputType::P2wshV0 => Some(OutputType::P2wshV0),
        RawOutputType::OpReturn(_) => None,
        RawOutputType::P2tr => Some(OutputType::P2tr), RawOutputType::P2a => Some(OutputType::P2a),
        RawOutputType::Unknown => Some(OutputType::Unknown),
    }
}

/// The flavor of OP_RETURN output `o`, variant for variant. Claimed: the output's type is
/// `OpReturn` of it.
#[verifier::external_body]
pub(crate) fn analysis_opreturn_kind(a: &RawAnalysis, o: usize) -> (r: OpReturnKind)
    requires
        o < output_count_of(a.bytes()),
        output_type_of(a.bytes(), o as int) is OpReturn,
    ensures
        output_type_of(a.bytes(), o as int) == OutputType::OpReturn(r),
{
    match &a.info.output_infos[o].out_type {
        RawOutputType::OpReturn(f) => match f {
            RawFlavor::Unspecified => OpReturnKind::Unspecified, RawFlavor::Omni => OpReturnKind::Omni,
            RawFlavor::WitnessCommitment => OpReturnKind::WitnessCommitment,
            RawFlavor::StacksBlockCommit => OpReturnKind::StacksBlockCommit,
            RawFlavor::Len1Byte => OpReturnKind::Len1Byte, RawFlavor::Len20Byte => OpReturnKind::Len20Byte,
            RawFlavor::Len80Byte => OpReturnKind::Len80Byte, RawFlavor::RSKBlock => OpReturnKind::RSKBlock,
            RawFlavor::Bip47PaymentCode => OpReturnKind::Bip47PaymentCode, RawFlavor::ExSat => OpReturnKind::ExSat,
            RawFlavor::CoreDao => OpReturnKind::CoreDao, RawFlavor::HathorNetwork => OpReturnKind::HathorNetwork,
            RawFlavor::Runestone => OpReturnKind::Runestone,
        },
        _ => OpReturnKind::Unspecified,
    }
}

/// The `value` of output `o` in satoshi. Claimed: `output_value_of`.
#[verifier::external_body]
pub(crate) fn analysis_output_value(a: &RawAnalysis, o: usize) -> (r: u64)
    requires
        o < output_count_of(a.bytes()),
    ensures
        r == output_value_of(a.bytes(), o as int),
{
    a.info.output_infos[o].value.to_sat()
}

/// The `compressed` flags of the `pubkey_stats` of output `o`. Claimed: `output_pubkeys_of`.
#[verifier::external_body]
pub(crate) fn analysis_output_pubkeys(a: &RawAnalysis, o: usize) -> (r: Vec<bool>)
    requires
        o < output_count_of(a.bytes()),
    ensures
        r@ == output_pubkeys_of(a.bytes(), o as int),
{
    a.info.output_infos[o].pubkey_stats.iter().map(|p| p.compressed).collect()
}

/// The known mainnet mining pools of `bitcoin_pool_identification`. Its field is private and
/// only `KnownPools::mainnet` builds one, so it always holds that crate's mainnet list, whose
/// every address parses as a mainnet address (as `Pool::addresses` requires).
pub struct KnownPools {
    pools: Vec<bitcoin_pool_identification::Pool>,
}

impl KnownPools {
    /// The mainnet list.
    pub fn mainnet() -> KnownPools {
        KnownPools { pools: mainnet_pools() }
    }
}

/// `bitcoin_pool_identification::default_data(Network::Bitcoin)`: the known mainnet pools.
/// Nothing is claimed.
#[verifier::external_body]
fn mainnet_pools() -> (r: Vec<bitcoin_pool_identification::Pool>) {
    bitcoin_pool_identification::default_data(bitcoin::Network::Bitcoin)
}

/// The `(id, name)` of each known pool, in list order. Nothing is claimed: the list is data of
/// the outside crate.
#[verifier::external_body]
pub(crate) fn pool_ids_and_names(pools: &KnownPools) -> (r: Vec<(u64, String)>) {
    pools.pools.iter().map(|p| (p.id, p.name.clone())).collect()
}

/// `Transaction::is_coinbase` of the transaction the bytes decode to. Claimed: `is_coinbase_of`.
#[verifier::external_body]
pub(crate) fn raw_is_coinbase(raw: &[u8]) -> (r: bool)
    requires
        decodes_as_transaction(raw@),
    ensures
        r == is_coinbase_of(raw@),
{
    match bitcoin::consensus::deserialize::<bitcoin::Transaction>(raw) {
        Ok(tx) => tx.is_coinbase(),
        Err(_) => false,
    }
}

/// `PoolIdentification::identify_pool` on mainnet among the known mainnet pools, for the
/// coinbase transaction the bytes decode to, giving the pool's id. It asserts that the
/// transaction is a coinbase, hence the `requires`. Claimed: `mainnet_pool_id_of` the bytes.
#[verifier::external_body]
pub(crate) fn identify_pool_id(coinbase_raw: &[u8], pools: &KnownPools) -> (r: Option<u64>)
    requires
        decodes_as_transaction(coinbase_raw@),
        is_coinbase_of(coinbase_raw@),
    ensures
        r == mainnet_pool_id_of(coinbase_raw@),
{
    match bitcoin::consensus::deserialize::<bitcoin::Transaction>(coinbase_raw) {
        Ok(tx) => tx.identify_pool(bitcoin::Network::Bitcoin, &pools.pools).map(|res| res.pool.id),
        Err(_) => None,
    }
}

/// `Transaction::weight` in weight units of the transaction the bytes decode to. Claimed:
/// `weight_of` the bytes.
#[verifier::external_body]
pub(crate) fn raw_transaction_weight(raw: &[u8]) -> (r: u64)
    requires
        decodes_as_transaction(raw@),
    ensures
        r == weight_of(raw@),
{
    match bitcoin::consensus::deserialize::<bitcoin::Transaction>(raw) {
        Ok(tx) => tx.weight().to_wu(),
        Err(_) => 0,
    }
}


/// The `lock_time` of the transaction the bytes decode to, as its consensus `u32`. Claimed:
/// `lock_time_of` the bytes.
#[verifier::external_body]
pub(crate) fn raw_lock_time(raw: &[u8]) -> (r: u32)
    requires
        decodes_as_transaction(raw@),
    ensures
        r == lock_time_of(raw@),
{
    match bitcoin::consensus::deserialize::<bitcoin::Transaction>(raw) {
        Ok(tx) => tx.lock_time.to_consensus_u32(),
        Err(_) => 0,
    }
}

/// The `sequence` of each input of the transaction the bytes decode to, as its consensus
/// `u32`. Claimed: `input_sequences_of` the bytes.
#[verifier::external_body]
pub(crate) fn raw_input_sequences(raw: &[u8]) -> (r: Vec<u32>)
    requires
        decodes_as_transaction(raw@),
    ensures
        r@ == input_sequences_of(raw@),
{
    match bitcoin::consensus::deserialize::<bitcoin::Transaction>(raw) {
        Ok(tx) => tx.input.iter().map(|i| i.sequence.to_consensus_u32()).collect(),
        Err(_) => Vec::new(),
    }
}

/// The value in satoshi of each output of the transaction the bytes decode to. Claimed:
/// `output_values_of` the bytes.
#[verifier::external_body]
pub(crate) fn raw_output_values(raw: &[u8]) -> (r: Vec<u64>)
    requires
        decodes_as_transaction(raw@),
    ensures
        r@ == output_values_of(raw@),
{
    match bitcoin::consensus::deserialize::<bitcoin::Transaction>(raw) {
        Ok(tx) => tx.output.iter().map(|o| o.value.to_sat()).collect(),
        Err(_) => Vec::new(),
    }
}

/// `chrono::DateTime::from_timestamp(secs, 0)` formatted as `%Y-%m-%d`. Claimed: every
/// timestamp from 0 to `u32::MAX` (years 1970 to 2106, well inside chrono's range of years)
/// gives the UTC date `utc_date_of`. Nothing is claimed of other timestamps.
#[verifier::external_body]
pub(crate) fn utc_date(secs: i64) -> (r: Option<String>)
    ensures
        0 <= secs <= u32::MAX ==> r is Some,
        r matches Some(s) ==> (0 <= secs <= u32::MAX ==> s@ == utc_date_of(secs)),
{
    match chrono::DateTime::from_timestamp(secs, 0) {
        Some(t) => Some(t.format("%Y-%m-%d").to_string()),
        None => None,
    }
}

/// `bitcoin::Script::minimal_non_dust` in satoshi. Claimed: `minimal_non_dust_of`, as its
/// source computes it. It multiplies the fee rate by the script's size, which cannot overflow
/// below the length bound required here.
#[verifier::external_body]
pub(crate) fn minimal_non_dust(script: &[u8]) -> (r: u64)
    requires
        script@.len() < 1_000_000_000_000,
    ensures
        r == minimal_non_dust_of(script@),
        script@.len() > 0 && script@[0] == crate::output_stats::OP_RETURN ==> r == 0,
{
    bitcoin::Script::from_bytes(script).minimal_non_dust().to_sat()
}

/// `bitcoin::Script::instructions`, each instruction mapped to the length of the data it
/// pushes. Claimed: a function of the script bytes, and the pushed data are disjoint parts of
/// the script, so their total does not exceed the script's length.
#[verifier::external_body]
pub(crate) fn script_pushes(script: &[u8]) -> (r: Vec<Option<usize>>)
    ensures
        r@ == script_pushes_of(script@),
        pushed_total(r@) <= script@.len(),
{
    bitcoin::Script::from_bytes(script).instructions().map(|i| match i {
        Ok(Instruction::PushBytes(bytes)) => Some(bytes.len()),
        Ok(Instruction::Op(_)) => None,
        Err(_) => None,
    }).collect()
}

/// `bitcoin::CompactTarget::from_unprefixed_hex`, as the consensus `u32`. Claimed from the
/// source: it refuses a `0x`/`0X` prefix and otherwise parses the string as `u32::from_str_radix`
/// does with radix 16.
#[verifier::external_body]
pub(crate) fn compact_target_from_unprefixed_hex(s: &str) -> (r: Result<
    u32,
    bitcoin::error::UnprefixedHexError,
>)
    ensures
        r is Ok <==> unprefixed_hex_u32(s@) is Some,
        r matches Ok(v) ==> unprefixed_hex_u32(s@) == Some(v),
{
    bitcoin::CompactTarget::from_unprefixed_hex(s).map(|t| t.to_consensus())
}

/// `i32::from_str_radix(s, 16)`. Claimed from the standard library's documentation: an
/// optional sign followed by one or more hex digits, in the range of `i32`.
#[verifier::external_body]
pub(crate) fn i32_from_hex(s: &str) -> (r: Result<i32, std::num::ParseIntError>)
    ensures
        r is Ok <==> hex_i32(s@) is Some,
        r matches Ok(v) ==> hex_i32(s@) == Some(v),
{
    i32::from_str_radix(s, 16)
}

} // verus!
