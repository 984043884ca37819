//! Public key and signature statistics of a block.

use vstd::prelude::*;
use crate::model::Block;
use crate::seqs::{count_where, flat_map, lemma_flat_map_prefix_len, lemma_flat_map_push, lemma_take_push};
use crate::tx_stats::{tx_pairs, TxPair};
use crate::txinfo::{InputSummary, OutputSummary, SignatureSummary, SignatureType, TxSummary};

verus! {

broadcast use crate::seqs::group_seqs;

/// Public key and signature counts of a block.
#[derive(Clone, Debug)]
pub struct ScriptStats {
    pub height: i64,
    pub date: String,
    pub pubkeys: i32,
    pub pubkeys_compressed: i32,
    pub pubkeys_uncompressed: i32,
    pub pubkeys_compressed_inputs: i32,
    pub pubkeys_uncompressed_inputs: i32,
    pub pubkeys_compressed_outputs: i32,
    pub pubkeys_uncompressed_outputs: i32,
    pub sigs_schnorr: i32,
    pub sigs_ecdsa: i32,
    pub sigs_ecdsa_not_strict_der: i32,
    pub sigs_ecdsa_strict_der: i32,
    pub sigs_ecdsa_length_less_70byte: i32,
    pub sigs_ecdsa_length_70byte: i32,
    pub sigs_ecdsa_length_71byte: i32,
    pub sigs_ecdsa_length_72byte: i32,
    pub sigs_ecdsa_length_73byte: i32,
    pub sigs_ecdsa_length_74byte: i32,
    pub sigs_ecdsa_length_75byte_or_more: i32,
    pub sigs_ecdsa_low_r: i32,
    pub sigs_ecdsa_high_r: i32,
    pub sigs_ecdsa_low_s: i32,
    pub sigs_ecdsa_high_s: i32,
    pub sigs_ecdsa_high_rs: i32,
    pub sigs_ecdsa_low_rs: i32,
    pub sigs_ecdsa_low_r_high_s: i32,
    pub sigs_ecdsa_high_r_low_s: i32,
    pub sigs_sighashes: i32,
    pub sigs_sighash_all: i32,
    pub sigs_sighash_none: i32,
    pub sigs_sighash_single: i32,
    pub sigs_sighash_all_acp: i32,
    pub sigs_sighash_none_acp: i32,
    pub sigs_sighash_single_acp: i32,
}

/// A public key counted by whether it is compressed.
pub open spec fn compressed() -> spec_fn(bool) -> bool {
    |c: bool| c
}

pub open spec fn uncompressed() -> spec_fn(bool) -> bool {
    |c: bool| !c
}

pub open spec fn sig_is(t: SignatureType) -> spec_fn(SignatureSummary) -> bool {
    |g: SignatureSummary| g.signature == t
}

pub open spec fn ecdsa_where(p: spec_fn(SignatureSummary) -> bool) -> spec_fn(SignatureSummary) -> bool {
    |g: SignatureSummary| g.signature == SignatureType::Ecdsa && p(g)
}

pub open spec fn der_valid() -> spec_fn(SignatureSummary) -> bool {
    |g: SignatureSummary| g.der_valid
}

pub open spec fn der_invalid() -> spec_fn(SignatureSummary) -> bool {
    |g: SignatureSummary| !g.der_valid
}

pub open spec fn length_in(lo: int, hi: int) -> spec_fn(SignatureSummary) -> bool {
    |g: SignatureSummary| lo <= g.length <= hi
}

pub open spec fn low_r_s(low_r: bool, low_s: bool) -> spec_fn(SignatureSummary) -> bool {
    |g: SignatureSummary| g.low_r == low_r && g.low_s == low_s
}

pub open spec fn r_is_low(low: bool) -> spec_fn(SignatureSummary) -> bool {
    |g: SignatureSummary| g.low_r == low
}

pub open spec fn s_is_low(low: bool) -> spec_fn(SignatureSummary) -> bool {
    |g: SignatureSummary| g.low_s == low
}

pub open spec fn sighash_is(flag: u8) -> spec_fn(SignatureSummary) -> bool {
    |g: SignatureSummary| g.sig_hash == flag
}

pub open spec fn any_sig() -> spec_fn(SignatureSummary) -> bool {
    |g: SignatureSummary| true
}

/// The statistics over the public keys found in inputs (`ins`, each as its compressed flag),
/// in outputs (`outs`) and the signatures found in inputs (`sigs`).
pub open spec fn script_stats_over(
    height: i64,
    date: String,
    ins: Seq<bool>,
    outs: Seq<bool>,
    sigs: Seq<SignatureSummary>,
) -> ScriptStats {
    ScriptStats {
        height,
        date,
        pubkeys: (ins.len() + outs.len()) as i32,
        pubkeys_compressed: (count_where(ins, compressed()) + count_where(outs, compressed()))
            as i32,
        pubkeys_uncompressed: (count_where(ins, uncompressed()) + count_where(outs, uncompressed()))
            as i32,
        pubkeys_compressed_inputs: count_where(ins, compressed()) as i32,
        pubkeys_uncompressed_inputs: count_where(ins, uncompressed()) as i32,
        pubkeys_compressed_outputs: count_where(outs, compressed()) as i32,
        pubkeys_uncompressed_outputs: count_where(outs, uncompressed()) as i32,
        sigs_schnorr: count_where(sigs, sig_is(SignatureType::Schnorr)) as i32,
        sigs_ecdsa: count_where(sigs, sig_is(SignatureType::Ecdsa)) as i32,
        sigs_ecdsa_not_strict_der: count_where(sigs, ecdsa_where(der_invalid())) as i32,
        sigs_ecdsa_strict_der: count_where(sigs, ecdsa_where(der_valid())) as i32,
        sigs_ecdsa_length_less_70byte: count_where(sigs, ecdsa_where(length_in(8, 69))) as i32,
        sigs_ecdsa_length_70byte: count_where(sigs, ecdsa_where(length_in(70, 70))) as i32,
        sigs_ecdsa_length_71byte: count_where(sigs, ecdsa_where(length_in(71, 71))) as i32,
        sigs_ecdsa_length_72byte: count_where(sigs, ecdsa_where(length_in(72, 72))) as i32,
        sigs_ecdsa_length_73byte: count_where(sigs, ecdsa_where(length_in(73, 73))) as i32,
        sigs_ecdsa_length_74byte: count_where(sigs, ecdsa_where(length_in(74, 74))) as i32,
        sigs_ecdsa_length_75byte_or_more: count_where(
            sigs,
            ecdsa_where(length_in(75, usize::MAX as int)),
        ) as i32,
        sigs_ecdsa_low_r: count_where(sigs, ecdsa_where(r_is_low(true))) as i32,
        sigs_ecdsa_high_r: count_where(sigs, ecdsa_where(r_is_low(false))) as i32,
        sigs_ecdsa_low_s: count_where(sigs, ecdsa_where(s_is_low(true))) as i32,
        sigs_ecdsa_high_s: count_where(sigs, ecdsa_where(s_is_low(false))) as i32,
        sigs_ecdsa_high_rs: count_where(sigs, ecdsa_where(low_r_s(false, false))) as i32,
        sigs_ecdsa_low_rs: count_where(sigs, ecdsa_where(low_r_s(true, true))) as i32,
        sigs_ecdsa_low_r_high_s: count_where(sigs, ecdsa_where(low_r_s(true, false))) as i32,
        sigs_ecdsa_high_r_low_s: count_where(sigs, ecdsa_where(low_r_s(false, true))) as i32,
        sigs_sighashes: count_where(sigs, ecdsa_where(any_sig())) as i32,
        sigs_sighash_all: count_where(sigs, ecdsa_where(sighash_is(0x01))) as i32,
        sigs_sighash_none: count_where(sigs, ecdsa_where(sighash_is(0x02))) as i32,
        sigs_sighash_single: count_where(sigs, ecdsa_where(sighash_is(0x03))) as i32,
        sigs_sighash_all_acp: count_where(sigs, ecdsa_where(sighash_is(0x81))) as i32,
        sigs_sighash_none_acp: count_where(sigs, ecdsa_where(sighash_is(0x82))) as i32,
        sigs_sighash_single_acp: count_where(sigs, ecdsa_where(sighash_is(0x83))) as i32,
    }
}

pub open spec fn input_pubkeys_of() -> spec_fn(InputSummary) -> Seq<bool> {
    |i: InputSummary| i.pubkeys_compressed@
}

pub open spec fn input_signatures_of() -> spec_fn(InputSummary) -> Seq<SignatureSummary> {
    |i: InputSummary| i.signatures@
}

pub open spec fn output_pubkeys_of() -> spec_fn(OutputSummary) -> Seq<bool> {
    |o: OutputSummary| o.pubkeys_compressed@
}

pub open spec fn tx_input_pubkeys() -> spec_fn(TxPair) -> Seq<bool> {
    |p: TxPair| flat_map(p.1.input_infos@, input_pubkeys_of())
}

pub open spec fn tx_signatures() -> spec_fn(TxPair) -> Seq<SignatureSummary> {
    |p: TxPair| flat_map(p.1.input_infos@, input_signatures_of())
}

pub open spec fn tx_output_pubkeys() -> spec_fn(TxPair) -> Seq<bool> {
    |p: TxPair| flat_map(p.1.output_infos@, output_pubkeys_of())
}

/// The script statistics of a block.
pub open spec fn spec_script_stats(block: Block, date: String, infos: Seq<TxSummary>) -> ScriptStats {
    let ps = tx_pairs(block, infos);
    script_stats_over(
        block.height,
        date,
        flat_map(ps, tx_input_pubkeys()),
        flat_map(ps, tx_output_pubkeys()),
        flat_map(ps, tx_signatures()),
    )
}

/// What `ScriptStats::from_block` needs of its arguments: the counts fit in `i32`, and every
/// ECDSA signature is at least 8 bytes long.
pub open spec fn script_stats_fits(block: Block, infos: Seq<TxSummary>) -> bool {
    let ps = tx_pairs(block, infos);
    let sigs = flat_map(ps, tx_signatures());
    &&& flat_map(ps, tx_input_pubkeys()).len() + flat_map(ps, tx_output_pubkeys()).len()
        <= i32::MAX
    &&& sigs.len() <= i32::MAX
    &&& forall|i: int, j: int, k: int|
        0 <= i < ps.len() && 0 <= j < ps[i].1.input_infos@.len() && 0 <= k
            < ps[i].1.input_infos@[j].signatures@.len() && (
        #[trigger] ps[i].1.input_infos@[j].signatures@[k]).signature == SignatureType::Ecdsa
            ==> ps[i].1.input_infos@[j].signatures@[k].length >= 8
}

/// Counts one public key found in an input.
fn add_input_pubkey(
    s: &mut ScriptStats,
    c: bool,
    Ghost(h): Ghost<i64>,
    Ghost(d): Ghost<String>,
    Ghost(ins): Ghost<Seq<bool>>,
    Ghost(outs): Ghost<Seq<bool>>,
    Ghost(sigs): Ghost<Seq<SignatureSummary>>,
)
    requires
        ins.len() + outs.len() < i32::MAX,
        *old(s) == script_stats_over(h, d, ins, outs, sigs),
    ensures
        *final(s) == script_stats_over(h, d, ins.push(c), outs, sigs),
{
    s.pubkeys = s.pubkeys + 1;
    if c {
        s.pubkeys_compressed = s.pubkeys_compressed + 1;
        s.pubkeys_compressed_inputs = s.pubkeys_compressed_inputs + 1;
    } else {
        s.pubkeys_uncompressed = s.pubkeys_uncompressed + 1;
        s.pubkeys_uncompressed_inputs = s.pubkeys_uncompressed_inputs + 1;
    }
}

/// Counts one public key found in an output.
fn add_output_pubkey(
    s: &mut ScriptStats,
    c: bool,
    Ghost(h): Ghost<i64>,
    Ghost(d): Ghost<String>,
    Ghost(ins): Ghost<Seq<bool>>,
    Ghost(outs): Ghost<Seq<bool>>,
    Ghost(sigs): Ghost<Seq<SignatureSummary>>,
)
    requires
        ins.len() + outs.len() < i32::MAX,
        *old(s) == script_stats_over(h, d, ins, outs, sigs),
    ensures
        *final(s) == script_stats_over(h, d, ins, outs.push(c), sigs),
{
    s.pubkeys = s.pubkeys + 1;
    if c {
        s.pubkeys_compressed = s.pubkeys_compressed + 1;
        s.pubkeys_compressed_outputs = s.pubkeys_compressed_outputs + 1;
    } else {
        s.pubkeys_uncompressed = s.pubkeys_uncompressed + 1;
        s.pubkeys_uncompressed_outputs = s.pubkeys_uncompressed_outputs + 1;
    }
}

/// Counts one signature found in an input: by scheme, and for ECDSA by encoding, length,
/// R and S values and sighash flag.
#[verifier::rlimit(30)]
fn add_signature(
    s: &mut ScriptStats,
    sig: &SignatureSummary,
    Ghost(h): Ghost<i64>,
    Ghost(d): Ghost<String>,
    Ghost(ins): Ghost<Seq<bool>>,
    Ghost(outs): Ghost<Seq<bool>>,
    Ghost(sigs): Ghost<Seq<SignatureSummary>>,
)
    requires
        sigs.len() < i32::MAX,
        sig.signature == SignatureType::Ecdsa ==> sig.length >= 8,
        *old(s) == script_stats_over(h, d, ins, outs, sigs),
    ensures
        *final(s) == script_stats_over(h, d, ins, outs, sigs.push(*sig)),
{
    match sig.signature {
        SignatureType::Schnorr => {
            s.sigs_schnorr = s.sigs_schnorr + 1;
        },
        SignatureType::Ecdsa => {
            s.sigs_ecdsa = s.sigs_ecdsa + 1;
            if sig.der_valid {
                s.sigs_ecdsa_strict_der = s.sigs_ecdsa_strict_der + 1;
            } else {
                s.sigs_ecdsa_not_strict_der = s.sigs_ecdsa_not_strict_der + 1;
            }
            if sig.length <= 69 {
                s.sigs_ecdsa_length_less_70byte = s.sigs_ecdsa_length_less_70byte + 1;
            } else if sig.length == 70 {
                s.sigs_ecdsa_length_70byte = s.sigs_ecdsa_length_70byte + 1;
            } else if sig.length == 71 {
                s.sigs_ecdsa_length_71byte = s.sigs_ecdsa_length_71byte + 1;
            } else if sig.length == 72 {
                s.sigs_ecdsa_length_72byte = s.sigs_ecdsa_length_72byte + 1;
            } else if sig.length == 73 {
                s.sigs_ecdsa_length_73byte = s.sigs_ecdsa_length_73byte + 1;
            } else if sig.length == 74 {
                s.sigs_ecdsa_length_74byte = s.sigs_ecdsa_length_74byte + 1;
            } else {
                s.sigs_ecdsa_length_75byte_or_more = s.sigs_ecdsa_length_75byte_or_more + 1;
            }
            let is_r_low = sig.low_r;
            let is_s_low = sig.low_s;
            if is_r_low {
                s.sigs_ecdsa_low_r = s.sigs_ecdsa_low_r + 1;
            } else {
                s.sigs_ecdsa_high_r = s.sigs_ecdsa_high_r + 1;
            }
            if is_s_low {
                s.sigs_ecdsa_low_s = s.sigs_ecdsa_low_s + 1;
            } else {
                s.sigs_ecdsa_high_s = s.sigs_ecdsa_high_s + 1;
            }
            if is_r_low && is_s_low {
                s.sigs_ecdsa_low_rs = s.sigs_ecdsa_low_rs + 1;
            } else if !is_r_low && !is_s_low {
                s.sigs_ecdsa_high_rs = s.sigs_ecdsa_high_rs + 1;
            } else if is_r_low && !is_s_low {
                s.sigs_ecdsa_low_r_high_s = s.sigs_ecdsa_low_r_high_s + 1;
            } else {
                s.sigs_ecdsa_high_r_low_s = s.sigs_ecdsa_high_r_low_s + 1;
            }
            s.sigs_sighashes = s.sigs_sighashes + 1;
            if sig.sig_hash == 0x01 {
                s.sigs_sighash_all = s.sigs_sighash_all + 1;
            } else if sig.sig_hash == 0x02 {
                s.sigs_sighash_none = s.sigs_sighash_none + 1;
            } else if sig.sig_hash == 0x03 {
                s.sigs_sighash_single = s.sigs_sighash_single + 1;
            } else if sig.sig_hash == 0x81 {
                s.sigs_sighash_all_acp = s.sigs_sighash_all_acp + 1;
            } else if sig.sig_hash == 0x82 {
                s.sigs_sighash_none_acp = s.sigs_sighash_none_acp + 1;
            } else if sig.sig_hash == 0x83 {
                s.sigs_sighash_single_acp = s.sigs_sighash_single_acp + 1;
            }
        },
    }
}

/// Counts the public keys and signatures of one analyzed input.
fn add_input(
    s: &mut ScriptStats,
    input: &InputSummary,
    Ghost(h): Ghost<i64>,
    Ghost(d): Ghost<String>,
    Ghost(ins): Ghost<Seq<bool>>,
    Ghost(outs): Ghost<Seq<bool>>,
    Ghost(sigs): Ghost<Seq<SignatureSummary>>,
)
    requires
        ins.len() + input.pubkeys_compressed@.len() + outs.len() <= i32::MAX,
        sigs.len() + input.signatures@.len() <= i32::MAX,
        forall|i: int|
            0 <= i < input.signatures@.len() && (#[trigger] input.signatures@[i]).signature
                == SignatureType::Ecdsa ==> input.signatures@[i].length >= 8,
        *old(s) == script_stats_over(h, d, ins, outs, sigs),
    ensures
        *final(s) == script_stats_over(
            h,
            d,
            ins + input.pubkeys_compressed@,
            outs,
            sigs + input.signatures@,
        ),
{
    let pks = &input.pubkeys_compressed;
    proof {
        assert(ins + pks@.take(0) =~= ins);
    }
    for k in 0..pks.len()
        invariant
            ins.len() + pks@.len() + outs.len() <= i32::MAX,
            *s == script_stats_over(h, d, ins + pks@.take(k as int), outs, sigs),
    {
        proof {
            assert(ins + pks@.take(k + 1) =~= (ins + pks@.take(k as int)).push(pks@[k as int]));
        }
        add_input_pubkey(s, pks[k], Ghost(h), Ghost(d), Ghost(ins + pks@.take(k as int)), Ghost(outs), Ghost(sigs));
    }
    let ghost ins1 = ins + pks@;
    let sg = &input.signatures;
    proof {
        assert(pks@.take(pks@.len() as int) =~= pks@);
        assert(sigs + sg@.take(0) =~= sigs);
    }
    for k in 0..sg.len()
        invariant
            sigs.len() + sg@.len() <= i32::MAX,
            forall|i: int|
                0 <= i < sg@.len() && (#[trigger] sg@[i]).signature == SignatureType::Ecdsa
                    ==> sg@[i].length >= 8,
            *s == script_stats_over(h, d, ins1, outs, sigs + sg@.take(k as int)),
    {
        proof {
            assert(sigs + sg@.take(k + 1) =~= (sigs + sg@.take(k as int)).push(sg@[k as int]));
        }
        add_signature(s, &sg[k], Ghost(h), Ghost(d), Ghost(ins1), Ghost(outs), Ghost(sigs + sg@.take(k as int)));
    }
    proof {
        assert(sg@.take(sg@.len() as int) =~= sg@);
    }
}

/// Counts the public keys of one analyzed output.
fn add_output(
    s: &mut ScriptStats,
    output: &OutputSummary,
    Ghost(h): Ghost<i64>,
    Ghost(d): Ghost<String>,
    Ghost(ins): Ghost<Seq<bool>>,
    Ghost(outs): Ghost<Seq<bool>>,
    Ghost(sigs): Ghost<Seq<SignatureSummary>>,
)
    requires
        ins.len() + outs.len() + output.pubkeys_compressed@.len() <= i32::MAX,
        *old(s) == script_stats_over(h, d, ins, outs, sigs),
    ensures
        *final(s) == script_stats_over(h, d, ins, outs + output.pubkeys_compressed@, sigs),
{
    let pks = &output.pubkeys_compressed;
    proof {
        assert(outs + pks@.take(0) =~= outs);
    }
    for k in 0..pks.len()
        invariant
            ins.len() + outs.len() + pks@.len() <= i32::MAX,
            *s == script_stats_over(h, d, ins, outs + pks@.take(k as int), sigs),
    {
        proof {
            assert(outs + pks@.take(k + 1) =~= (outs + pks@.take(k as int)).push(pks@[k as int]));
        }
        add_output_pubkey(s, pks[k], Ghost(h), Ghost(d), Ghost(ins), Ghost(outs + pks@.take(k as int)), Ghost(sigs));
    }
    proof {
        assert(pks@.take(pks@.len() as int) =~= pks@);
    }
}

/// Counts the public keys and signatures of one analyzed transaction.
fn add_tx(
    s: &mut ScriptStats,
    info: &TxSummary,
    Ghost(tx): Ghost<crate::model::Tx>,
    Ghost(h): Ghost<i64>,
    Ghost(d): Ghost<String>,
    Ghost(ins): Ghost<Seq<bool>>,
    Ghost(outs): Ghost<Seq<bool>>,
    Ghost(sigs): Ghost<Seq<SignatureSummary>>,
)
    requires
        ins.len() + tx_input_pubkeys()((tx, *info)).len() + outs.len() + tx_output_pubkeys()(
            (tx, *info),
        ).len() <= i32::MAX,
        sigs.len() + tx_signatures()((tx, *info)).len() <= i32::MAX,
        forall|j: int, k: int|
            0 <= j < info.input_infos@.len() && 0 <= k < info.input_infos@[j].signatures@.len() && (
            #[trigger] info.input_infos@[j].signatures@[k]).signature == SignatureType::Ecdsa
                ==> info.input_infos@[j].signatures@[k].length >= 8,
        *old(s) == script_stats_over(h, d, ins, outs, sigs),
    ensures
        *final(s) == script_stats_over(
            h,
            d,
            ins + tx_input_pubkeys()((tx, *info)),
            outs + tx_output_pubkeys()((tx, *info)),
            sigs + tx_signatures()((tx, *info)),
        ),
{
    let inputs = &info.input_infos;
    let ghost all_in = flat_map(inputs@, input_pubkeys_of());
    let ghost all_sg = flat_map(inputs@, input_signatures_of());
    let ghost all_out = flat_map(info.output_infos@, output_pubkeys_of());
    proof {
        assert(inputs@.take(0) =~= Seq::<InputSummary>::empty());
        assert(ins + flat_map(inputs@.take(0), input_pubkeys_of()) =~= ins);
        assert(sigs + flat_map(inputs@.take(0), input_signatures_of()) =~= sigs);
    }
    for j in 0..inputs.len()
        invariant
            all_in == flat_map(inputs@, input_pubkeys_of()),
            all_sg == flat_map(inputs@, input_signatures_of()),
            ins.len() + all_in.len() + outs.len() + all_out.len() <= i32::MAX,
            sigs.len() + all_sg.len() <= i32::MAX,
            forall|j: int, k: int|
                0 <= j < inputs@.len() && 0 <= k < inputs@[j].signatures@.len() && (
                #[trigger] inputs@[j].signatures@[k]).signature == SignatureType::Ecdsa
                    ==> inputs@[j].signatures@[k].length >= 8,
            *s == script_stats_over(
                h,
                d,
                ins + flat_map(inputs@.take(j as int), input_pubkeys_of()),
                outs,
                sigs + flat_map(inputs@.take(j as int), input_signatures_of()),
            ),
    {
        proof {
            lemma_take_push(inputs@, j as int);
            lemma_flat_map_prefix_len(inputs@, j as int, input_pubkeys_of());
            lemma_flat_map_prefix_len(inputs@, j as int, input_signatures_of());
            crate::seqs::lemma_flat_map_push(inputs@.take(j as int), inputs@[j as int], input_pubkeys_of());
            crate::seqs::lemma_flat_map_push(inputs@.take(j as int), inputs@[j as int], input_signatures_of());
            assert(ins + flat_map(inputs@.take(j + 1), input_pubkeys_of()) =~= ins + flat_map(
                inputs@.take(j as int),
                input_pubkeys_of(),
            ) + inputs@[j as int].pubkeys_compressed@);
            assert(sigs + flat_map(inputs@.take(j + 1), input_signatures_of()) =~= sigs + flat_map(
                inputs@.take(j as int),
                input_signatures_of(),
            ) + inputs@[j as int].signatures@);
            assert forall|k: int|
                0 <= k < inputs@[j as int].signatures@.len() && (
                #[trigger] inputs@[j as int].signatures@[k]).signature == SignatureType::Ecdsa
                    implies inputs@[j as int].signatures@[k].length >= 8 by {}
        }
        add_input(
            s,
            &inputs[j],
            Ghost(h),
            Ghost(d),
            Ghost(ins + flat_map(inputs@.take(j as int), input_pubkeys_of())),
            Ghost(outs),
            Ghost(sigs + flat_map(inputs@.take(j as int), input_signatures_of())),
        );
    }
    let ghost ins1 = ins + all_in;
    let ghost sigs1 = sigs + all_sg;
    let outputs = &info.output_infos;
    proof {
        assert(inputs@.take(inputs@.len() as int) =~= inputs@);
        assert(outputs@.take(0) =~= Seq::<OutputSummary>::empty());
        assert(outs + flat_map(outputs@.take(0), output_pubkeys_of()) =~= outs);
    }
    for j in 0..outputs.len()
        invariant
            all_out == flat_map(outputs@, output_pubkeys_of()),
            ins1.len() + outs.len() + all_out.len() <= i32::MAX,
            *s == script_stats_over(
                h,
                d,
                ins1,
                outs + flat_map(outputs@.take(j as int), output_pubkeys_of()),
                sigs1,
            ),
    {
        proof {
            lemma_take_push(outputs@, j as int);
            lemma_flat_map_prefix_len(outputs@, j as int, output_pubkeys_of());
            crate::seqs::lemma_flat_map_push(outputs@.take(j as int), outputs@[j as int], output_pubkeys_of());
            assert(outs + flat_map(outputs@.take(j + 1), output_pubkeys_of()) =~= outs + flat_map(
                outputs@.take(j as int),
                output_pubkeys_of(),
            ) + outputs@[j as int].pubkeys_compressed@);
        }
        add_output(
            s,
            &outputs[j],
            Ghost(h),
            Ghost(d),
            Ghost(ins1),
            Ghost(outs + flat_map(outputs@.take(j as int), output_pubkeys_of())),
            Ghost(sigs1),
        );
    }
    proof {
        assert(outputs@.take(outputs@.len() as int) =~= outputs@);
    }
}

impl ScriptStats {
    /// Counts the public keys found in the inputs and outputs of a block by compression, and
    /// the signatures found in its inputs by scheme; ECDSA signatures also by DER encoding,
    /// length, low or high R and S values, and sighash flag. `tx_infos[i]` is the script
    /// analysis of `block.txdata[i]`; only as many transactions are counted as both hold.
    pub fn from_block(block: &Block, date: String, tx_infos: &[TxSummary]) -> (r: ScriptStats)
        requires
            script_stats_fits(*block, tx_infos@),
        ensures
            r == spec_script_stats(*block, date, tx_infos@),
    {
        let n = if block.txdata.len() <= tx_infos.len() {
            block.txdata.len()
        } else {
            tx_infos.len()
        };
        let ghost ps = tx_pairs(*block, tx_infos@);
        let ghost date0 = date;
        let mut s = ScriptStats {
            height: block.height,
            date,
            pubkeys: 0,
            pubkeys_compressed: 0,
            pubkeys_uncompressed: 0,
            pubkeys_compressed_inputs: 0,
            pubkeys_uncompressed_inputs: 0,
            pubkeys_compressed_outputs: 0,
            pubkeys_uncompressed_outputs: 0,
            sigs_schnorr: 0,
            sigs_ecdsa: 0,
            sigs_ecdsa_not_strict_der: 0,
            sigs_ecdsa_strict_der: 0,
            sigs_ecdsa_length_less_70byte: 0,
            sigs_ecdsa_length_70byte: 0,
            sigs_ecdsa_length_71byte: 0,
            sigs_ecdsa_length_72byte: 0,
            sigs_ecdsa_length_73byte: 0,
            sigs_ecdsa_length_74byte: 0,
            sigs_ecdsa_length_75byte_or_more: 0,
            sigs_ecdsa_low_r: 0,
            sigs_ecdsa_high_r: 0,
            sigs_ecdsa_low_s: 0,
            sigs_ecdsa_high_s: 0,
            sigs_ecdsa_high_rs: 0,
            sigs_ecdsa_low_rs: 0,
            sigs_ecdsa_low_r_high_s: 0,
            sigs_ecdsa_high_r_low_s: 0,
            sigs_sighashes: 0,
            sigs_sighash_all: 0,
            sigs_sighash_none: 0,
            sigs_sighash_single: 0,
            sigs_sighash_all_acp: 0,
            sigs_sighash_none_acp: 0,
            sigs_sighash_single_acp: 0,
        };
        proof {
            assert(ps.take(0) =~= Seq::<TxPair>::empty());
        }
        for t in 0..n
            invariant
                n == ps.len(),
                ps == tx_pairs(*block, tx_infos@),
                script_stats_fits(*block, tx_infos@),
                s == script_stats_over(
                    block.height,
                    date0,
                    flat_map(ps.take(t as int), tx_input_pubkeys()),
                    flat_map(ps.take(t as int), tx_output_pubkeys()),
                    flat_map(ps.take(t as int), tx_signatures()),
                ),
        {
            let info = &tx_infos[t];
            let ghost tx = block.txdata@[t as int];
            let ghost pre = ps.take(t as int);
            proof {
                lemma_take_push(ps, t as int);
                assert(ps[t as int] == (tx, *info));
                lemma_flat_map_prefix_len(ps, t as int, tx_input_pubkeys());
                lemma_flat_map_prefix_len(ps, t as int, tx_output_pubkeys());
                lemma_flat_map_prefix_len(ps, t as int, tx_signatures());
                crate::seqs::lemma_flat_map_push(pre, (tx, *info), tx_input_pubkeys());
                crate::seqs::lemma_flat_map_push(pre, (tx, *info), tx_output_pubkeys());
                crate::seqs::lemma_flat_map_push(pre, (tx, *info), tx_signatures());
                assert forall|j: int, k: int|
                    0 <= j < info.input_infos@.len() && 0 <= k
                        < info.input_infos@[j].signatures@.len() && (
                    #[trigger] info.input_infos@[j].signatures@[k]).signature
                        == SignatureType::Ecdsa implies info.input_infos@[j].signatures@[k].length
                        >= 8 by {
                    assert(ps[t as int].1.input_infos@[j].signatures@[k] == info.input_infos@[j].signatures@[k]);
                }
            }
            add_tx(
                &mut s,
                info,
                Ghost(tx),
                Ghost(block.height),
                Ghost(date0),
                Ghost(flat_map(pre, tx_input_pubkeys())),
                Ghost(flat_map(pre, tx_output_pubkeys())),
                Ghost(flat_map(pre, tx_signatures())),
            );
        }
        proof {
            assert(ps.take(n as int) =~= ps);
        }
        s
    }
}

/// The numbers of public keys and of signatures found in the inputs of an analysis, or
/// `None` when one of them exceeds `i32::MAX`.
fn input_key_and_sig_counts(info: &TxSummary) -> (r: Option<(u64, u64)>)
    ensures
        r matches Some((a, b)) ==> a == flat_map(info.input_infos@, input_pubkeys_of()).len()
            && b == flat_map(info.input_infos@, input_signatures_of()).len() && a <= i32::MAX && b
            <= i32::MAX,
        r is None ==> flat_map(info.input_infos@, input_pubkeys_of()).len() > i32::MAX || flat_map(
            info.input_infos@,
            input_signatures_of(),
        ).len() > i32::MAX,
{
    let ghost ins = info.input_infos@;
    let n = info.input_infos.len();
    let mut keys: u64 = 0;
    let mut sigs: u64 = 0;
    proof {
        assert(ins.take(0) =~= Seq::<InputSummary>::empty());
    }
    for j in 0..n
        invariant
            n == ins.len(),
            ins == info.input_infos@,
            keys == flat_map(ins.take(j as int), input_pubkeys_of()).len(),
            sigs == flat_map(ins.take(j as int), input_signatures_of()).len(),
            keys <= i32::MAX,
            sigs <= i32::MAX,
    {
        proof {
            lemma_take_push(ins, j as int);
            lemma_flat_map_push(ins.take(j as int), ins[j as int], input_pubkeys_of());
            lemma_flat_map_push(ins.take(j as int), ins[j as int], input_signatures_of());
            lemma_flat_map_prefix_len(ins, j as int, input_pubkeys_of());
            lemma_flat_map_prefix_len(ins, j as int, input_signatures_of());
        }
        let input = &info.input_infos[j];
        let a = input.pubkeys_compressed.len() as u64;
        let b = input.signatures.len() as u64;
        if a > i32::MAX as u64 - keys || b > i32::MAX as u64 - sigs {
            return None;
        }
        keys = keys + a;
        sigs = sigs + b;
    }
    proof {
        assert(ins.take(n as int) =~= ins);
    }
    Some((keys, sigs))
}

/// The number of public keys found in the outputs of an analysis, or `None` when it exceeds
/// `i32::MAX`.
fn output_key_count(info: &TxSummary) -> (r: Option<u64>)
    ensures
        r matches Some(a) ==> a == flat_map(info.output_infos@, output_pubkeys_of()).len() && a
            <= i32::MAX,
        r is None ==> flat_map(info.output_infos@, output_pubkeys_of()).len() > i32::MAX,
{
    let ghost outs = info.output_infos@;
    let n = info.output_infos.len();
    let mut keys: u64 = 0;
    proof {
        assert(outs.take(0) =~= Seq::<OutputSummary>::empty());
    }
    for j in 0..n
        invariant
            n == outs.len(),
            outs == info.output_infos@,
            keys == flat_map(outs.take(j as int), output_pubkeys_of()).len(),
            keys <= i32::MAX,
    {
        proof {
            lemma_take_push(outs, j as int);
            lemma_flat_map_push(outs.take(j as int), outs[j as int], output_pubkeys_of());
            lemma_flat_map_prefix_len(outs, j as int, output_pubkeys_of());
        }
        let a = info.output_infos[j].pubkeys_compressed.len() as u64;
        if a > i32::MAX as u64 - keys {
            return None;
        }
        keys = keys + a;
    }
    proof {
        assert(outs.take(n as int) =~= outs);
    }
    Some(keys)
}

/// Whether every ECDSA signature found in the inputs of an analysis is at least 8 bytes long.
fn ecdsa_lengths_ok(info: &TxSummary) -> (r: bool)
    ensures
        r == forall|j: int, k: int|
            0 <= j < info.input_infos@.len() && 0 <= k < info.input_infos@[j].signatures@.len() && (
            #[trigger] info.input_infos@[j].signatures@[k]).signature == SignatureType::Ecdsa
                ==> info.input_infos@[j].signatures@[k].length >= 8,
{
    let n = info.input_infos.len();
    for j in 0..n
        invariant
            n == info.input_infos@.len(),
            forall|q: int, k: int|
                0 <= q < j && 0 <= k < info.input_infos@[q].signatures@.len() && (
                #[trigger] info.input_infos@[q].signatures@[k]).signature == SignatureType::Ecdsa
                    ==> info.input_infos@[q].signatures@[k].length >= 8,
    {
        let sigs = &info.input_infos[j].signatures;
        let m = sigs.len();
        for k in 0..m
            invariant
                m == sigs@.len(),
                j < n,
                n == info.input_infos@.len(),
                sigs@ == info.input_infos@[j as int].signatures@,
                forall|q: int, k: int|
                    0 <= q < j && 0 <= k < info.input_infos@[q].signatures@.len() && (
                    #[trigger] info.input_infos@[q].signatures@[k]).signature == SignatureType::Ecdsa
                        ==> info.input_infos@[q].signatures@[k].length >= 8,
                forall|q: int|
                    0 <= q < k && (#[trigger] sigs@[q]).signature == SignatureType::Ecdsa ==> sigs@[q].length
                        >= 8,
        {
            let is_ecdsa = match sigs[k].signature {
                SignatureType::Ecdsa => true,
                SignatureType::Schnorr => false,
            };
            if is_ecdsa && sigs[k].length < 8 {
                assert(info.input_infos@[j as int].signatures@[k as int].signature == SignatureType::Ecdsa);
                return false;
            }
        }
    }
    true
}

impl ScriptStats {
    /// Whether `ScriptStats::from_block` can compute the statistics of these arguments.
    pub fn fits(block: &Block, tx_infos: &[TxSummary]) -> (r: bool)
        ensures
            r == script_stats_fits(*block, tx_infos@),
    {
        let n = if block.txdata.len() <= tx_infos.len() {
            block.txdata.len()
        } else {
            tx_infos.len()
        };
        let ghost ps = tx_pairs(*block, tx_infos@);
        let mut keys: u64 = 0;
        let mut sigs: u64 = 0;
        proof {
            assert(ps.take(0) =~= Seq::<TxPair>::empty());
        }
        for t in 0..n
            invariant
                n == ps.len(),
                n <= tx_infos@.len(),
                ps == tx_pairs(*block, tx_infos@),
                keys == flat_map(ps.take(t as int), tx_input_pubkeys()).len() + flat_map(
                    ps.take(t as int),
                    tx_output_pubkeys(),
                ).len(),
                sigs == flat_map(ps.take(t as int), tx_signatures()).len(),
                keys <= i32::MAX,
                sigs <= i32::MAX,
                forall|i: int, j: int, k: int|
                    0 <= i < t && 0 <= j < ps[i].1.input_infos@.len() && 0 <= k
                        < ps[i].1.input_infos@[j].signatures@.len() && (
                    #[trigger] ps[i].1.input_infos@[j].signatures@[k]).signature
                        == SignatureType::Ecdsa ==> ps[i].1.input_infos@[j].signatures@[k].length >= 8,
        {
            let info = &tx_infos[t];
            let ghost p = ps[t as int];
            proof {
                assert(p.1 == *info);
                lemma_take_push(ps, t as int);
                lemma_flat_map_push(ps.take(t as int), p, tx_input_pubkeys());
                lemma_flat_map_push(ps.take(t as int), p, tx_output_pubkeys());
                lemma_flat_map_push(ps.take(t as int), p, tx_signatures());
                lemma_flat_map_prefix_len(ps, t as int, tx_input_pubkeys());
                lemma_flat_map_prefix_len(ps, t as int, tx_output_pubkeys());
                lemma_flat_map_prefix_len(ps, t as int, tx_signatures());
            }
            let (a, b) = match input_key_and_sig_counts(info) {
                Some(c) => c,
                None => {
                    return false;
                },
            };
            let c = match output_key_count(info) {
                Some(c) => c,
                None => {
                    return false;
                },
            };
            if a + c > i32::MAX as u64 - keys || b > i32::MAX as u64 - sigs {
                return false;
            }
            keys = keys + a + c;
            sigs = sigs + b;
            if !ecdsa_lengths_ok(info) {
                return false;
            }
        }
        proof {
            assert(ps.take(n as int) =~= ps);
        }
        true
    }
}

} // verus!
