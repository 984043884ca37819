//! Output-level statistics of a block.

use vstd::prelude::*;
use crate::input_stats::P2A_DUST_THRESHOLD;
use crate::model::{Block, Tx};
use crate::outside::{
    lemma_pushed_total_nonneg, push_len, pushed_total, script_pushes, script_pushes_of,
};
use crate::seqs::{
    count_where, lemma_sum_of_concat, lemma_sum_of_le, lemma_sum_of_nonneg, lemma_sum_of_prefix_le,
    lemma_take_push, sum_of,
};
use crate::tx_stats::{tx_pairs, TxPair};
use crate::txinfo::{OpReturnKind, OutputSummary, OutputType, TxSummary};

verus! {

broadcast use crate::seqs::group_seqs;

/// The OP_RETURN opcode.
pub const OP_RETURN: u8 = 0x6a;

/// Output counts and amounts of a block.
#[derive(Clone, Debug)]
pub struct OutputStats {
    pub height: i64,
    pub date: String,
    pub outputs_p2pk: i32,
    pub outputs_p2pkh: i32,
    pub outputs_p2wpkh: i32,
    pub outputs_p2ms: i32,
    pub outputs_p2sh: i32,
    pub outputs_p2wsh: i32,
    pub outputs_opreturn: i32,
    pub outputs_p2tr: i32,
    pub outputs_p2a: i32,
    /// Pay-to-anchor outputs below the dust threshold.
    pub outputs_p2a_dust: i32,
    pub outputs_unknown: i32,
    pub outputs_p2pk_amount: i64,
    pub outputs_p2pkh_amount: i64,
    pub outputs_p2wpkh_amount: i64,
    pub outputs_p2ms_amount: i64,
    pub outputs_p2sh_amount: i64,
    pub outputs_p2wsh_amount: i64,
    pub outputs_p2tr_amount: i64,
    pub outputs_p2a_amount: i64,
    pub outputs_opreturn_amount: i64,
    pub outputs_unknown_amount: i64,
    pub outputs_opreturn_omnilayer: i32,
    pub outputs_opreturn_stacks_block_commit: i32,
    pub outputs_opreturn_bip47_payment_code: i32,
    pub outputs_opreturn_coinbase_rsk: i32,
    pub outputs_opreturn_coinbase_coredao: i32,
    pub outputs_opreturn_coinbase_exsat: i32,
    pub outputs_opreturn_coinbase_hathor: i32,
    pub outputs_opreturn_coinbase_witness_commitment: i32,
    pub outputs_opreturn_runestone: i32,
    /// Bytes of data pushed by OP_RETURN outputs.
    pub outputs_opreturn_bytes: i64,
    /// Outputs of the coinbase transaction.
    pub outputs_coinbase: i32,
    pub outputs_coinbase_p2pk: i32,
    pub outputs_coinbase_p2pkh: i32,
    pub outputs_coinbase_p2wpkh: i32,
    pub outputs_coinbase_p2ms: i32,
    pub outputs_coinbase_p2sh: i32,
    pub outputs_coinbase_p2wsh: i32,
    pub outputs_coinbase_p2tr: i32,
    pub outputs_coinbase_opreturn: i32,
    pub outputs_coinbase_unknown: i32,
}

/// Whether a script starts with OP_RETURN.
pub open spec fn spec_is_op_return(script: Seq<u8>) -> bool {
    script.len() > 0 && script[0] == OP_RETURN
}

/// The number of payload bytes an OP_RETURN script pushes (opcodes excluded); zero for any
/// other script.
pub open spec fn opreturn_data_size(script: Seq<u8>) -> int {
    if spec_is_op_return(script) {
        pushed_total(script_pushes_of(script))
    } else {
        0
    }
}

/// The number of bytes some script instructions push (see `script_pushes_of`): the lengths
/// of the data pushes added up, opcodes counting nothing.
pub fn pushed_data_size(pushes: &[Option<usize>]) -> (r: usize)
    requires
        pushed_total(pushes@) <= usize::MAX,
    ensures
        r == pushed_total(pushes@),
{
    let ghost f = push_len();
    proof {
        assert forall|p: Option<usize>| 0 <= #[trigger] f(p) by {}
    }
    let mut total: usize = 0;
    let n = pushes.len();
    for i in 0..n
        invariant
            n == pushes@.len(),
            pushed_total(pushes@) <= usize::MAX,
            f == push_len(),
            forall|p: Option<usize>| 0 <= #[trigger] f(p),
            total == sum_of(pushes@.take(i as int), f),
    {
        proof {
            lemma_take_push(pushes@, i as int);
            lemma_sum_of_concat(pushes@.take(i + 1), pushes@.skip(i + 1), f);
            assert(pushes@.take(i + 1) + pushes@.skip(i + 1) =~= pushes@);
            lemma_sum_of_nonneg(pushes@.skip(i + 1), f);
            assert(sum_of(pushes@.take(i + 1), f) == total + f(pushes@[i as int]));
        }
        match pushes[i] {
            Some(len) => {
                assert(f(pushes@[i as int]) == len as int);
                total = total + len;
            },
            None => {},
        }
    }
    proof {
        assert(pushes@.take(n as int) =~= pushes@);
    }
    total
}

/// Returns the total size of the data pushed in an OP_RETURN script: only the pushed payload
/// bytes count, not the opcodes.
pub fn calculate_opreturn_data_size(script: &[u8]) -> (r: usize)
    ensures
        r == opreturn_data_size(script@),
        r <= script@.len(),
{
    if !(script.len() > 0 && script[0] == OP_RETURN) {
        return 0;
    }
    let pushes = script_pushes(script);
    pushed_data_size(pushes.as_slice())
}

/// An analyzed output, whether it belongs to the coinbase transaction, and its script.
pub type OutputRecord = (OutputSummary, bool, Seq<u8>);

/// The output records of one transaction pair.
pub open spec fn tx_output_records(p: TxPair, coinbase: bool) -> Seq<OutputRecord> {
    Seq::new(
        p.1.output_infos@.len(),
        |k: int|
            (
                p.1.output_infos@[k],
                coinbase,
                if k < p.0.output@.len() {
                    p.0.output@[k].script@
                } else {
                    Seq::empty()
                },
            ),
    )
}

/// The output records of a sequence of transaction pairs; the first pair is the coinbase.
pub open spec fn output_records(ps: Seq<TxPair>) -> Seq<OutputRecord>
    decreases ps.len(),
{
    if ps.len() == 0 {
        Seq::empty()
    } else {
        output_records(ps.drop_last()) + tx_output_records(ps.last(), ps.len() == 1)
    }
}

pub open spec fn out_is(t: OutputType) -> spec_fn(OutputRecord) -> bool {
    |r: OutputRecord| r.0.out_type == t
}

pub open spec fn out_coinbase_is(t: OutputType) -> spec_fn(OutputRecord) -> bool {
    |r: OutputRecord| r.1 && r.0.out_type == t
}

pub open spec fn out_value_if(t: OutputType) -> spec_fn(OutputRecord) -> int {
    |r: OutputRecord| if r.0.out_type == t {
        r.0.value as int
    } else {
        0
    }
}

pub open spec fn out_is_opreturn() -> spec_fn(OutputRecord) -> bool {
    |r: OutputRecord| r.0.out_type is OpReturn
}

pub open spec fn out_coinbase_opreturn() -> spec_fn(OutputRecord) -> bool {
    |r: OutputRecord| r.1 && r.0.out_type is OpReturn
}

pub open spec fn out_opreturn_value() -> spec_fn(OutputRecord) -> int {
    |r: OutputRecord| if r.0.out_type is OpReturn {
        r.0.value as int
    } else {
        0
    }
}

pub open spec fn out_opreturn_bytes() -> spec_fn(OutputRecord) -> int {
    |r: OutputRecord| if r.0.out_type is OpReturn {
        opreturn_data_size(r.2)
    } else {
        0
    }
}

pub open spec fn out_flavor(f: OpReturnKind) -> spec_fn(OutputRecord) -> bool {
    |r: OutputRecord| r.0.out_type == OutputType::OpReturn(f)
}

pub open spec fn out_coinbase_flavor(f: OpReturnKind) -> spec_fn(OutputRecord) -> bool {
    |r: OutputRecord| r.1 && r.0.out_type == OutputType::OpReturn(f)
}

pub open spec fn out_p2a_dust() -> spec_fn(OutputRecord) -> bool {
    |r: OutputRecord| r.0.out_type == OutputType::P2a && r.0.value < P2A_DUST_THRESHOLD
}

/// The output statistics over a sequence of output records; `coinbase_outputs` is the number
/// of outputs of the coinbase transaction.
pub open spec fn output_stats_over(
    height: i64,
    date: String,
    coinbase_outputs: int,
    rs: Seq<OutputRecord>,
) -> OutputStats {
    OutputStats {
        height,
        date,
        outputs_p2pk: count_where(rs, out_is(OutputType::P2pk)) as i32,
        outputs_p2pkh: count_where(rs, out_is(OutputType::P2pkh)) as i32,
        outputs_p2wpkh: count_where(rs, out_is(OutputType::P2wpkhV0)) as i32,
        outputs_p2ms: count_where(rs, out_is(OutputType::P2ms)) as i32,
        outputs_p2sh: count_where(rs, out_is(OutputType::P2sh)) as i32,
        outputs_p2wsh: count_where(rs, out_is(OutputType::P2wshV0)) as i32,
        outputs_opreturn: count_where(rs, out_is_opreturn()) as i32,
        outputs_p2tr: count_where(rs, out_is(OutputType::P2tr)) as i32,
        outputs_p2a: count_where(rs, out_is(OutputType::P2a)) as i32,
        outputs_p2a_dust: count_where(rs, out_p2a_dust()) as i32,
        outputs_unknown: count_where(rs, out_is(OutputType::Unknown)) as i32,
        outputs_p2pk_amount: sum_of(rs, out_value_if(OutputType::P2pk)) as i64,
        outputs_p2pkh_amount: sum_of(rs, out_value_if(OutputType::P2pkh)) as i64,
        outputs_p2wpkh_amount: sum_of(rs, out_value_if(OutputType::P2wpkhV0)) as i64,
        outputs_p2ms_amount: sum_of(rs, out_value_if(OutputType::P2ms)) as i64,
        outputs_p2sh_amount: sum_of(rs, out_value_if(OutputType::P2sh)) as i64,
        outputs_p2wsh_amount: sum_of(rs, out_value_if(OutputType::P2wshV0)) as i64,
        outputs_p2tr_amount: sum_of(rs, out_value_if(OutputType::P2tr)) as i64,
        outputs_p2a_amount: sum_of(rs, out_value_if(OutputType::P2a)) as i64,
        outputs_opreturn_amount: sum_of(rs, out_opreturn_value()) as i64,
        outputs_unknown_amount: sum_of(rs, out_value_if(OutputType::Unknown)) as i64,
        outputs_opreturn_omnilayer: count_where(rs, out_flavor(OpReturnKind::Omni)) as i32,
        outputs_opreturn_stacks_block_commit: count_where(
            rs,
            out_flavor(OpReturnKind::StacksBlockCommit),
        ) as i32,
        outputs_opreturn_bip47_payment_code: count_where(
            rs,
            out_flavor(OpReturnKind::Bip47PaymentCode),
        ) as i32,
        outputs_opreturn_coinbase_rsk: count_where(rs, out_coinbase_flavor(OpReturnKind::RSKBlock))
            as i32,
        outputs_opreturn_coinbase_coredao: count_where(
            rs,
            out_coinbase_flavor(OpReturnKind::CoreDao),
        ) as i32,
        outputs_opreturn_coinbase_exsat: count_where(rs, out_coinbase_flavor(OpReturnKind::ExSat))
            as i32,
        outputs_opreturn_coinbase_hathor: count_where(
            rs,
            out_coinbase_flavor(OpReturnKind::HathorNetwork),
        ) as i32,
        outputs_opreturn_coinbase_witness_commitment: count_where(
            rs,
            out_coinbase_flavor(OpReturnKind::WitnessCommitment),
        ) as i32,
        outputs_opreturn_runestone: count_where(rs, out_flavor(OpReturnKind::Runestone)) as i32,
        outputs_opreturn_bytes: sum_of(rs, out_opreturn_bytes()) as i64,
        outputs_coinbase: coinbase_outputs as i32,
        outputs_coinbase_p2pk: count_where(rs, out_coinbase_is(OutputType::P2pk)) as i32,
        outputs_coinbase_p2pkh: count_where(rs, out_coinbase_is(OutputType::P2pkh)) as i32,
        outputs_coinbase_p2wpkh: count_where(rs, out_coinbase_is(OutputType::P2wpkhV0)) as i32,
        outputs_coinbase_p2ms: count_where(rs, out_coinbase_is(OutputType::P2ms)) as i32,
        outputs_coinbase_p2sh: count_where(rs, out_coinbase_is(OutputType::P2sh)) as i32,
        outputs_coinbase_p2wsh: count_where(rs, out_coinbase_is(OutputType::P2wshV0)) as i32,
        outputs_coinbase_p2tr: count_where(rs, out_coinbase_is(OutputType::P2tr)) as i32,
        outputs_coinbase_opreturn: count_where(rs, out_coinbase_opreturn()) as i32,
        outputs_coinbase_unknown: count_where(rs, out_coinbase_is(OutputType::Unknown)) as i32,
    }
}

/// The number of outputs of the coinbase transaction (the first of the pairs).
pub open spec fn coinbase_output_count(ps: Seq<TxPair>) -> int {
    if ps.len() > 0 {
        ps[0].0.output@.len() as int
    } else {
        0
    }
}

/// The output statistics of a block.
pub open spec fn spec_output_stats(block: Block, date: String, infos: Seq<TxSummary>) -> OutputStats {
    let ps = tx_pairs(block, infos);
    output_stats_over(block.height, date, coinbase_output_count(ps), output_records(ps))
}

/// The value of an output record.
pub open spec fn out_value() -> spec_fn(OutputRecord) -> int {
    |r: OutputRecord| r.0.value as int
}

/// The script length of an OP_RETURN output record.
pub open spec fn out_opreturn_script_len() -> spec_fn(OutputRecord) -> int {
    |r: OutputRecord| if r.0.out_type is OpReturn {
        r.2.len() as int
    } else {
        0
    }
}

/// What `OutputStats::from_block` needs of its arguments: every OP_RETURN output analyzed has
/// a script, the counts fit in `i32`, and the values and OP_RETURN script bytes fit in `i64`.
pub open spec fn output_stats_fits(block: Block, infos: Seq<TxSummary>) -> bool {
    let ps = tx_pairs(block, infos);
    let rs = output_records(ps);
    &&& rs.len() <= i32::MAX
    &&& coinbase_output_count(ps) <= i32::MAX
    &&& sum_of(rs, out_value()) <= i64::MAX
    &&& sum_of(rs, out_opreturn_script_len()) <= i64::MAX
    &&& forall|i: int, k: int|
        0 <= i < ps.len() && 0 <= k < ps[i].1.output_infos@.len() && (
        #[trigger] ps[i].1.output_infos@[k]).out_type is OpReturn ==> k < ps[i].0.output@.len()
}

/// The output record of output `k` of a transaction pair.
pub open spec fn output_record(p: TxPair, coinbase: bool, k: int) -> OutputRecord {
    tx_output_records(p, coinbase)[k]
}

/// Counts one analyzed output by its type, adds its value, and for an OP_RETURN output its
/// flavor and payload size.
#[verifier::rlimit(40)]
fn add_output(
    s: &mut OutputStats,
    tx: &Tx,
    info: &TxSummary,
    k: usize,
    is_coinbase: bool,
    Ghost(pre): Ghost<Seq<OutputRecord>>,
    Ghost(h): Ghost<i64>,
    Ghost(d): Ghost<String>,
    Ghost(cb): Ghost<int>,
)
    requires
        k < info.output_infos@.len(),
        info.output_infos@[k as int].out_type is OpReturn ==> k < tx.output@.len(),
        pre.len() < i32::MAX,
        *old(s) == output_stats_over(h, d, cb, pre),
        sum_of(pre, out_opreturn_bytes()) <= sum_of(pre, out_opreturn_script_len()),
        sum_of(pre.push(output_record((*tx, *info), is_coinbase, k as int)), out_value())
            <= i64::MAX,
        sum_of(
            pre.push(output_record((*tx, *info), is_coinbase, k as int)),
            out_opreturn_script_len(),
        ) <= i64::MAX,
    ensures
        *final(s) == output_stats_over(
            h,
            d,
            cb,
            pre.push(output_record((*tx, *info), is_coinbase, k as int)),
        ),
        sum_of(pre.push(output_record((*tx, *info), is_coinbase, k as int)), out_opreturn_bytes())
            <= sum_of(
            pre.push(output_record((*tx, *info), is_coinbase, k as int)),
            out_opreturn_script_len(),
        ),
{
    let ghost rec = output_record((*tx, *info), is_coinbase, k as int);
    let ghost next = pre.push(rec);
    let output = &info.output_infos[k];
    proof {
        assert(rec.0 == *output);
        assert forall|r: OutputRecord| 0 <= #[trigger] out_value()(r) by {}
        assert forall|r: OutputRecord| 0 <= #[trigger] out_opreturn_script_len()(r) by {}
        lemma_sum_of_nonneg(pre, out_value());
        lemma_sum_of_nonneg(pre, out_opreturn_script_len());
        assert forall|t: OutputType, r: OutputRecord| #[trigger] out_value_if(t)(r) <= out_value()(r) by {}
        assert forall|r: OutputRecord| #[trigger] out_opreturn_value()(r) <= out_value()(r) by {}
        assert forall|t: OutputType, r: OutputRecord| 0 <= #[trigger] out_value_if(t)(r) by {}
        assert forall|r: OutputRecord| 0 <= #[trigger] out_opreturn_value()(r) by {}
        lemma_sum_of_le(next, out_value_if(OutputType::P2pk), out_value());
        lemma_sum_of_le(next, out_value_if(OutputType::P2pkh), out_value());
        lemma_sum_of_le(next, out_value_if(OutputType::P2wpkhV0), out_value());
        lemma_sum_of_le(next, out_value_if(OutputType::P2ms), out_value());
        lemma_sum_of_le(next, out_value_if(OutputType::P2sh), out_value());
        lemma_sum_of_le(next, out_value_if(OutputType::P2wshV0), out_value());
        lemma_sum_of_le(next, out_value_if(OutputType::P2tr), out_value());
        lemma_sum_of_le(next, out_value_if(OutputType::P2a), out_value());
        lemma_sum_of_le(next, out_value_if(OutputType::Unknown), out_value());
        lemma_sum_of_le(next, out_opreturn_value(), out_value());
        lemma_sum_of_nonneg(next, out_value_if(OutputType::P2pk));
        lemma_sum_of_nonneg(next, out_value_if(OutputType::P2pkh));
        lemma_sum_of_nonneg(next, out_value_if(OutputType::P2wpkhV0));
        lemma_sum_of_nonneg(next, out_value_if(OutputType::P2ms));
        lemma_sum_of_nonneg(next, out_value_if(OutputType::P2sh));
        lemma_sum_of_nonneg(next, out_value_if(OutputType::P2wshV0));
        lemma_sum_of_nonneg(next, out_value_if(OutputType::P2tr));
        lemma_sum_of_nonneg(next, out_value_if(OutputType::P2a));
        lemma_sum_of_nonneg(next, out_value_if(OutputType::Unknown));
        lemma_sum_of_nonneg(next, out_opreturn_value());
    }
    proof {
        if !(rec.0.out_type is OpReturn) {
            assert(out_opreturn_bytes()(rec) == 0);
            assert(out_opreturn_script_len()(rec) == 0);
        }
    }
    let value = output.value;
    match output.out_type {
        OutputType::P2pk => {
            s.outputs_p2pk = s.outputs_p2pk + 1;
            s.outputs_p2pk_amount = s.outputs_p2pk_amount + value as i64;
            if is_coinbase {
                s.outputs_coinbase_p2pk = s.outputs_coinbase_p2pk + 1;
            }
        },
        OutputType::P2pkh => {
            s.outputs_p2pkh = s.outputs_p2pkh + 1;
            s.outputs_p2pkh_amount = s.outputs_p2pkh_amount + value as i64;
            if is_coinbase {
                s.outputs_coinbase_p2pkh = s.outputs_coinbase_p2pkh + 1;
            }
        },
        OutputType::P2wpkhV0 => {
            s.outputs_p2wpkh = s.outputs_p2wpkh + 1;
            s.outputs_p2wpkh_amount = s.outputs_p2wpkh_amount + value as i64;
            if is_coinbase {
                s.outputs_coinbase_p2wpkh = s.outputs_coinbase_p2wpkh + 1;
            }
        },
        OutputType::P2ms => {
            s.outputs_p2ms = s.outputs_p2ms + 1;
            s.outputs_p2ms_amount = s.outputs_p2ms_amount + value as i64;
            if is_coinbase {
                s.outputs_coinbase_p2ms = s.outputs_coinbase_p2ms + 1;
            }
        },
        OutputType::P2sh => {
            s.outputs_p2sh = s.outputs_p2sh + 1;
            s.outputs_p2sh_amount = s.outputs_p2sh_amount + value as i64;
            if is_coinbase {
                s.outputs_coinbase_p2sh = s.outputs_coinbase_p2sh + 1;
            }
        },
        OutputType::P2wshV0 => {
            s.outputs_p2wsh = s.outputs_p2wsh + 1;
            s.outputs_p2wsh_amount = s.outputs_p2wsh_amount + value as i64;
            if is_coinbase {
                s.outputs_coinbase_p2wsh = s.outputs_coinbase_p2wsh + 1;
            }
        },
        OutputType::P2tr => {
            s.outputs_p2tr = s.outputs_p2tr + 1;
            s.outputs_p2tr_amount = s.outputs_p2tr_amount + value as i64;
            if is_coinbase {
                s.outputs_coinbase_p2tr = s.outputs_coinbase_p2tr + 1;
            }
        },
        OutputType::P2a => {
            s.outputs_p2a = s.outputs_p2a + 1;
            s.outputs_p2a_amount = s.outputs_p2a_amount + value as i64;
            if value < P2A_DUST_THRESHOLD {
                s.outputs_p2a_dust = s.outputs_p2a_dust + 1;
            }
        },
        OutputType::OpReturn(flavor) => {
            s.outputs_opreturn = s.outputs_opreturn + 1;
            s.outputs_opreturn_amount = s.outputs_opreturn_amount + value as i64;
            if is_coinbase {
                s.outputs_coinbase_opreturn = s.outputs_coinbase_opreturn + 1;
            }
            let data_size = calculate_opreturn_data_size(tx.output[k].script.as_slice());
            proof {
                assert(rec.2 == tx.output@[k as int].script@);
                assert forall|r: OutputRecord| 0 <= #[trigger] out_opreturn_bytes()(r) by {
                    lemma_pushed_total_nonneg(script_pushes_of(r.2));
                }
                lemma_sum_of_nonneg(pre, out_opreturn_bytes());
            }
            proof {
                assert(out_opreturn_bytes()(rec) == data_size);
                assert(out_opreturn_script_len()(rec) == rec.2.len());
                assert(sum_of(next, out_opreturn_bytes()) == sum_of(pre, out_opreturn_bytes())
                    + data_size);
                assert(sum_of(next, out_opreturn_script_len()) == sum_of(
                    pre,
                    out_opreturn_script_len(),
                ) + rec.2.len());
            }
            s.outputs_opreturn_bytes = s.outputs_opreturn_bytes + data_size as i64;
            match flavor {
                OpReturnKind::Runestone => {
                    s.outputs_opreturn_runestone = s.outputs_opreturn_runestone + 1;
                },
                OpReturnKind::Omni => {
                    s.outputs_opreturn_omnilayer = s.outputs_opreturn_omnilayer + 1;
                },
                OpReturnKind::StacksBlockCommit => {
                    s.outputs_opreturn_stacks_block_commit = s.outputs_opreturn_stacks_block_commit
                        + 1;
                },
                OpReturnKind::Bip47PaymentCode => {
                    s.outputs_opreturn_bip47_payment_code = s.outputs_opreturn_bip47_payment_code
                        + 1;
                },
                OpReturnKind::RSKBlock => {
                    if is_coinbase {
                        s.outputs_opreturn_coinbase_rsk = s.outputs_opreturn_coinbase_rsk + 1;
                    }
                },
                OpReturnKind::CoreDao => {
                    if is_coinbase {
                        s.outputs_opreturn_coinbase_coredao = s.outputs_opreturn_coinbase_coredao
                            + 1;
                    }
                },
                OpReturnKind::ExSat => {
                    if is_coinbase {
                        s.outputs_opreturn_coinbase_exsat = s.outputs_opreturn_coinbase_exsat + 1;
                    }
                },
                OpReturnKind::HathorNetwork => {
                    if is_coinbase {
                        s.outputs_opreturn_coinbase_hathor = s.outputs_opreturn_coinbase_hathor
                            + 1;
                    }
                },
                OpReturnKind::WitnessCommitment => {
                    if is_coinbase {
                        s.outputs_opreturn_coinbase_witness_commitment =
                        s.outputs_opreturn_coinbase_witness_commitment + 1;
                    }
                },
                // these flavors have no column of their own
                OpReturnKind::Len1Byte | OpReturnKind::Len20Byte | OpReturnKind::Len80Byte
                | OpReturnKind::Unspecified => {},
            }
        },
        OutputType::Unknown => {
            s.outputs_unknown = s.outputs_unknown + 1;
            s.outputs_unknown_amount = s.outputs_unknown_amount + value as i64;
            if is_coinbase {
                s.outputs_coinbase_unknown = s.outputs_coinbase_unknown + 1;
            }
        },
    }
}

/// The output records of a prefix of the pairs are a prefix of the output records of all pairs.
proof fn lemma_output_records_prefix(ps: Seq<TxPair>, i: int)
    requires
        0 <= i <= ps.len(),
    ensures
        output_records(ps.take(i)).len() <= output_records(ps).len(),
        output_records(ps.take(i)) =~= output_records(ps).take(output_records(ps.take(i)).len() as int),
    decreases ps.len() - i,
{
    if i == ps.len() {
        assert(ps.take(i) =~= ps);
    } else {
        lemma_output_records_prefix(ps.drop_last(), i);
        assert(ps.drop_last().take(i) =~= ps.take(i));
    }
}

impl OutputStats {
    /// Counts the outputs of a block by type, with their amounts; the outputs of the coinbase
    /// transaction (the first) by type; OP_RETURN outputs by flavor and their payload bytes; and
    /// pay-to-anchor dust. `tx_infos[i]` is the script analysis of `block.txdata[i]`; only as
    /// many transactions are counted as both hold.
    pub fn from_block(block: &Block, date: String, tx_infos: &[TxSummary]) -> (r: OutputStats)
        requires
            output_stats_fits(*block, tx_infos@),
        ensures
            r == spec_output_stats(*block, date, tx_infos@),
    {
        let height = block.height;
        let n = if block.txdata.len() <= tx_infos.len() {
            block.txdata.len()
        } else {
            tx_infos.len()
        };
        let ghost ps = tx_pairs(*block, tx_infos@);
        let ghost full = output_records(ps);
        let ghost date0 = date;
        let mut s = OutputStats {
            height,
            date,
            outputs_p2pk: 0,
            outputs_p2pkh: 0,
            outputs_p2wpkh: 0,
            outputs_p2ms: 0,
            outputs_p2sh: 0,
            outputs_p2wsh: 0,
            outputs_opreturn: 0,
            outputs_p2tr: 0,
            outputs_p2a: 0,
            outputs_p2a_dust: 0,
            outputs_unknown: 0,
            outputs_p2pk_amount: 0,
            outputs_p2pkh_amount: 0,
            outputs_p2wpkh_amount: 0,
            outputs_p2ms_amount: 0,
            outputs_p2sh_amount: 0,
            outputs_p2wsh_amount: 0,
            outputs_p2tr_amount: 0,
            outputs_p2a_amount: 0,
            outputs_opreturn_amount: 0,
            outputs_unknown_amount: 0,
            outputs_opreturn_omnilayer: 0,
            outputs_opreturn_stacks_block_commit: 0,
            outputs_opreturn_bip47_payment_code: 0,
            outputs_opreturn_coinbase_rsk: 0,
            outputs_opreturn_coinbase_coredao: 0,
            outputs_opreturn_coinbase_exsat: 0,
            outputs_opreturn_coinbase_hathor: 0,
            outputs_opreturn_coinbase_witness_commitment: 0,
            outputs_opreturn_runestone: 0,
            outputs_opreturn_bytes: 0,
            outputs_coinbase: 0,
            outputs_coinbase_p2pk: 0,
            outputs_coinbase_p2pkh: 0,
            outputs_coinbase_p2wpkh: 0,
            outputs_coinbase_p2ms: 0,
            outputs_coinbase_p2sh: 0,
            outputs_coinbase_p2wsh: 0,
            outputs_coinbase_p2tr: 0,
            outputs_coinbase_opreturn: 0,
            outputs_coinbase_unknown: 0,
        };
        proof {
            assert(ps.take(0) =~= Seq::<TxPair>::empty());
            assert forall|r: OutputRecord| 0 <= #[trigger] out_value()(r) by {}
            assert forall|r: OutputRecord| 0 <= #[trigger] out_opreturn_script_len()(r) by {}
        }
        let mut is_coinbase = true;
        for t in 0..n
            invariant
                n == ps.len(),
                ps == tx_pairs(*block, tx_infos@),
                full == output_records(ps),
                height == block.height,
                output_stats_fits(*block, tx_infos@),
                is_coinbase == (t == 0),
                forall|r: OutputRecord| 0 <= #[trigger] out_value()(r),
                forall|r: OutputRecord| 0 <= #[trigger] out_opreturn_script_len()(r),
                s == output_stats_over(
                    height,
                    date0,
                    coinbase_output_count(ps.take(t as int)),
                    output_records(ps.take(t as int)),
                ),
                sum_of(output_records(ps.take(t as int)), out_opreturn_bytes()) <= sum_of(
                    output_records(ps.take(t as int)),
                    out_opreturn_script_len(),
                ),
        {
            let tx = &block.txdata[t];
            let info = &tx_infos[t];
            let ghost pre = ps.take(t as int);
            let ghost next = ps.take(t + 1);
            let ghost recs0 = output_records(pre);
            let ghost tx_recs = tx_output_records((*tx, *info), is_coinbase);
            let ghost cb = coinbase_output_count(next);
            proof {
                lemma_take_push(ps, t as int);
                assert(ps[t as int] == (*tx, *info));
                assert(next.drop_last() =~= pre);
                assert(next.last() == (*tx, *info));
                assert(output_records(next) == recs0 + tx_recs);
                lemma_output_records_prefix(ps, t + 1);
                assert(next[0] == ps[0]);
            }
            if is_coinbase {
                s.outputs_coinbase = s.outputs_coinbase + tx.output.len() as i32;
            }
            proof {
                assert(tx_recs.take(0) =~= Seq::<OutputRecord>::empty());
                assert(recs0 + tx_recs.take(0) =~= recs0);
            }
            let m = info.output_infos.len();
            for k in 0..m
                invariant
                    m == info.output_infos@.len(),
                    m == tx_recs.len(),
                    tx_recs == tx_output_records((*tx, *info), is_coinbase),
                    output_records(next) == recs0 + tx_recs,
                    output_records(next) =~= full.take(output_records(next).len() as int),
                    output_records(next).len() <= full.len(),
                    full.len() <= i32::MAX,
                    sum_of(full, out_value()) <= i64::MAX,
                    sum_of(full, out_opreturn_script_len()) <= i64::MAX,
                    forall|r: OutputRecord| 0 <= #[trigger] out_value()(r),
                    forall|r: OutputRecord| 0 <= #[trigger] out_opreturn_script_len()(r),
                    forall|q: int|
                        0 <= q < m && (#[trigger] info.output_infos@[q]).out_type is OpReturn ==> q
                            < tx.output@.len(),
                    s == output_stats_over(height, date0, cb, recs0 + tx_recs.take(k as int)),
                    sum_of(recs0 + tx_recs.take(k as int), out_opreturn_bytes()) <= sum_of(
                        recs0 + tx_recs.take(k as int),
                        out_opreturn_script_len(),
                    ),
            {
                let ghost cur = recs0 + tx_recs.take(k as int);
                proof {
                    assert(recs0 + tx_recs.take(k + 1) =~= cur.push(
                        output_record((*tx, *info), is_coinbase, k as int),
                    ));
                    assert(cur.push(output_record((*tx, *info), is_coinbase, k as int))
                        =~= full.take(cur.len() as int + 1));
                    lemma_sum_of_prefix_le(full, cur.len() as int + 1, out_value());
                    lemma_sum_of_prefix_le(full, cur.len() as int + 1, out_opreturn_script_len());
                }
                add_output(
                    &mut s,
                    tx,
                    info,
                    k,
                    is_coinbase,
                    Ghost(cur),
                    Ghost(height),
                    Ghost(date0),
                    Ghost(cb),
                );
            }
            proof {
                assert(tx_recs.take(m as int) =~= tx_recs);
            }
            is_coinbase = false;
        }
        proof {
            assert(ps.take(n as int) =~= ps);
        }
        s
    }
}

impl OutputStats {
    /// Whether `OutputStats::from_block` can compute the statistics of these arguments.
    pub fn fits(block: &Block, tx_infos: &[TxSummary]) -> (r: bool)
        ensures
            r == output_stats_fits(*block, tx_infos@),
    {
        let n = if block.txdata.len() <= tx_infos.len() {
            block.txdata.len()
        } else {
            tx_infos.len()
        };
        let ghost ps = tx_pairs(*block, tx_infos@);
        let ghost full = output_records(ps);
        if n > 0 && block.txdata[0].output.len() > i32::MAX as usize {
            return false;
        }
        let mut count: u64 = 0;
        let mut value: u64 = 0;
        let mut bytes: u64 = 0;
        proof {
            assert(ps.take(0) =~= Seq::<TxPair>::empty());
            assert forall|r: OutputRecord| 0 <= #[trigger] out_value()(r) by {}
            assert forall|r: OutputRecord| 0 <= #[trigger] out_opreturn_script_len()(r) by {}
        }
        for t in 0..n
            invariant
                n == ps.len(),
                n <= block.txdata@.len(),
                n <= tx_infos@.len(),
                ps == tx_pairs(*block, tx_infos@),
                full == output_records(ps),
                coinbase_output_count(ps) <= i32::MAX,
                forall|r: OutputRecord| 0 <= #[trigger] out_value()(r),
                forall|r: OutputRecord| 0 <= #[trigger] out_opreturn_script_len()(r),
                count == output_records(ps.take(t as int)).len(),
                value == sum_of(output_records(ps.take(t as int)), out_value()),
                bytes == sum_of(output_records(ps.take(t as int)), out_opreturn_script_len()),
                count <= i32::MAX,
                value <= i64::MAX,
                bytes <= i64::MAX,
                forall|i: int, k: int|
                    0 <= i < t && 0 <= k < ps[i].1.output_infos@.len() && (
                    #[trigger] ps[i].1.output_infos@[k]).out_type is OpReturn ==> k
                        < ps[i].0.output@.len(),
        {
            let tx = &block.txdata[t];
            let info = &tx_infos[t];
            let coinbase = t == 0;
            let ghost pre = ps.take(t as int);
            let ghost next = ps.take(t + 1);
            let ghost recs0 = output_records(pre);
            let ghost tx_recs = tx_output_records((*tx, *info), coinbase);
            proof {
                lemma_take_push(ps, t as int);
                assert(ps[t as int] == (*tx, *info));
                assert(next.drop_last() =~= pre);
                assert(next.last() == (*tx, *info));
                assert(output_records(next) == recs0 + tx_recs);
                lemma_output_records_prefix(ps, t + 1);
                assert(tx_recs.take(0) =~= Seq::<OutputRecord>::empty());
                assert(recs0 + tx_recs.take(0) =~= recs0);
            }
            let m = info.output_infos.len();
            for k in 0..m
                invariant
                    m == info.output_infos@.len(),
                    m == tx_recs.len(),
                    t < ps.len(),
                    ps[t as int] == (*tx, *info),
                    ps == tx_pairs(*block, tx_infos@),
                    full == output_records(ps),
                    tx_recs == tx_output_records((*tx, *info), coinbase),
                    output_records(next) == recs0 + tx_recs,
                    output_records(next) =~= full.take(output_records(next).len() as int),
                    output_records(next).len() <= full.len(),
                    forall|r: OutputRecord| 0 <= #[trigger] out_value()(r),
                    forall|r: OutputRecord| 0 <= #[trigger] out_opreturn_script_len()(r),
                    count == (recs0 + tx_recs.take(k as int)).len(),
                    value == sum_of(recs0 + tx_recs.take(k as int), out_value()),
                    bytes == sum_of(recs0 + tx_recs.take(k as int), out_opreturn_script_len()),
                    count <= i32::MAX,
                    value <= i64::MAX,
                    bytes <= i64::MAX,
                    forall|q: int|
                        0 <= q < k && (#[trigger] info.output_infos@[q]).out_type is OpReturn ==> q
                            < tx.output@.len(),
            {
                let ghost cur = recs0 + tx_recs.take(k as int);
                proof {
                    assert(recs0 + tx_recs.take(k + 1) =~= cur.push(tx_recs[k as int]));
                    assert(cur.push(tx_recs[k as int]) =~= full.take(cur.len() as int + 1));
                    lemma_sum_of_prefix_le(full, cur.len() as int + 1, out_value());
                    lemma_sum_of_prefix_le(full, cur.len() as int + 1, out_opreturn_script_len());
                }
                let out = &info.output_infos[k];
                let is_opreturn = match out.out_type {
                    OutputType::OpReturn(_) => true,
                    _ => false,
                };
                if is_opreturn && k >= tx.output.len() {
                    assert(ps[t as int].1.output_infos@[k as int].out_type is OpReturn);
                    return false;
                }
                if count >= i32::MAX as u64 {
                    return false;
                }
                count = count + 1;
                if out.value > i64::MAX as u64 - value {
                    return false;
                }
                value = value + out.value;
                if is_opreturn {
                    let len = tx.output[k].script.len() as u64;
                    if len > i64::MAX as u64 - bytes {
                        return false;
                    }
                    bytes = bytes + len;
                }
            }
            proof {
                assert(tx_recs.take(m as int) =~= tx_recs);
            }
        }
        proof {
            assert(ps.take(n as int) =~= ps);
        }
        true
    }
}

} // verus!
