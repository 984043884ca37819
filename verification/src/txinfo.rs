//! What the statistics read of a transaction's script analysis, held as plain values:
//! the type of each input and output, their public keys and signatures.
//! The tx-level classifications are defined here over the inputs and outputs.

use vstd::prelude::*;

verus! {

/// The type of an input, by the script it spends.
#[derive(Clone, Copy, Debug, PartialEq, Eq, Structural)]
pub enum InputType {
    P2pk,
    P2pkLaxDer,
    P2pkh,
    P2pkhLaxDer,
    P2shP2wpkh,
    P2wpkh,
    P2ms,
    P2msLaxDer,
    P2sh,
    P2shP2wsh,
    P2wsh,
    P2trkp,
    P2trsp,
    P2a,
    Coinbase,
    CoinbaseWitness,
    Unknown,
}

/// The kind of data carried by an OP_RETURN output.
#[derive(Clone, Copy, Debug, PartialEq, Eq, Structural)]
pub enum OpReturnKind {
    Unspecified,
    WitnessCommitment,
    Omni,
    StacksBlockCommit,
    Len1Byte,
    Len20Byte,
    Len80Byte,
    Bip47PaymentCode,
    RSKBlock,
    CoreDao,
    ExSat,
    HathorNetwork,
    Runestone,
}

/// The type of an output, by its script.
#[derive(Clone, Copy, Debug, PartialEq, Eq, Structural)]
pub enum OutputType {
    P2pk,
    P2pkh,
    P2wpkhV0,
    P2ms,
    P2sh,
    P2wshV0,
    OpReturn(OpReturnKind),
    P2tr,
    P2a,
    Unknown,
}

/// The signature scheme of a signature.
#[derive(Clone, Copy, Debug, PartialEq, Eq, Structural)]
pub enum SignatureType {
    Ecdsa,
    Schnorr,
}

/// One signature found in an input.
#[derive(Clone, Copy, Debug)]
pub struct SignatureSummary {
    pub signature: SignatureType,
    /// Whether the signature is strictly DER encoded.
    pub der_valid: bool,
    /// The sighash flag byte.
    pub sig_hash: u8,
    /// Length of the encoded signature in bytes.
    pub length: usize,
    /// Whether the R value lies below the low-R threshold.
    pub low_r: bool,
    /// Whether the S value lies in the lower half of the curve order.
    pub low_s: bool,
}

#[derive(Clone, Debug)]
pub struct InputSummary {
    pub in_type: InputType,
    pub sequence: u32,
    /// Whether a multisig construct was detected in the input.
    pub multisig: bool,
    /// For each public key found in the input: whether it is compressed.
    pub pubkeys_compressed: Vec<bool>,
    pub signatures: Vec<SignatureSummary>,
}

#[derive(Clone, Debug)]
pub struct OutputSummary {
    pub out_type: OutputType,
    /// Value in satoshi.
    pub value: u64,
    /// For each public key found in the output: whether it is compressed.
    pub pubkeys_compressed: Vec<bool>,
}

#[derive(Clone, Debug)]
pub struct TxSummary {
    pub input_infos: Vec<InputSummary>,
    pub output_infos: Vec<OutputSummary>,
    /// Whether inputs and outputs are ordered as BIP-69 prescribes.
    pub is_bip69_compliant: bool,
}

/// Sequences below this value signal replaceability (BIP-125).
pub const SEQUENCE_MIN_NO_RBF: u32 = 0xFFFF_FFFE;

impl InputType {
    pub open spec fn spec_is_segwit(self) -> bool {
        self is P2shP2wpkh || self is P2shP2wsh || self is P2wpkh || self is P2wsh
            || self is P2trkp || self is P2trsp || self is P2a
    }

    pub open spec fn spec_is_taproot(self) -> bool {
        self is P2trkp || self is P2trsp
    }

    pub open spec fn spec_is_nested_segwit(self) -> bool {
        self is P2shP2wpkh || self is P2shP2wsh
    }

    pub open spec fn spec_is_native_segwit(self) -> bool {
        self is P2wpkh || self is P2wsh || self is P2trkp || self is P2trsp || self is P2a
    }

    pub open spec fn spec_is_legacy(self) -> bool {
        self is P2ms || self is P2msLaxDer || self is P2pk || self is P2pkLaxDer || self is P2pkh
            || self is P2pkhLaxDer || self is P2sh || self is Unknown
    }
}

impl InputSummary {
    /// Whether the input spends a SegWit output (nested, native, Taproot or anchor).
    pub fn is_spending_segwit(&self) -> (r: bool)
        ensures
            r == self.in_type.spec_is_segwit(),
    {
        match self.in_type {
            InputType::P2shP2wpkh | InputType::P2shP2wsh | InputType::P2wpkh | InputType::P2wsh
            | InputType::P2trkp | InputType::P2trsp | InputType::P2a => true,
            _ => false,
        }
    }

    /// Whether the input spends Taproot, by key path or script path.
    pub fn is_spending_taproot(&self) -> (r: bool)
        ensures
            r == self.in_type.spec_is_taproot(),
    {
        match self.in_type {
            InputType::P2trkp | InputType::P2trsp => true,
            _ => false,
        }
    }

    /// Whether the input spends P2SH-nested SegWit.
    pub fn is_spending_nested_segwit(&self) -> (r: bool)
        ensures
            r == self.in_type.spec_is_nested_segwit(),
    {
        match self.in_type {
            InputType::P2shP2wpkh | InputType::P2shP2wsh => true,
            _ => false,
        }
    }

    /// Whether the input spends native SegWit (P2WPKH, P2WSH, P2TR or P2A).
    pub fn is_spending_native_segwit(&self) -> (r: bool)
        ensures
            r == self.in_type.spec_is_native_segwit(),
    {
        match self.in_type {
            InputType::P2wpkh | InputType::P2wsh | InputType::P2trkp | InputType::P2trsp
            | InputType::P2a => true,
            _ => false,
        }
    }

    /// Whether the input spends a legacy output.
    pub fn is_spending_legacy(&self) -> (r: bool)
        ensures
            r == self.in_type.spec_is_legacy(),
    {
        match self.in_type {
            InputType::P2ms | InputType::P2msLaxDer | InputType::P2pk | InputType::P2pkLaxDer
            | InputType::P2pkh | InputType::P2pkhLaxDer | InputType::P2sh | InputType::Unknown => {
                true
            },
            _ => false,
        }
    }

    /// Whether the input spends a multisig construct.
    pub fn is_spending_multisig(&self) -> (r: bool)
        ensures
            r == self.multisig,
    {
        self.multisig
    }
}

impl OutputType {
    pub open spec fn spec_is_opreturn(self) -> bool {
        self is OpReturn
    }
}

impl OutputSummary {
    /// Whether the output is an OP_RETURN output, of any flavor.
    pub fn is_opreturn(&self) -> (r: bool)
        ensures
            r == self.out_type.spec_is_opreturn(),
    {
        match self.out_type {
            OutputType::OpReturn(_) => true,
            _ => false,
        }
    }
}

/// The number of outputs that are not OP_RETURN outputs.
pub open spec fn non_opreturn_outputs(outputs: Seq<OutputSummary>) -> nat {
    crate::seqs::count_where(outputs, |o: OutputSummary| !o.out_type.spec_is_opreturn())
}

/// The sum of the values of the outputs.
pub open spec fn output_value_total(outputs: Seq<OutputSummary>) -> int {
    crate::seqs::sum_of(outputs, |o: OutputSummary| o.value as int)
}

/// The total value of outputs is never negative.
pub proof fn lemma_output_value_total_nonneg(outputs: Seq<OutputSummary>)
    ensures
        0 <= output_value_total(outputs),
{
    crate::seqs::lemma_sum_of_nonneg(outputs, |o: OutputSummary| o.value as int);
}

impl TxSummary {
    /// Non-OP_RETURN outputs minus one change output when there are two or more of them.
    pub open spec fn spec_payments(self) -> nat {
        let n = non_opreturn_outputs(self.output_infos@);
        if n <= 1 {
            n
        } else {
            (n - 1) as nat
        }
    }

    pub open spec fn any_input(self, p: spec_fn(InputType) -> bool) -> bool {
        exists|i: int| 0 <= i < self.input_infos@.len() && p((#[trigger] self.input_infos@[i]).in_type)
    }

    pub open spec fn all_inputs(self, p: spec_fn(InputType) -> bool) -> bool {
        forall|i: int| 0 <= i < self.input_infos@.len() ==> p((#[trigger] self.input_infos@[i]).in_type)
    }

    pub open spec fn spec_signals_rbf(self) -> bool {
        forall|i: int|
            0 <= i < self.input_infos@.len() ==> #[trigger] self.input_infos@[i].sequence
                < SEQUENCE_MIN_NO_RBF
    }

    pub open spec fn spec_spending_segwit(self) -> bool {
        self.any_input(|t: InputType| t.spec_is_segwit())
    }

    pub open spec fn spec_spending_taproot(self) -> bool {
        self.any_input(|t: InputType| t.spec_is_taproot())
    }

    pub open spec fn spec_spending_nested_segwit(self) -> bool {
        self.any_input(|t: InputType| t.spec_is_nested_segwit())
    }

    pub open spec fn spec_spending_native_segwit(self) -> bool {
        self.any_input(|t: InputType| t.spec_is_native_segwit())
    }

    pub open spec fn spec_only_segwit(self) -> bool {
        self.all_inputs(|t: InputType| t.spec_is_segwit())
    }

    pub open spec fn spec_only_legacy(self) -> bool {
        self.all_inputs(|t: InputType| t.spec_is_legacy())
    }

    pub open spec fn spec_only_taproot(self) -> bool {
        self.all_inputs(|t: InputType| t.spec_is_taproot())
    }

    pub open spec fn spec_spending_segwit_and_legacy(self) -> bool {
        self.any_input(|t: InputType| t.spec_is_segwit()) && self.any_input(
            |t: InputType| t.spec_is_legacy(),
        )
    }

    /// The number of payments: non-OP_RETURN outputs less one change output when
    /// there is more than one of them.
    pub fn payments(&self) -> (r: u32)
        requires
            self.output_infos@.len() <= u32::MAX,
        ensures
            r == self.spec_payments(),
    {
        let ghost outs = self.output_infos@;
        let mut n: u32 = 0;
        let len = self.output_infos.len();
        for i in 0..len
            invariant
                len == outs.len(),
                outs == self.output_infos@,
                len <= u32::MAX,
                n == non_opreturn_outputs(outs.take(i as int)),
        {
            broadcast use crate::seqs::group_seqs;

            proof {
                crate::seqs::lemma_take_push(outs, i as int);
            }
            if !self.output_infos[i].is_opreturn() {
                n = n + 1;
            }
        }
        proof {
            assert(outs.take(len as int) =~= outs);
        }
        if n <= 1 {
            n
        } else {
            n - 1
        }
    }

    /// Whether every input signals replaceability.
    pub fn is_signaling_explicit_rbf_replicability(&self) -> (r: bool)
        ensures
            r == self.spec_signals_rbf(),
    {
        let len = self.input_infos.len();
        for i in 0..len
            invariant
                len == self.input_infos@.len(),
                forall|k: int| 0 <= k < i ==> #[trigger] self.input_infos@[k].sequence < SEQUENCE_MIN_NO_RBF,
        {
            if self.input_infos[i].sequence >= SEQUENCE_MIN_NO_RBF {
                return false;
            }
        }
        true
    }

    /// Whether at least one input spends SegWit.
    pub fn is_spending_segwit(&self) -> (r: bool)
        ensures
            r == self.spec_spending_segwit(),
    {
        let len = self.input_infos.len();
        for i in 0..len
            invariant
                len == self.input_infos@.len(),
                forall|k: int| 0 <= k < i ==> !(#[trigger] self.input_infos@[k]).in_type.spec_is_segwit(),
        {
            if self.input_infos[i].is_spending_segwit() {
                return true;
            }
        }
        false
    }

    /// Whether at least one input spends Taproot.
    pub fn is_spending_taproot(&self) -> (r: bool)
        ensures
            r == self.spec_spending_taproot(),
    {
        let len = self.input_infos.len();
        for i in 0..len
            invariant
                len == self.input_infos@.len(),
                forall|k: int| 0 <= k < i ==> !(#[trigger] self.input_infos@[k]).in_type.spec_is_taproot(),
        {
            if self.input_infos[i].is_spending_taproot() {
                return true;
            }
        }
        false
    }

    /// Whether at least one input spends nested SegWit.
    pub fn is_spending_nested_segwit(&self) -> (r: bool)
        ensures
            r == self.spec_spending_nested_segwit(),
    {
        let len = self.input_infos.len();
        for i in 0..len
            invariant
                len == self.input_infos@.len(),
                forall|k: int|
                    0 <= k < i ==> !(#[trigger] self.input_infos@[k]).in_type.spec_is_nested_segwit(),
        {
            if self.input_infos[i].is_spending_nested_segwit() {
                return true;
            }
        }
        false
    }

    /// Whether at least one input spends native SegWit.
    pub fn is_spending_native_segwit(&self) -> (r: bool)
        ensures
            r == self.spec_spending_native_segwit(),
    {
        let len = self.input_infos.len();
        for i in 0..len
            invariant
                len == self.input_infos@.len(),
                forall|k: int|
                    0 <= k < i ==> !(#[trigger] self.input_infos@[k]).in_type.spec_is_native_segwit(),
        {
            if self.input_infos[i].is_spending_native_segwit() {
                return true;
            }
        }
        false
    }

    /// Whether every input spends SegWit.
    pub fn is_only_spending_segwit(&self) -> (r: bool)
        ensures
            r == self.spec_only_segwit(),
    {
        let len = self.input_infos.len();
        for i in 0..len
            invariant
                len == self.input_infos@.len(),
                forall|k: int| 0 <= k < i ==> (#[trigger] self.input_infos@[k]).in_type.spec_is_segwit(),
        {
            if !self.input_infos[i].is_spending_segwit() {
                return false;
            }
        }
        true
    }

    /// Whether every input spends a legacy output.
    pub fn is_only_spending_legacy(&self) -> (r: bool)
        ensures
            r == self.spec_only_legacy(),
    {
        let len = self.input_infos.len();
        for i in 0..len
            invariant
                len == self.input_infos@.len(),
                forall|k: int| 0 <= k < i ==> (#[trigger] self.input_infos@[k]).in_type.spec_is_legacy(),
        {
            if !self.input_infos[i].is_spending_legacy() {
                return false;
            }
        }
        true
    }

    /// Whether every input spends Taproot.
    pub fn is_only_spending_taproot(&self) -> (r: bool)
        ensures
            r == self.spec_only_taproot(),
    {
        let len = self.input_infos.len();
        for i in 0..len
            invariant
                len == self.input_infos@.len(),
                forall|k: int| 0 <= k < i ==> (#[trigger] self.input_infos@[k]).in_type.spec_is_taproot(),
        {
            if !self.input_infos[i].is_spending_taproot() {
                return false;
            }
        }
        true
    }

    /// Whether the inputs spend both legacy and SegWit outputs.
    pub fn is_spending_segwit_and_legacy(&self) -> (r: bool)
        ensures
            r == self.spec_spending_segwit_and_legacy(),
    {
        let mut legacy = false;
        let mut segwit = false;
        let len = self.input_infos.len();
        for i in 0..len
            invariant
                len == self.input_infos@.len(),
                legacy == (exists|k: int|
                    0 <= k < i && (#[trigger] self.input_infos@[k]).in_type.spec_is_legacy()),
                segwit == (exists|k: int|
                    0 <= k < i && (#[trigger] self.input_infos@[k]).in_type.spec_is_segwit()),
        {
            legacy = legacy || self.input_infos[i].is_spending_legacy();
            segwit = segwit || self.input_infos[i].is_spending_segwit();
        }
        legacy && segwit
    }

    /// Whether inputs and outputs are sorted according to BIP-69.
    pub fn is_bip69_compliant(&self) -> (r: bool)
        ensures
            r == self.is_bip69_compliant,
    {
        self.is_bip69_compliant
    }

    /// The sum of all output values in satoshi.
    pub fn output_value_sum(&self) -> (r: u64)
        requires
            output_value_total(self.output_infos@) <= u64::MAX,
        ensures
            r == output_value_total(self.output_infos@),
    {
        let ghost outs = self.output_infos@;
        let mut sum: u64 = 0;
        let len = self.output_infos.len();
        for i in 0..len
            invariant
                len == outs.len(),
                outs == self.output_infos@,
                output_value_total(outs) <= u64::MAX,
                sum == output_value_total(outs.take(i as int)),
        {
            broadcast use crate::seqs::group_seqs;

            proof {
                crate::seqs::lemma_take_push(outs, i as int);
                crate::seqs::lemma_sum_of_bounds(
                    outs.skip(i as int),
                    |o: OutputSummary| o.value as int,
                    u64::MAX as int,
                );
                crate::seqs::lemma_sum_of_concat(
                    outs.take(i + 1),
                    outs.skip(i + 1),
                    |o: OutputSummary| o.value as int,
                );
                crate::seqs::lemma_sum_of_bounds(
                    outs.skip(i + 1),
                    |o: OutputSummary| o.value as int,
                    u64::MAX as int,
                );
                assert(outs.take(i + 1) + outs.skip(i + 1) =~= outs);
            }
            sum = sum + self.output_infos[i].value;
        }
        proof {
            assert(outs.take(len as int) =~= outs);
        }
        sum
    }
}

} // verus!
