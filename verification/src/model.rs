//! The block as a node's REST interface delivers it, held as plain values.

use vstd::prelude::*;

verus! {

/// Absolute lock times below this value are block heights, the others UNIX timestamps.
pub const LOCK_TIME_THRESHOLD: u32 = 500_000_000;

/// The sequence number that disables the absolute lock time of an input.
pub const SEQUENCE_FINAL: u32 = 0xFFFF_FFFF;

/// A transaction id, as four 64-bit words of its 32 bytes (in byte order).
#[derive(Clone, Copy, Debug, PartialEq, Eq, Structural)]
pub struct Txid(pub u64, pub u64, pub u64, pub u64);

/// The type of the script a spent output was locked with, as far as the statistics need it.
#[derive(Clone, Copy, Debug, PartialEq, Eq, Structural)]
pub enum ScriptPubkeyType {
    /// A pay-to-anchor output script.
    Anchor,
    /// Any other output script.
    Other,
}

/// The output spent by a (non-coinbase) input.
#[derive(Clone, Copy, Debug)]
pub struct Prevout {
    /// Height of the block that created the output.
    pub height: i64,
    /// Value of the output in satoshi.
    pub value: u64,
    /// The type of the output's script.
    pub script_type: ScriptPubkeyType,
}

/// What an input spends.
#[derive(Clone, Copy, Debug)]
pub enum InputData {
    Coinbase,
    NonCoinbase { txid: Txid, vout: u32, prevout: Prevout },
}

#[derive(Clone, Copy, Debug)]
pub struct TxIn {
    pub data: InputData,
    pub sequence: u32,
}

#[derive(Clone, Debug)]
pub struct TxOut {
    /// Value in satoshi.
    pub value: u64,
    /// Index of the output in its transaction.
    pub n: u32,
    /// The raw output script.
    pub script: Vec<u8>,
}

#[derive(Clone, Debug)]
pub struct Tx {
    pub txid: Txid,
    /// The consensus serialization of the transaction.
    pub raw: Vec<u8>,
    pub version: i32,
    /// Size in bytes.
    pub size: u64,
    /// Virtual size in vbytes.
    pub vsize: u32,
    /// Fee in satoshi; absent for the coinbase transaction.
    pub fee: Option<u64>,
    /// The absolute lock time field.
    pub lock_time: u32,
    pub input: Vec<TxIn>,
    pub output: Vec<TxOut>,
}

#[derive(Clone, Debug)]
pub struct Block {
    pub height: i64,
    /// Header timestamp (UNIX seconds).
    pub time: u32,
    pub version: i32,
    pub nonce: u32,
    /// The compact difficulty target as an unprefixed hex string.
    pub bits: String,
    pub size: i64,
    pub stripped_size: i64,
    /// Weight in weight units.
    pub weight: u64,
    /// The transactions; the first is the coinbase transaction.
    pub txdata: Vec<Tx>,
}

/// An absolute lock time is a block height when it is below the threshold.
pub open spec fn spec_is_block_height(lock_time: u32) -> bool {
    lock_time < LOCK_TIME_THRESHOLD
}

/// An absolute lock time is a timestamp when it is at or above the threshold.
pub open spec fn spec_is_block_time(lock_time: u32) -> bool {
    lock_time >= LOCK_TIME_THRESHOLD
}

/// An input enables the absolute lock time of its transaction unless its sequence is final.
pub open spec fn spec_enables_absolute_lock_time(sequence: u32) -> bool {
    sequence != SEQUENCE_FINAL
}

/// Whether a lock time value is a block height (and not a timestamp).
pub fn lock_time_is_block_height(lock_time: u32) -> (r: bool)
    ensures
        r == spec_is_block_height(lock_time),
{
    lock_time < LOCK_TIME_THRESHOLD
}

/// Whether a lock time value is a timestamp.
pub fn lock_time_is_block_time(lock_time: u32) -> (r: bool)
    ensures
        r == spec_is_block_time(lock_time),
{
    lock_time >= LOCK_TIME_THRESHOLD
}

/// Whether a sequence number enables the transaction's absolute lock time.
pub fn enables_absolute_lock_time(sequence: u32) -> (r: bool)
    ensures
        r == spec_enables_absolute_lock_time(sequence),
{
    sequence != SEQUENCE_FINAL
}

impl TxIn {
    pub open spec fn is_non_coinbase(self) -> bool {
        self.data is NonCoinbase
    }
}

impl Tx {
    /// The lock time is enforced when at least one input enables it.
    pub open spec fn spec_is_lock_time_enabled(self) -> bool {
        exists|i: int|
            0 <= i < self.input@.len() && spec_enables_absolute_lock_time(
                #[trigger] self.input@[i].sequence,
            )
    }

    /// Whether the lock time of this transaction is enforced.
    pub fn is_lock_time_enabled(&self) -> (r: bool)
        ensures
            r == self.spec_is_lock_time_enabled(),
    {
        let n = self.input.len();
        for i in 0..n
            invariant
                n == self.input@.len(),
                forall|k: int|
                    0 <= k < i ==> !spec_enables_absolute_lock_time(#[trigger] self.input@[k].sequence),
        {
            if enables_absolute_lock_time(self.input[i].sequence) {
                return true;
            }
        }
        false
    }
}

impl Block {
    /// The ids of all transactions of the block.
    pub open spec fn txids(self) -> Seq<Txid> {
        self.txdata@.map_values(|t: Tx| t.txid)
    }

    /// Whether a transaction of this block has the given id.
    pub fn has_txid(&self, txid: Txid) -> (r: bool)
        ensures
            r == self.txids().contains(txid),
    {
        let n = self.txdata.len();
        for j in 0..n
            invariant
                n == self.txdata@.len(),
                forall|k: int| 0 <= k < j ==> self.txids()[k] != txid,
        {
            if self.txdata[j].txid == txid {
                assert(self.txids()[j as int] == txid);
                return true;
            }
        }
        false
    }
}

} // verus!
