use mainnet_observer_backend::block_stats::{bip54_locktime, BlockStats, STATS_VERSION};
use mainnet_observer_backend::feerate_stats::{fee_samples, feerate_band_of, FeerateStats};
use mainnet_observer_backend::input_stats::InputStats;
use mainnet_observer_backend::model::{
    Block, InputData, Prevout, ScriptPubkeyType, Tx, TxIn, TxOut, Txid,
};
use mainnet_observer_backend::output_stats::{calculate_opreturn_data_size, pushed_data_size, OutputStats};
use bitcoin::hex::FromHex;
use mainnet_observer_backend::outside::KnownPools;
use mainnet_observer_backend::pools::mainnet_pool_names;
use mainnet_observer_backend::script_stats::ScriptStats;
use mainnet_observer_backend::stats::{stats_fit_check, Stats, StatsError};
use mainnet_observer_backend::tx_stats::{dust_outputs, TxStats};
use mainnet_observer_backend::txinfo::{
    InputSummary, InputType, OpReturnKind, OutputSummary, OutputType, SignatureSummary,
    SignatureType, TxSummary,
};

const HEIGHT: i64 = 105;
const GENESIS_TIME: u32 = 1231006505;

fn genesis_coinbase_raw() -> Vec<u8> {
    let genesis = bitcoin::blockdata::constants::genesis_block(bitcoin::Network::Bitcoin);
    bitcoin::consensus::serialize(&genesis.txdata[0])
}

fn sig(length: usize, low_r: bool) -> SignatureSummary {
    SignatureSummary {
        signature: SignatureType::Ecdsa,
        der_valid: true,
        sig_hash: 0x01,
        length,
        low_r,
        low_s: true,
    }
}

fn input(in_type: InputType, sequence: u32, pubkeys: Vec<bool>, sigs: Vec<SignatureSummary>) -> InputSummary {
    InputSummary { in_type, sequence, multisig: false, pubkeys_compressed: pubkeys, signatures: sigs }
}

fn output(out_type: OutputType, value: u64, pubkeys: Vec<bool>) -> OutputSummary {
    OutputSummary { out_type, value, pubkeys_compressed: pubkeys }
}

/// A coinbase, a version 2 transaction paying 1000 sat for 141 vbytes with an OP_RETURN
/// output, and a zero-fee version 3 transaction spending the second one.
fn sample_block() -> (Block, Vec<TxSummary>) {
    let t1 = Txid(0, 0, 0, 2);
    let coinbase = Tx {
        txid: Txid(0, 0, 0, 1),
        raw: genesis_coinbase_raw(),
        version: 1,
        size: 204,
        vsize: 204,
        fee: None,
        lock_time: 0,
        input: vec![TxIn { data: InputData::Coinbase, sequence: 0xffff_ffff }],
        output: vec![TxOut { value: 5_000_000_000, n: 0, script: vec![0x41; 67] }],
    };
    let mut p2wpkh = vec![0x00, 0x14];
    p2wpkh.extend_from_slice(&[7u8; 20]);
    let tx1 = Tx {
        txid: t1,
        raw: vec![],
        version: 2,
        size: 222,
        vsize: 141,
        fee: Some(1000),
        lock_time: 104,
        input: vec![TxIn {
            data: InputData::NonCoinbase {
                txid: Txid(9, 9, 9, 9),
                vout: 0,
                prevout: Prevout { height: 100, value: 100_000, script_type: ScriptPubkeyType::Other },
            },
            sequence: 0xffff_fffd,
        }],
        output: vec![
            TxOut { value: 60_000, n: 0, script: p2wpkh },
            TxOut { value: 0, n: 1, script: vec![0x6a, 0x04, 1, 2, 3, 4] },
        ],
    };
    let mut p2tr = vec![0x51, 0x20];
    p2tr.extend_from_slice(&[9u8; 32]);
    let tx2 = Tx {
        txid: Txid(0, 0, 0, 3),
        raw: vec![],
        version: 3,
        size: 150,
        vsize: 100,
        fee: Some(0),
        lock_time: 0,
        input: vec![TxIn {
            data: InputData::NonCoinbase {
                txid: t1,
                vout: 0,
                prevout: Prevout { height: HEIGHT, value: 60_000, script_type: ScriptPubkeyType::Other },
            },
            sequence: 0xffff_ffff,
        }],
        output: vec![TxOut { value: 59_000, n: 0, script: p2tr }],
    };
    let block = Block {
        height: HEIGHT,
        time: GENESIS_TIME,
        version: 0x2000_0010,
        nonce: 2083236893,
        bits: "1d00ffff".to_string(),
        size: 600,
        stripped_size: 500,
        weight: 1780,
        txdata: vec![coinbase, tx1, tx2],
    };
    let infos = vec![
        TxSummary {
            input_infos: vec![input(InputType::Coinbase, 0xffff_ffff, vec![], vec![])],
            output_infos: vec![output(OutputType::P2pk, 5_000_000_000, vec![false])],
            is_bip69_compliant: true,
        },
        TxSummary {
            input_infos: vec![input(InputType::P2wpkh, 0xffff_fffd, vec![true], vec![sig(71, true)])],
            output_infos: vec![
                output(OutputType::P2wpkhV0, 60_000, vec![]),
                output(OutputType::OpReturn(OpReturnKind::Unspecified), 0, vec![]),
            ],
            is_bip69_compliant: false,
        },
        TxSummary {
            input_infos: vec![input(InputType::P2wpkh, 0xffff_ffff, vec![true], vec![sig(72, false)])],
            output_infos: vec![output(OutputType::P2tr, 59_000, vec![])],
            is_bip69_compliant: true,
        },
    ];
    (block, infos)
}

#[test]
fn tx_stats_of_sample_block() {
    let (block, infos) = sample_block();
    assert!(TxStats::fits(&block, &infos));
    let s = TxStats::from_block(&block, "2009-01-03".to_string(), &infos);
    assert_eq!(s.height, HEIGHT);
    assert_eq!(s.date, "2009-01-03");
    assert_eq!((s.tx_version_1, s.tx_version_2, s.tx_version_3, s.tx_version_unknown), (1, 1, 1, 0));
    assert_eq!(s.tx_output_amount, 5_000_119_000);
    assert_eq!(s.tx_spending_segwit, 2);
    assert_eq!(s.tx_spending_only_segwit, 2);
    assert_eq!(s.tx_spending_only_legacy, 0);
    assert_eq!(s.tx_spending_only_taproot, 0);
    assert_eq!(s.tx_spending_segwit_and_legacy, 0);
    assert_eq!(s.tx_spending_nested_segwit, 0);
    assert_eq!(s.tx_spending_native_segwit, 2);
    assert_eq!(s.tx_spending_taproot, 0);
    assert_eq!(s.tx_bip69_compliant, 2);
    assert_eq!(s.tx_signaling_explicit_rbf, 1);
    assert_eq!(s.tx_1_input, 3);
    assert_eq!(s.tx_1_output, 2);
    assert_eq!(s.tx_1_input_1_output, 2);
    assert_eq!(s.tx_1_input_2_output, 1);
    assert_eq!(s.tx_spending_newly_created_utxos, 1);
    assert_eq!(s.tx_spending_ephemeral_dust, 0);
    assert_eq!(s.tx_timelock_height, 1);
    assert_eq!(s.tx_timelock_timestamp, 0);
    assert_eq!(s.tx_timelock_not_enforced, 0);
    assert_eq!(s.tx_timelock_too_high, 0);
    // the four version counts partition the transactions
    assert_eq!(s.tx_version_1 + s.tx_version_2 + s.tx_version_3 + s.tx_version_unknown, 3);
}

#[test]
fn tx_stats_timelocks() {
    let (mut block, infos) = sample_block();
    // a height lock above the block height, not enforced (final sequence)
    block.txdata[2].lock_time = 200;
    // a timestamp lock
    block.txdata[0].lock_time = 600_000_000;
    let s = TxStats::from_block(&block, String::new(), &infos);
    assert_eq!(s.tx_timelock_height, 2);
    assert_eq!(s.tx_timelock_timestamp, 1);
    assert_eq!(s.tx_timelock_not_enforced, 2);
    assert_eq!(s.tx_timelock_too_high, 1);
}

#[test]
fn input_stats_of_sample_block() {
    let (block, infos) = sample_block();
    assert!(InputStats::fits(&block, &infos));
    let s = InputStats::from_block(&block, "d".to_string(), &infos);
    assert_eq!(s.inputs_spending_legacy, 0);
    assert_eq!(s.inputs_spending_segwit, 2);
    assert_eq!(s.inputs_spending_native_segwit, 2);
    assert_eq!(s.inputs_spending_nested_segwit, 0);
    assert_eq!(s.inputs_spending_taproot, 0);
    assert_eq!(s.inputs_p2wpkh, 2);
    assert_eq!(s.inputs_coinbase, 1);
    assert_eq!(s.inputs_witness_coinbase, 0);
    assert_eq!(s.inputs_p2a, 0);
    assert_eq!(s.inputs_unknown, 0);
    assert_eq!(s.inputs_spend_in_same_block, 1);
    assert_eq!(s.inputs_spending_prev_1_blocks, 1);
    assert_eq!(s.inputs_spending_prev_6_blocks, 2);
    assert_eq!(s.inputs_spending_prev_144_blocks, 2);
    assert_eq!(s.inputs_spending_prev_2016_blocks, 2);
}

#[test]
fn input_stats_anchor_dust() {
    let (mut block, mut infos) = sample_block();
    block.txdata[1].input[0].data = InputData::NonCoinbase {
        txid: Txid(9, 9, 9, 9),
        vout: 0,
        prevout: Prevout { height: 100, value: 0, script_type: ScriptPubkeyType::Anchor },
    };
    infos[1].input_infos[0].in_type = InputType::P2a;
    let s = InputStats::from_block(&block, String::new(), &infos);
    assert_eq!(s.inputs_p2a, 1);
    assert_eq!(s.inputs_p2a_dust, 1);
    assert!(s.inputs_p2a_dust <= s.inputs_p2a);
}

#[test]
fn output_stats_of_sample_block() {
    let (block, infos) = sample_block();
    assert!(OutputStats::fits(&block, &infos));
    let s = OutputStats::from_block(&block, "d".to_string(), &infos);
    assert_eq!(s.outputs_p2pk, 1);
    assert_eq!(s.outputs_p2wpkh, 1);
    assert_eq!(s.outputs_opreturn, 1);
    assert_eq!(s.outputs_p2tr, 1);
    assert_eq!(s.outputs_unknown, 0);
    assert_eq!(s.outputs_p2pk_amount, 5_000_000_000);
    assert_eq!(s.outputs_p2wpkh_amount, 60_000);
    assert_eq!(s.outputs_p2tr_amount, 59_000);
    assert_eq!(s.outputs_opreturn_amount, 0);
    assert_eq!(s.outputs_opreturn_bytes, 4);
    assert_eq!(s.outputs_coinbase, 1);
    assert_eq!(s.outputs_coinbase_p2pk, 1);
    assert_eq!(s.outputs_coinbase_opreturn, 0);
    // every output has exactly one type
    let total = s.outputs_p2pk + s.outputs_p2pkh + s.outputs_p2wpkh + s.outputs_p2ms + s.outputs_p2sh
        + s.outputs_p2wsh + s.outputs_opreturn + s.outputs_p2tr + s.outputs_p2a + s.outputs_unknown;
    assert_eq!(total, 4);
}

#[test]
fn output_stats_refuses_opreturn_without_script() {
    let (mut block, infos) = sample_block();
    block.txdata[1].output.pop();
    assert!(!OutputStats::fits(&block, &infos));
}

#[test]
fn opreturn_data_size() {
    assert_eq!(calculate_opreturn_data_size(&[0x6a, 0x04, 1, 2, 3, 4]), 4);
    assert_eq!(calculate_opreturn_data_size(&[0x6a]), 0);
    assert_eq!(calculate_opreturn_data_size(&[0x6a, 0x01, 0xff, 0x02, 1, 2]), 3);
    // a push running past the end of the script is not data
    assert_eq!(calculate_opreturn_data_size(&[0x6a, 0x05, 1, 2]), 0);
}

#[test]
fn script_stats_of_sample_block() {
    let (block, infos) = sample_block();
    assert!(ScriptStats::fits(&block, &infos));
    let s = ScriptStats::from_block(&block, "d".to_string(), &infos);
    assert_eq!(s.pubkeys, 3);
    assert_eq!(s.pubkeys_compressed, 2);
    assert_eq!(s.pubkeys_uncompressed, 1);
    assert_eq!(s.pubkeys_compressed_inputs, 2);
    assert_eq!(s.pubkeys_uncompressed_outputs, 1);
    assert_eq!(s.sigs_schnorr, 0);
    assert_eq!(s.sigs_ecdsa, 2);
    assert_eq!(s.sigs_ecdsa_strict_der, 2);
    assert_eq!(s.sigs_ecdsa_not_strict_der, 0);
    assert_eq!(s.sigs_ecdsa_length_71byte, 1);
    assert_eq!(s.sigs_ecdsa_length_72byte, 1);
    assert_eq!(s.sigs_ecdsa_low_r, 1);
    assert_eq!(s.sigs_ecdsa_high_r, 1);
    assert_eq!(s.sigs_ecdsa_low_s, 2);
    assert_eq!(s.sigs_ecdsa_low_rs, 1);
    assert_eq!(s.sigs_ecdsa_high_r_low_s, 1);
    assert_eq!(s.sigs_sighashes, 2);
    assert_eq!(s.sigs_sighash_all, 2);
    assert_eq!(s.pubkeys, s.pubkeys_compressed + s.pubkeys_uncompressed);
    let buckets = s.sigs_ecdsa_length_less_70byte + s.sigs_ecdsa_length_70byte + s.sigs_ecdsa_length_71byte
        + s.sigs_ecdsa_length_72byte + s.sigs_ecdsa_length_73byte + s.sigs_ecdsa_length_74byte
        + s.sigs_ecdsa_length_75byte_or_more;
    assert_eq!(buckets, s.sigs_ecdsa);
}

#[test]
fn script_stats_refuses_short_ecdsa_signature() {
    let (block, mut infos) = sample_block();
    infos[1].input_infos[0].signatures[0].length = 7;
    assert!(!ScriptStats::fits(&block, &infos));
}

#[test]
fn feerate_stats_of_sample_block() {
    let (block, infos) = sample_block();
    assert!(FeerateStats::fits(&block, &infos));
    let s = FeerateStats::from_block(&block, "d".to_string(), &infos);
    assert_eq!((s.fee_min, s.fee_max, s.fee_sum), (0, 1000, 1000));
    assert_eq!((s.size_min, s.size_max, s.size_sum), (150, 222, 372));
    assert_eq!(s.zero_fee_tx, 1);
    assert_eq!(s.below_1_sat_vbyte, 1);
    assert_eq!(s.feerate_5_10_sat_vbyte, 1);
    let bands = s.below_1_sat_vbyte + s.feerate_1_2_sat_vbyte + s.feerate_2_5_sat_vbyte
        + s.feerate_5_10_sat_vbyte + s.feerate_10_25_sat_vbyte + s.feerate_25_50_sat_vbyte
        + s.feerate_50_100_sat_vbyte + s.feerate_100_250_sat_vbyte + s.feerate_250_500_sat_vbyte
        + s.feerate_500_1000_sat_vbyte + s.feerate_1000_plus_sat_vbyte;
    assert_eq!(bands, 2);
    assert_eq!(fee_samples(&block), vec![(1000, 222, 141), (0, 150, 100)]);
}

#[test]
fn feerate_bands() {
    assert_eq!(feerate_band_of(0, 100), 0);
    assert_eq!(feerate_band_of(99, 100), 0);
    assert_eq!(feerate_band_of(100, 100), 1);
    assert_eq!(feerate_band_of(199, 100), 1);
    assert_eq!(feerate_band_of(200, 100), 2);
    assert_eq!(feerate_band_of(500, 100), 3);
    assert_eq!(feerate_band_of(1000, 100), 4);
    assert_eq!(feerate_band_of(2500, 100), 5);
    assert_eq!(feerate_band_of(5000, 100), 6);
    assert_eq!(feerate_band_of(10_000, 100), 7);
    assert_eq!(feerate_band_of(25_000, 100), 8);
    assert_eq!(feerate_band_of(50_000, 100), 9);
    assert_eq!(feerate_band_of(99_999, 100), 9);
    assert_eq!(feerate_band_of(100_000, 100), 10);
    // an undefined or infinite feerate (zero vsize) counts in the top band
    assert_eq!(feerate_band_of(0, 0), 10);
    assert_eq!(feerate_band_of(5, 0), 10);
    // the same bands as a floating-point division gives
    for (fee, vsize) in [(1999u64, 1000u32), (4_999_999, 1_000_000), (7, 3), (2_000_000_000, 2_000_001)] {
        let rate = fee as f64 / vsize as f64;
        let float_band = [1.0, 2.0, 5.0, 10.0, 25.0, 50.0, 100.0, 250.0, 500.0, 1000.0]
            .iter()
            .filter(|b| rate >= **b)
            .count() as u8;
        assert_eq!(feerate_band_of(fee, vsize), float_band);
    }
}

#[test]
fn block_stats_from_parts_of_sample_block() {
    let (block, infos) = sample_block();
    assert!(BlockStats::fits(&block, &infos));
    let s = BlockStats::from_parts(
        &block,
        "d".to_string(),
        &infos,
        7,
        0x1d00ffff,
        816,
        0,
        &[0xffff_ffff],
        &[5_000_000_000],
    );
    assert_eq!(s.stats_version, STATS_VERSION);
    assert_eq!(s.stats_version, 4);
    assert_eq!(s.height, HEIGHT);
    assert_eq!(s.version, 0x2000_0010);
    assert_eq!(s.nonce, 2083236893);
    assert_eq!(s.bits, 0x1d00ffff);
    assert_eq!(s.size, 600);
    assert_eq!(s.stripped_size, 500);
    assert_eq!(s.vsize, 445);
    assert_eq!(s.weight, 1780);
    assert!(!s.empty);
    assert_eq!(s.coinbase_output_amount, 5_000_000_000);
    assert_eq!(s.coinbase_weight, 816);
    assert!(!s.coinbase_locktime_set);
    assert!(!s.coinbase_locktime_set_bip54);
    assert_eq!(s.transactions, 3);
    assert_eq!(s.payments, 3);
    assert_eq!(s.payments_segwit_spending_tx, 2);
    assert_eq!(s.payments_taproot_spending_tx, 0);
    assert_eq!(s.payments_signaling_explicit_rbf, 1);
    assert_eq!(s.inputs, 3);
    assert_eq!(s.outputs, 4);
    assert_eq!(s.pool_id, 7);
}

#[test]
fn block_stats_nonce_reads_as_signed() {
    let (mut block, infos) = sample_block();
    block.nonce = 0xffff_ffff;
    let s = BlockStats::from_parts(&block, String::new(), &infos, 0, 0, 0, 0, &[], &[]);
    assert_eq!(s.nonce, -1);
}

#[test]
fn bip54_coinbase_lock_time() {
    // the sequence is final, so the lock time is not enforced
    assert!(!bip54_locktime(104, &[0xffff_ffff], 105));
    assert!(bip54_locktime(104, &[0xffff_fffe], 105));
    assert!(!bip54_locktime(104, &[0xffff_fffe], 106));
    assert!(bip54_locktime(104, &[0xffff_ffff, 0], 105));
    assert!(!bip54_locktime(104, &[], 105));
}

/// A block whose REST model of the coinbase disagrees with its raw bytes: the coinbase
/// amount, lock time and BIP-54 flag come from the decoded raw coinbase.
#[test]
fn block_stats_read_the_coinbase_from_its_raw_bytes() {
    let (mut block, infos) = sample_block();
    block.txdata[0].output[0].value = 1;
    block.txdata[0].lock_time = 104;
    block.txdata[0].input[0].sequence = 0;
    let s = BlockStats::from_block(&block, "d".to_string(), &infos, &KnownPools::mainnet()).unwrap();
    assert_eq!(s.coinbase_output_amount, 5_000_000_000);
    assert!(!s.coinbase_locktime_set);
    assert!(!s.coinbase_locktime_set_bip54);
    let genesis = bitcoin::blockdata::constants::genesis_block(bitcoin::Network::Bitcoin);
    let mut cb = genesis.txdata[0].clone();
    cb.lock_time = bitcoin::absolute::LockTime::from_consensus(104);
    cb.input[0].sequence = bitcoin::Sequence::from_consensus(0xffff_fffe);
    cb.output[0].value = bitcoin::Amount::from_sat(625_000_000);
    block.txdata[0].raw = bitcoin::consensus::serialize(&cb);
    let s = BlockStats::from_block(&block, "d".to_string(), &infos, &KnownPools::mainnet()).unwrap();
    assert_eq!(s.coinbase_output_amount, 625_000_000);
    assert!(s.coinbase_locktime_set);
    assert!(s.coinbase_locktime_set_bip54);
}

/// A fee above 2^53 satoshi is counted like any other: in the top band, as its
/// double-precision feerate is.
#[test]
fn huge_fees_fall_in_the_top_band() {
    let (mut block, infos) = sample_block();
    let fee: u64 = (1u64 << 53) + 1;
    block.txdata[2].fee = Some(fee);
    assert!(FeerateStats::fits(&block, &infos));
    let f = FeerateStats::from_block(&block, "d".to_string(), &infos);
    assert_eq!(f.feerate_1000_plus_sat_vbyte, 1);
    assert_eq!(f.fee_max, fee as i64);
    assert!(fee as f64 / block.txdata[2].vsize as f64 >= 1000.0);
    assert_eq!(feerate_band_of(u64::MAX, u32::MAX), 10);
    assert!(u64::MAX as f64 / u32::MAX as f64 >= 1000.0);
    assert_eq!(feerate_band_of(999 * 7 + 6, 7), 9);
    assert!(((999 * 7 + 6) as f64 / 7.0) < 1000.0);
}

#[test]
fn block_stats_from_block_reads_coinbase_and_bits() {
    let (block, infos) = sample_block();
    let pools = KnownPools::mainnet();
    let s = BlockStats::from_block(&block, "d".to_string(), &infos, &pools).unwrap();
    assert_eq!(s.bits, 486604799);
    // the genesis coinbase transaction has no witness: 204 bytes weigh 816 units
    assert_eq!(s.coinbase_weight, 816);
    assert_eq!(s.pool_id, 0);
}

#[test]
fn block_stats_errors() {
    let pools = KnownPools::mainnet();
    let (mut block, infos) = sample_block();
    block.bits = "0x1d00ffff".to_string();
    assert!(matches!(
        BlockStats::from_block(&block, String::new(), &infos, &pools),
        Err(StatsError::UnprefixedHex(_))
    ));
    block.bits = "ffffffff".to_string();
    assert!(matches!(
        BlockStats::from_block(&block, String::new(), &infos, &pools),
        Err(StatsError::ParseInt(_))
    ));
    block.txdata[0].raw = vec![1, 2, 3];
    assert!(matches!(
        BlockStats::from_block(&block, String::new(), &infos, &pools),
        Err(StatsError::BitcoinEncode(_))
    ));
}

#[test]
fn summary_of_genesis_coinbase() {
    let info = TxSummary::from_raw(&genesis_coinbase_raw()).unwrap();
    assert_eq!(info.input_infos.len(), 1);
    assert_eq!(info.input_infos[0].in_type, InputType::Coinbase);
    assert_eq!(info.output_infos.len(), 1);
    assert_eq!(info.output_infos[0].out_type, OutputType::P2pk);
    assert_eq!(info.output_infos[0].value, 5_000_000_000);
    assert_eq!(info.payments(), 1);
    assert!(matches!(TxSummary::from_raw(&[0u8, 1, 2]), Err(StatsError::BitcoinEncode(_))));
}

fn genesis_block_model() -> Block {
    let (block, _) = sample_block();
    let mut cb = block.txdata[0].clone();
    cb.output = vec![TxOut { value: 5_000_000_000, n: 0, script: vec![0x41; 67] }];
    Block { height: 0, time: GENESIS_TIME, txdata: vec![cb], ..block }
}

#[test]
fn stats_of_genesis_block() {
    let block = genesis_block_model();
    let st = Stats::from_block(block).unwrap();
    assert_eq!(st.block.date, "2009-01-03");
    assert_eq!(st.tx.date, "2009-01-03");
    assert_eq!(st.block.transactions, 1);
    assert!(st.block.empty);
    assert_eq!(st.tx.tx_version_1, 1);
    assert_eq!(st.input.inputs_coinbase, 1);
    assert_eq!(st.output.outputs_p2pk, 1);
    assert_eq!(st.output.outputs_coinbase, 1);
    assert_eq!(st.feerate.fee_sum, 0);
    assert_eq!(st.block.coinbase_weight, 816);
}

#[test]
fn stats_fail_on_undecodable_transaction() {
    let mut block = genesis_block_model();
    block.txdata[0].raw = vec![0xde, 0xad];
    assert!(matches!(Stats::from_block(block), Err(StatsError::BitcoinEncode(_))));
}

#[test]
fn stats_from_summaries_refuses_what_does_not_fit() {
    let pools = KnownPools::mainnet();
    let (mut block, infos) = sample_block();
    assert!(stats_fit_check(&block, &infos));
    assert!(Stats::from_summaries(&block, "d".to_string(), &infos, &pools).is_ok());
    block.txdata[1].output.pop();
    assert!(!stats_fit_check(&block, &infos));
    assert!(matches!(
        Stats::from_summaries(&block, "d".to_string(), &infos, &pools),
        Err(StatsError::Unsupported)
    ));
}

#[test]
fn mainnet_pool_list_is_known() {
    let pools = mainnet_pool_names();
    assert!(!pools.is_empty());
    assert!(pools.iter().any(|(id, _)| *id == 61));
}

/// The sample block where the zero-fee version 3 transaction also creates a dust output, and
/// a version 3 child paying a fee spends it.
fn ephemeral_dust_block() -> (Block, Vec<TxSummary>) {
    let (mut block, mut infos) = sample_block();
    let mut p2wpkh = vec![0x00, 0x14];
    p2wpkh.extend_from_slice(&[3u8; 20]);
    block.txdata[2].output.push(TxOut { value: 0, n: 1, script: p2wpkh });
    infos[2].output_infos.push(output(OutputType::P2wpkhV0, 0, vec![]));
    let child = Tx {
        txid: Txid(0, 0, 0, 4),
        raw: vec![],
        version: 3,
        size: 120,
        vsize: 90,
        fee: Some(500),
        lock_time: 0,
        input: vec![TxIn {
            data: InputData::NonCoinbase {
                txid: Txid(0, 0, 0, 3),
                vout: 1,
                prevout: Prevout { height: HEIGHT, value: 0, script_type: ScriptPubkeyType::Other },
            },
            sequence: 0xffff_ffff,
        }],
        output: vec![TxOut { value: 100, n: 0, script: vec![0x51] }],
    };
    block.txdata.push(child);
    infos.push(TxSummary {
        input_infos: vec![input(InputType::P2wpkh, 0xffff_ffff, vec![true], vec![sig(71, true)])],
        output_infos: vec![output(OutputType::Unknown, 100, vec![])],
        is_bip69_compliant: true,
    });
    (block, infos)
}

#[test]
fn ephemeral_dust_spend_is_a_same_block_spend() {
    let (block, infos) = ephemeral_dust_block();
    assert!(TxStats::fits(&block, &infos));
    let s = TxStats::from_block(&block, String::new(), &infos);
    assert_eq!(s.tx_spending_ephemeral_dust, 1);
    assert_eq!(s.tx_spending_newly_created_utxos, 2);
    assert!(s.tx_spending_ephemeral_dust <= s.tx_spending_newly_created_utxos);
}

#[test]
fn ephemeral_dust_spend_needs_the_fee() {
    let (mut block, infos) = ephemeral_dust_block();
    block.txdata[3].fee = None;
    assert!(!TxStats::fits(&block, &infos));
    // a version 3 transaction without a fee that spends no staged dust is counted
    let (mut block, infos) = sample_block();
    block.txdata[2].fee = None;
    assert!(TxStats::fits(&block, &infos));
}

#[test]
fn nested_counts_hold_on_sample_block() {
    let (block, infos) = sample_block();
    let t = TxStats::from_block(&block, String::new(), &infos);
    assert!(t.tx_spending_only_taproot <= t.tx_spending_only_segwit);
    assert!(t.tx_spending_native_segwit <= t.tx_spending_segwit);
    assert!(t.tx_1_input_1_output <= t.tx_1_input && t.tx_1_input_2_output <= t.tx_1_input);
    let i = InputStats::from_block(&block, String::new(), &infos);
    assert!(i.inputs_spend_in_same_block <= i.inputs_spending_prev_1_blocks);
    assert!(i.inputs_spending_prev_1_blocks <= i.inputs_spending_prev_6_blocks);
    assert!(i.inputs_spending_prev_6_blocks <= i.inputs_spending_prev_144_blocks);
    assert!(i.inputs_spending_prev_144_blocks <= i.inputs_spending_prev_2016_blocks);
    let f = FeerateStats::from_block(&block, String::new(), &infos);
    assert!(f.zero_fee_tx <= f.below_1_sat_vbyte);
    assert!(f.fee_min <= f.fee_max && f.size_min <= f.size_max);
    let b = BlockStats::from_parts(&block, String::new(), &infos, 0, 0, 0, 0, &[], &[]);
    assert!(b.payments_segwit_spending_tx <= b.payments);
    assert!(b.payments_signaling_explicit_rbf <= b.payments);
    let sc = ScriptStats::from_block(&block, String::new(), &infos);
    assert_eq!(sc.sigs_schnorr + sc.sigs_ecdsa, 2);
    assert_eq!(sc.sigs_ecdsa, sc.sigs_ecdsa_low_r + sc.sigs_ecdsa_high_r);
    assert_eq!(
        sc.sigs_ecdsa,
        sc.sigs_ecdsa_low_rs + sc.sigs_ecdsa_low_r_high_s + sc.sigs_ecdsa_high_r_low_s + sc.sigs_ecdsa_high_rs
    );
}

#[test]
fn zero_vsize_zero_fee_counts_in_top_band() {
    let (mut block, infos) = sample_block();
    block.txdata[2].vsize = 0;
    let f = FeerateStats::from_block(&block, String::new(), &infos);
    assert_eq!(f.zero_fee_tx, 1);
    assert_eq!(f.below_1_sat_vbyte, 0);
    assert_eq!(f.feerate_1000_plus_sat_vbyte, 1);
}

#[test]
fn pushed_bytes_add_up() {
    assert_eq!(pushed_data_size(&[Some(4), None, Some(2)]), 6);
    assert_eq!(pushed_data_size(&[]), 0);
}

#[test]
fn outputs_below_their_thresholds() {
    let id = Txid(1, 2, 3, 4);
    let outs = vec![
        TxOut { value: 100, n: 0, script: vec![] },
        TxOut { value: 500, n: 1, script: vec![] },
        TxOut { value: 0, n: 2, script: vec![] },
    ];
    assert_eq!(dust_outputs(id, &outs, &[294, 294, 0]), vec![(id, 0)]);
    assert_eq!(dust_outputs(id, &outs, &[101, 501, 1]), vec![(id, 0), (id, 1), (id, 2)]);
    assert_eq!(dust_outputs(id, &outs, &[0, 0, 0]), vec![]);
}

/// The coinbase transaction of mainnet block 670828, mined by ViaBTC (id 110 in the known
/// mainnet pools).
const VIABTC_COINBASE: &str = "010000000001010000000000000000000000000000000000000000000000000000000000000000ffffffff5f036c3c0a1c2f5669614254432f4d696e6564206279206c6565686f6f343434342f2cfabe6d6d41f647100ea398435411f0297fd9d798625e1b82c82451f7c6ccb59c0c67ec07100000000000000010d02cfe0845dca9281bb0ee077c090000ffffffff04bdb8892b000000001976a914536ffa992491508dca0354e52f32a3a7a679a53a88ac00000000000000002b6a2952534b424c4f434b3a2f21f07f3619ef6521a90de396c2617f2edc5bda4fd04aba89632f2c002f79bc0000000000000000266a24b9e11b6d2dd1c7233a019c512c5f1e105e185a6ea0a47824b5ae390cc7cec5c01714588b0000000000000000266a24aa21a9ed23418324183dba97076f21aadc97aeeb1782c6859faf8e141c601e5c856c55440120000000000000000000000000000000000000000000000000000000000000000000000000";

fn viabtc_coinbase_raw() -> Vec<u8> {
    Vec::<u8>::from_hex(VIABTC_COINBASE).unwrap()
}

#[test]
fn block_stats_identify_the_pool_of_the_coinbase() {
    let (mut block, infos) = sample_block();
    block.txdata[0].raw = viabtc_coinbase_raw();
    let s = BlockStats::from_block(&block, "d".to_string(), &infos, &KnownPools::mainnet()).unwrap();
    assert_eq!(s.pool_id, 110);
    let tx: bitcoin::Transaction = bitcoin::consensus::deserialize(&viabtc_coinbase_raw()).unwrap();
    assert_eq!(s.coinbase_weight, tx.weight().to_wu() as i64);
    assert_ne!(s.coinbase_weight, 816);
}

#[test]
fn summary_of_viabtc_coinbase() {
    let info = TxSummary::from_raw(&viabtc_coinbase_raw()).unwrap();
    assert_eq!(info.input_infos.len(), 1);
    assert_eq!(info.input_infos[0].in_type, InputType::CoinbaseWitness);
    assert_eq!(info.output_infos.len(), 4);
    assert_eq!(info.output_infos[0].out_type, OutputType::P2pkh);
    assert_eq!(info.output_infos[0].value, 730446013);
    assert!(matches!(info.output_infos[3].out_type, OutputType::OpReturn(OpReturnKind::WitnessCommitment)));
}

#[test]
fn stats_refuse_a_block_whose_first_transaction_is_no_coinbase() {
    let mut block = genesis_block_model();
    let genesis = bitcoin::blockdata::constants::genesis_block(bitcoin::Network::Bitcoin);
    let mut tx = genesis.txdata[0].clone();
    tx.input[0].previous_output = bitcoin::OutPoint { txid: tx.compute_txid(), vout: 0 };
    assert!(!tx.is_coinbase());
    block.txdata[0].raw = bitcoin::consensus::serialize(&tx);
    assert!(matches!(Stats::from_block(block), Err(StatsError::Unsupported)));
}

#[test]
fn pubkeys_total_is_that_of_the_input_and_output_lists() {
    let (block, infos) = sample_block();
    let s = ScriptStats::from_block(&block, "d".to_string(), &infos);
    let mut total = 0;
    for info in infos.iter() {
        for i in info.input_infos.iter() {
            total += i.pubkeys_compressed.len();
        }
        for o in info.output_infos.iter() {
            total += o.pubkeys_compressed.len();
        }
    }
    assert_eq!(s.pubkeys as usize, total);
}

#[test]
fn sighash_buckets_stay_within_the_sighash_total() {
    let (block, mut infos) = sample_block();
    infos[2].input_infos[0].signatures[0].sig_hash = 0x00;
    let s = ScriptStats::from_block(&block, "d".to_string(), &infos);
    let buckets = s.sigs_sighash_all + s.sigs_sighash_none + s.sigs_sighash_single
        + s.sigs_sighash_all_acp + s.sigs_sighash_none_acp + s.sigs_sighash_single_acp;
    assert_eq!(buckets, 1);
    assert_eq!(s.sigs_sighashes, 2);
}

#[test]
fn input_type_counts_add_up_to_the_inputs() {
    let (block, infos) = sample_block();
    let s = InputStats::from_block(&block, "d".to_string(), &infos);
    let sum = s.inputs_p2pk + s.inputs_p2pkh + s.inputs_nested_p2wpkh + s.inputs_p2wpkh + s.inputs_p2ms
        + s.inputs_p2sh + s.inputs_nested_p2wsh + s.inputs_p2wsh + s.inputs_coinbase
        + s.inputs_witness_coinbase + s.inputs_p2tr_keypath + s.inputs_p2tr_scriptpath
        + s.inputs_p2a + s.inputs_unknown;
    assert_eq!(sum, 3);
    assert_eq!(s.inputs_coinbase, 1);
    assert_eq!(s.inputs_p2wpkh, 2);
}

#[test]
fn timelocks_above_the_height_are_height_timelocks() {
    let (mut block, infos) = sample_block();
    block.txdata[2].lock_time = 200;
    let s = TxStats::from_block(&block, String::new(), &infos);
    assert_eq!(s.tx_timelock_too_high, 1);
    assert_eq!(s.tx_timelock_height, 2);
}

/// Only a version 3 spender paying a fee, of at most 1000 vbytes, spends ephemeral dust.
#[test]
fn ephemeral_dust_spenders_are_small_fee_paying_version_3_transactions() {
    let (block, infos) = ephemeral_dust_block();
    assert_eq!(TxStats::from_block(&block, String::new(), &infos).tx_spending_ephemeral_dust, 1);
    let mut b = block.clone();
    b.txdata[3].version = 2;
    assert_eq!(TxStats::from_block(&b, String::new(), &infos).tx_spending_ephemeral_dust, 0);
    let mut b = block.clone();
    b.txdata[3].vsize = 1001;
    assert_eq!(TxStats::from_block(&b, String::new(), &infos).tx_spending_ephemeral_dust, 0);
    let mut b = block.clone();
    b.txdata[3].fee = Some(0);
    assert_eq!(TxStats::from_block(&b, String::new(), &infos).tx_spending_ephemeral_dust, 0);
    // the parent stages its dust only while it pays no fee
    let mut b = block.clone();
    b.txdata[2].fee = Some(1);
    assert_eq!(TxStats::from_block(&b, String::new(), &infos).tx_spending_ephemeral_dust, 0);
    assert_eq!(TxStats::from_block(&b, String::new(), &infos).tx_spending_newly_created_utxos, 2);
}
