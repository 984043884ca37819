//! Per-block statistics of the Bitcoin blockchain: counters and sums over the
//! transactions, inputs, outputs, scripts and fees of a block, together with the
//! pool-selection and formatting logic used to publish them as daily CSV series.

pub mod hex;
pub mod model;
pub mod outpoints;
pub mod outside;
pub mod seqs;
pub mod txinfo;
pub mod tx_stats;
pub mod input_stats;
pub mod output_stats;
pub mod script_stats;
pub mod feerate_stats;
pub mod block_stats;
pub mod stats;
pub mod text;
pub mod pools;
pub mod tables;
pub mod laws;
