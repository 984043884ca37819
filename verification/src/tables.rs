//! The published tables: which stored columns are metrics, the version-bit masks the
//! signaling tables select blocks by, and the cells of the P2A table.

use vstd::prelude::*;
use crate::text::{decimal, decimal_of, texts};

verus! {

/// The tables whose columns are published as daily metrics.
pub const METRIC_TABLES: [&'static str; 6] = [
    "block_stats",
    "tx_stats",
    "script_stats",
    "input_stats",
    "output_stats",
    "feerate_stats",
];

/// The columns of those tables that are no metric.
pub const COLUMN_NAMES_THAT_ARENT_METRICS: [&'static str; 6] = [
    "height",
    "date",
    "version",
    "nonce",
    "bits",
    "pool_id",
];

/// The text of each string.
pub open spec fn strs(v: Seq<&str>) -> Seq<Seq<char>> {
    v.map_values(|s: &str| s@)
}

/// The names of the tables whose columns are published as daily metrics.
pub open spec fn metric_table_names() -> Seq<Seq<char>> {
    strs(METRIC_TABLES@)
}

/// The names of the columns of those tables that are no metric.
pub open spec fn non_metric_column_names() -> Seq<Seq<char>> {
    strs(COLUMN_NAMES_THAT_ARENT_METRICS@)
}

/// The names of the tables whose columns are published as daily metrics.
pub fn metric_tables() -> (r: Vec<String>)
    ensures
        texts(r@) == metric_table_names(),
{
    let names = METRIC_TABLES;
    let mut r: Vec<String> = Vec::new();
    for i in 0..6
        invariant
            names@ == METRIC_TABLES@,
            names@.len() == 6,
            texts(r@) =~= metric_table_names().take(i as int),
    {
        let ghost before = r@;
        let name = String::from_str(names[i]);
        r.push(name);
        proof {
            assert(texts(r@) =~= texts(before).push(names@[i as int]@));
            assert(metric_table_names().take(i + 1) =~= metric_table_names().take(i as int).push(
                names@[i as int]@,
            ));
        }
    }
    assert(metric_table_names().take(6) =~= metric_table_names());
    r
}

/// Whether a column of a metric table is a metric.
pub fn is_metric_column(name: &String) -> (r: bool)
    ensures
        r == !non_metric_column_names().contains(name@),
{
    let others = COLUMN_NAMES_THAT_ARENT_METRICS;
    for i in 0..6
        invariant
            others@ == COLUMN_NAMES_THAT_ARENT_METRICS@,
            others@.len() == 6,
            forall|k: int| 0 <= k < i ==> non_metric_column_names()[k] != name@,
    {
        let other = String::from_str(others[i]);
        if *name == other {
            assert(non_metric_column_names()[i as int] == name@);
            return false;
        }
    }
    true
}

/// The metric columns among some columns, in their order.
pub open spec fn metric_only(columns: Seq<Seq<char>>) -> Seq<Seq<char>>
    decreases columns.len(),
{
    if columns.len() == 0 {
        Seq::empty()
    } else if non_metric_column_names().contains(columns.last()) {
        metric_only(columns.drop_last())
    } else {
        metric_only(columns.drop_last()).push(columns.last())
    }
}

/// The columns of a metric table that are metrics, in their order.
pub fn metric_columns(columns: &[String]) -> (r: Vec<String>)
    ensures
        texts(r@) == metric_only(texts(columns@)),
{
    let mut r: Vec<String> = Vec::new();
    let n = columns.len();
    for i in 0..n
        invariant
            n == columns@.len(),
            texts(r@) == metric_only(texts(columns@.take(i as int))),
    {
        proof {
            assert(texts(columns@.take(i + 1)).drop_last() =~= texts(columns@.take(i as int)));
            assert(texts(columns@.take(i + 1)).last() == columns@[i as int]@);
        }
        if is_metric_column(&columns[i]) {
            let ghost before = r@;
            r.push(columns[i].clone());
            proof {
                assert(texts(r@) =~= texts(before).push(columns@[i as int]@));
            }
        }
    }
    proof {
        assert(columns@.take(n as int) =~= columns@);
    }
    r
}

/// The mask of a BIP-9 version bit: a block signals the bit when its version, read as 32
/// bits, has it set (`version & mask != 0`).
pub fn version_bit_mask(bit: u8) -> (r: u32)
    requires
        bit < 32,
    ensures
        r == 1u32 << bit,
{
    1u32 << bit
}

/// The cell of a pool's first block spending or creating a P2A output: `height (date)`, with
/// an empty date where none is known, or `-` when there was no such block.
pub fn first_seen_cell(height: Option<i64>, date: &Option<String>) -> (r: String)
    ensures
        r@ == match height {
            Some(h) => decimal(h as int) + " ("@ + match date {
                Some(d) => d@,
                None => Seq::<char>::empty(),
            } + ")"@,
            None => "-"@,
        },
{
    match height {
        Some(h) => {
            let mut s = decimal_of(h);
            s.append(" (");
            match date {
                Some(d) => s.append(d.as_str()),
                None => {},
            }
            s.append(")");
            s
        },
        None => String::from_str("-"),
    }
}

} // verus!
