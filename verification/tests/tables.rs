use mainnet_observer_backend::pools::{
    all_group_ids, antpool_and_friends_groups, antpool_group_pool_ids, blocks_per_day_pool_ids,
    in_antpool_group, insert_sorted, proxy_pool_group_antpool, ranked_name, row_name,
    top5_pool_groups, MiningPoolID, NO_POOL, PROXY_POOL_GROUP_ANTPOOL,
};
use mainnet_observer_backend::tables::{
    COLUMN_NAMES_THAT_ARENT_METRICS, METRIC_TABLES, first_seen_cell, is_metric_column, metric_columns, metric_tables, version_bit_mask,
};
use mainnet_observer_backend::text::{csv_line, decimal_of, vec_to_string};

fn pool_list() -> Vec<(u64, String)> {
    vec![
        (61, "AntPool".to_string()),
        (88, "Foundry USA".to_string()),
        (22, "F2Pool".to_string()),
        (88, "Foundry USA Pool".to_string()),
        (110, "ViaBTC".to_string()),
        (145, "OCEAN".to_string()),
    ]
}

fn ranking(ids: &[i32]) -> Vec<MiningPoolID> {
    ids.iter().enumerate().map(|(i, id)| MiningPoolID { pool_id: *id, count: 100 - i as i32 }).collect()
}

#[test]
fn antpool_group_members() {
    assert_eq!(proxy_pool_group_antpool(), vec![61, 111, 72, 119, 146, 48, 123, 136, 4, 43, 152]);
    assert_eq!(antpool_group_pool_ids(), vec![61, 111, 72, 119, 146, 48, 123, 136, 4, 43, 152]);
    assert!(in_antpool_group(61));
    assert!(in_antpool_group(152));
    assert!(!in_antpool_group(88));
    assert!(!in_antpool_group(0));
}

#[test]
fn pool_names_take_the_last_entry() {
    let pools = pool_list();
    assert_eq!(ranked_name(&pools, 88), "Foundry USA Pool");
    assert_eq!(ranked_name(&pools, 22), "F2Pool");
    assert_eq!(ranked_name(&pools, 5), "");
    assert_eq!(row_name(&pools, 88), "Foundry USA Pool");
    assert_eq!(row_name(&pools, 145), "OCEAN");
    assert_eq!(row_name(&pools, 999), "Unknown");
    // a negative id is no pool's id
    assert_eq!(row_name(&pools, -1), "Unknown");
}

#[test]
fn top5_with_fewer_pools() {
    let pools = pool_list();
    let g = top5_pool_groups(&ranking(&[88, 61, 22]), &pools);
    assert_eq!(g.ids, vec![vec![88], vec![61], vec![22], vec![NO_POOL], vec![NO_POOL]]);
    assert_eq!(g.names, vec!["Foundry USA Pool", "AntPool", "F2Pool", "", ""]);
}

#[test]
fn top5_takes_the_five_best() {
    let pools = pool_list();
    let g = top5_pool_groups(&ranking(&[88, 61, 22, 110, 145, 0, 4]), &pools);
    assert_eq!(g.ids, vec![vec![88], vec![61], vec![22], vec![110], vec![145]]);
    assert_eq!(g.names, vec!["Foundry USA Pool", "AntPool", "F2Pool", "ViaBTC", "OCEAN"]);
}

#[test]
fn antpool_and_friends_skips_group_members() {
    let pools = pool_list();
    let g = antpool_and_friends_groups(&ranking(&[61, 88, 111, 22, 4, 110, 145, 0]), &pools);
    assert_eq!(g.ids[0], vec![61, 111, 72, 119, 146, 48, 123, 136, 4, 43, 152]);
    assert_eq!(g.ids[1..], [vec![88], vec![22], vec![110], vec![145]]);
    assert_eq!(g.names, vec!["AntPool & friends", "Foundry USA Pool", "F2Pool", "ViaBTC", "OCEAN"]);
}

#[test]
fn antpool_and_friends_with_few_other_pools() {
    let pools = pool_list();
    let g = antpool_and_friends_groups(&ranking(&[61, 22]), &pools);
    assert_eq!(g.ids[1..], [vec![22], vec![NO_POOL], vec![NO_POOL], vec![NO_POOL]]);
    assert_eq!(g.names, vec!["AntPool & friends", "F2Pool", "", "", ""]);
}

#[test]
fn sorted_ids_without_duplicates() {
    let mut v = vec![];
    for x in [5, 1, 9, 5, -3, 1] {
        insert_sorted(&mut v, x);
    }
    assert_eq!(v, vec![-3, 1, 5, 9]);
    let all = all_group_ids(&vec![vec![61, 111], vec![-1], vec![88], vec![-1], vec![61]]);
    assert_eq!(all, vec![-1, 61, 88, 111]);
}

#[test]
fn pools_with_a_table_of_their_own() {
    assert_eq!(
        blocks_per_day_pool_ids(),
        vec![0, 4, 22, 43, 48, 61, 72, 88, 110, 111, 119, 123, 136, 140, 145, 146, 152]
    );
}

#[test]
fn ids_as_sql_list() {
    assert_eq!(vec_to_string(&[1, 2, 3]), "1, 2, 3");
    assert_eq!(vec_to_string(&[-1]), "-1");
    assert_eq!(vec_to_string(&[]), "");
    assert_eq!(vec_to_string(&[2147483647, -2147483648]), "2147483647, -2147483648");
}

#[test]
fn decimals_and_csv_lines() {
    assert_eq!(decimal_of(0), "0");
    assert_eq!(decimal_of(-42), "-42");
    assert_eq!(decimal_of(i64::MIN), "-9223372036854775808");
    assert_eq!(csv_line(&["2024-01-01".to_string(), "3".to_string(), "144".to_string()]), "2024-01-01,3,144\n");
    assert_eq!(csv_line(&[]), "\n");
}

#[test]
fn metric_tables_and_columns() {
    assert_eq!(
        metric_tables(),
        vec!["block_stats", "tx_stats", "script_stats", "input_stats", "output_stats", "feerate_stats"]
    );
    assert!(!is_metric_column(&"pool_id".to_string()));
    assert!(!is_metric_column(&"height".to_string()));
    assert!(is_metric_column(&"inputs".to_string()));
    let columns: Vec<String> = ["height", "date", "version", "nonce", "bits", "pool_id", "size", "inputs"]
        .iter()
        .map(|c| c.to_string())
        .collect();
    assert_eq!(metric_columns(&columns), vec!["size", "inputs"]);
}

#[test]
fn version_bits() {
    assert_eq!(version_bit_mask(0), 1);
    assert_eq!(version_bit_mask(4), 16);
    assert_eq!(version_bit_mask(31), 0x8000_0000);
    // BIP-110 signaling: version bit 4 set
    let version: i32 = 0x2000_0010;
    assert_ne!(version as u32 & version_bit_mask(4), 0);
    assert_eq!(0x2000_0000u32 & version_bit_mask(4), 0);
}

#[test]
fn p2a_first_seen_cells() {
    assert_eq!(first_seen_cell(Some(850000), &Some("2024-06-27".to_string())), "850000 (2024-06-27)");
    assert_eq!(first_seen_cell(Some(7), &None), "7 ()");
    assert_eq!(first_seen_cell(None, &Some("x".to_string())), "-");
}

#[test]
fn antpool_view_never_shows_a_group_member_alone() {
    let pools = pool_list();
    let g = antpool_and_friends_groups(&ranking(&[4, 43, 61, 152, 111, 88]), &pools);
    for slot in &g.ids[1..] {
        assert!(slot == &vec![NO_POOL] || (slot.len() == 1 && !in_antpool_group(slot[0] as u64)));
    }
    assert_eq!(g.ids[1], vec![88]);
}

#[test]
fn table_constants() {
    assert_eq!(PROXY_POOL_GROUP_ANTPOOL.len(), 11);
    assert_eq!(METRIC_TABLES[0], "block_stats");
    assert_eq!(COLUMN_NAMES_THAT_ARENT_METRICS[5], "pool_id");
}
