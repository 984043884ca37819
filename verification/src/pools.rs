//! Mining pools in the published tables: the "AntPool & friends" proxy pool group, the
//! choice of the pool groups shown next to each other, the pool ids with a table of their
//! own, and pool names.

use vstd::prelude::*;
use crate::outside::{pool_ids_and_names, KnownPools};
use crate::text::{decimal, decimal_of};

verus! {

/// The pool ids (as the known-pools list numbers them) of the "AntPool & friends" proxy pool
/// group, found by the stratum jobs its pools send out.
pub open spec fn antpool_group() -> Seq<u64> {
    PROXY_POOL_GROUP_ANTPOOL@
}

/// The pool ids of the "AntPool & friends" proxy pool group: AntPool, Poolin, Ultimus Pool,
/// Braiins, SecPool, SigmaPool, Binance Pool, Rawpool, Luxor, CloverPool and Mining Squared.
pub const PROXY_POOL_GROUP_ANTPOOL: [u64; 11] = [61, 111, 72, 119, 146, 48, 123, 136, 4, 43, 152];

/// The pool ids of the "AntPool & friends" proxy pool group.
pub fn proxy_pool_group_antpool() -> (r: Vec<u64>)
    ensures
        r@ == antpool_group(),
{
    let a = PROXY_POOL_GROUP_ANTPOOL;
    let mut r: Vec<u64> = Vec::new();
    for i in 0..11
        invariant
            a@ == antpool_group(),
            a@.len() == 11,
            r@ =~= antpool_group().take(i as int),
    {
        r.push(a[i]);
    }
    assert(antpool_group().take(11) =~= antpool_group());
    r
}

/// Whether a pool belongs to the "AntPool & friends" group.
pub fn in_antpool_group(id: u64) -> (r: bool)
    ensures
        r == antpool_group().contains(id),
{
    let group = proxy_pool_group_antpool();
    let n = group.len();
    for i in 0..n
        invariant
            n == group@.len(),
            group@ == antpool_group(),
            forall|k: int| 0 <= k < i ==> group@[k] != id,
    {
        if group[i] == id {
            assert(antpool_group()[i as int] == id);
            return true;
        }
    }
    false
}

/// The pools of the group as ids of the `pool_id` column.
pub open spec fn antpool_group_ids() -> Seq<i32> {
    antpool_group().map_values(|x: u64| x as i32)
}

/// The ids of the "AntPool & friends" group as `pool_id` values.
pub fn antpool_group_pool_ids() -> (r: Vec<i32>)
    ensures
        r@ == antpool_group_ids(),
{
    let group = proxy_pool_group_antpool();
    let mut r: Vec<i32> = Vec::new();
    let n = group.len();
    for i in 0..n
        invariant
            n == group@.len(),
            group@ == antpool_group(),
            r@ =~= antpool_group_ids().take(i as int),
    {
        r.push(group[i] as i32);
    }
    assert(antpool_group_ids().take(n as int) =~= antpool_group_ids());
    r
}

/// A pool of the current ranking and the number of recent blocks it mined.
#[derive(Clone, Copy, Debug)]
pub struct MiningPoolID {
    pub pool_id: i32,
    pub count: i32,
}

/// The name of the last pool of the list whose id satisfies `matches`.
pub open spec fn last_pool_name(pools: Seq<(u64, String)>, matches: spec_fn(u64) -> bool) -> Option<
    String,
>
    decreases pools.len(),
{
    if pools.len() == 0 {
        None
    } else if matches(pools.last().0) {
        Some(pools.last().1)
    } else {
        last_pool_name(pools.drop_last(), matches)
    }
}

/// A pool list entry names the pool `id` of the ranking when its id, cut to 32 bits, is `id`.
pub open spec fn names_ranked(id: i32) -> spec_fn(u64) -> bool {
    |k: u64| (#[verifier::truncate] (k as i32)) == id
}

/// A pool list entry names the pool `id` of a table row when `id` as a `u64` is its id.
pub open spec fn names_row(id: i64) -> spec_fn(u64) -> bool {
    |k: u64| k == (#[verifier::truncate] (id as u64))
}

/// The name shown for a pool of the ranking: that of the last list entry naming it, or empty.
pub open spec fn ranked_pool_name(pools: Seq<(u64, String)>, id: i32) -> Seq<char> {
    match last_pool_name(pools, names_ranked(id)) {
        Some(name) => name@,
        None => Seq::empty(),
    }
}

/// The name shown for the pool of a table row: that of the last list entry naming it, or
/// `Unknown`.
pub open spec fn row_pool_name(pools: Seq<(u64, String)>, id: i64) -> Seq<char> {
    match last_pool_name(pools, names_row(id)) {
        Some(name) => name@,
        None => "Unknown"@,
    }
}

/// The ids and names of the known mainnet pools, in the order of the known-pools list.
/// The list is data of `bitcoin_pool_identification`, so nothing is stated of its entries.
pub fn mainnet_pool_names() -> (r: Vec<(u64, String)>) {
    let pools = KnownPools::mainnet();
    pool_ids_and_names(&pools)
}

/// The name of the last pool of the list whose id, cut to 32 bits, is `id`; empty when
/// there is none.
pub fn ranked_name(pools: &[(u64, String)], id: i32) -> (r: String)
    ensures
        r@ == ranked_pool_name(pools@, id),
{
    let mut i = pools.len();
    proof {
        assert(pools@.take(i as int) =~= pools@);
    }
    while i > 0
        invariant
            i <= pools@.len(),
            last_pool_name(pools@, names_ranked(id)) == last_pool_name(
                pools@.take(i as int),
                names_ranked(id),
            ),
        decreases i,
    {
        let ghost pre = pools@.take(i as int);
        i = i - 1;
        proof {
            assert(pre.drop_last() =~= pools@.take(i as int));
            assert(pre.last() == pools@[i as int]);
        }
        if (#[verifier::truncate] (pools[i].0 as i32)) == id {
            return pools[i].1.clone();
        }
    }
    proof {
        assert(pools@.take(0) =~= Seq::<(u64, String)>::empty());
    }
    String::new()
}

/// The name of the last pool of the list whose id is `id` as a `u64`; `Unknown` when there
/// is none.
pub fn row_name(pools: &[(u64, String)], id: i64) -> (r: String)
    ensures
        r@ == row_pool_name(pools@, id),
{
    let key = #[verifier::truncate] (id as u64);
    let mut i = pools.len();
    proof {
        assert(pools@.take(i as int) =~= pools@);
    }
    while i > 0
        invariant
            i <= pools@.len(),
            key == (#[verifier::truncate] (id as u64)),
            last_pool_name(pools@, names_row(id)) == last_pool_name(
                pools@.take(i as int),
                names_row(id),
            ),
        decreases i,
    {
        let ghost pre = pools@.take(i as int);
        i = i - 1;
        proof {
            assert(pre.drop_last() =~= pools@.take(i as int));
            assert(pre.last() == pools@[i as int]);
        }
        if pools[i].0 == key {
            return pools[i].1.clone();
        }
    }
    proof {
        assert(pools@.take(0) =~= Seq::<(u64, String)>::empty());
    }
    String::from_str("Unknown")
}

/// Pool groups shown next to each other, as slots of pool ids with the name of each slot.
#[derive(Clone, Debug)]
pub struct PoolGroups {
    pub ids: Vec<Vec<i32>>,
    pub names: Vec<String>,
}

/// The number of pool groups shown next to each other.
pub const GROUP_SLOTS: usize = 5;

/// The id a slot without a pool holds: no block has it.
pub const NO_POOL: i32 = -1;

/// Slot `i` of the five top pools: the `i`-th pool of the ranking alone, or no pool.
pub open spec fn top5_slot(top: Seq<MiningPoolID>, i: int) -> Seq<i32> {
    if i < top.len() {
        seq![top[i].pool_id]
    } else {
        seq![NO_POOL]
    }
}

/// The name of slot `i` of the five top pools, empty for a slot without a pool.
pub open spec fn top5_slot_name(top: Seq<MiningPoolID>, pools: Seq<(u64, String)>, i: int) -> Seq<
    char,
> {
    if i < top.len() {
        ranked_pool_name(pools, top[i].pool_id)
    } else {
        Seq::empty()
    }
}

/// The ranked pools outside the "AntPool & friends" group, in ranking order.
pub open spec fn outside_antpool_group(top: Seq<MiningPoolID>) -> Seq<MiningPoolID>
    decreases top.len(),
{
    if top.len() == 0 {
        Seq::empty()
    } else {
        let rest = outside_antpool_group(top.drop_last());
        if antpool_group().contains((#[verifier::truncate] (top.last().pool_id as u64))) {
            rest
        } else {
            rest.push(top.last())
        }
    }
}

/// Slot `i` of the "AntPool & friends" view: the whole group first, then the top pools
/// outside the group, one to a slot, in ranking order; no pool where they run out.
pub open spec fn antpool_slot(top: Seq<MiningPoolID>, i: int) -> Seq<i32> {
    let others = outside_antpool_group(top);
    if i == 0 {
        antpool_group_ids()
    } else if i - 1 < others.len() {
        seq![others[i - 1].pool_id]
    } else {
        seq![NO_POOL]
    }
}

/// The name of slot `i` of the "AntPool & friends" view.
pub open spec fn antpool_slot_name(top: Seq<MiningPoolID>, pools: Seq<(u64, String)>, i: int) -> Seq<
    char,
> {
    let others = outside_antpool_group(top);
    if i == 0 {
        "AntPool & friends"@
    } else if i - 1 < others.len() {
        ranked_pool_name(pools, others[i - 1].pool_id)
    } else {
        Seq::empty()
    }
}

/// The five top pools of the ranking (best first), each a group of its own, named by the
/// last entry of the pool list that names it.
pub fn top5_pool_groups(top_pools: &[MiningPoolID], pools: &[(u64, String)]) -> (r: PoolGroups)
    ensures
        r.ids@.len() == GROUP_SLOTS,
        r.names@.len() == GROUP_SLOTS,
        forall|i: int| 0 <= i < GROUP_SLOTS ==> (#[trigger] r.ids@[i])@ == top5_slot(top_pools@, i),
        forall|i: int|
            0 <= i < GROUP_SLOTS ==> (#[trigger] r.names@[i])@ == top5_slot_name(top_pools@, pools@, i),
{
    let mut ids: Vec<Vec<i32>> = Vec::new();
    let mut names: Vec<String> = Vec::new();
    for i in 0..GROUP_SLOTS
        invariant
            ids@.len() == i,
            names@.len() == i,
            forall|k: int| 0 <= k < i ==> (#[trigger] ids@[k])@ == top5_slot(top_pools@, k),
            forall|k: int| 0 <= k < i ==> (#[trigger] names@[k])@ == top5_slot_name(top_pools@, pools@, k),
    {
        if i < top_pools.len() {
            let id = top_pools[i].pool_id;
            let v = vec![id];
            assert(v@ =~= top5_slot(top_pools@, i as int));
            ids.push(v);
            names.push(ranked_name(pools, id));
        } else {
            let v = vec![NO_POOL];
            assert(v@ =~= top5_slot(top_pools@, i as int));
            ids.push(v);
            let e = String::new();
            assert(e@ =~= top5_slot_name(top_pools@, pools@, i as int));
            names.push(e);
        }
    }
    PoolGroups { ids, names }
}

/// The "AntPool & friends" group followed by the four best ranked pools outside it, each a
/// group of its own, named by the last entry of the pool list that names it.
pub fn antpool_and_friends_groups(top_pools: &[MiningPoolID], pools: &[(u64, String)]) -> (r: PoolGroups)
    ensures
        r.ids@.len() == GROUP_SLOTS,
        r.names@.len() == GROUP_SLOTS,
        forall|i: int| 0 <= i < GROUP_SLOTS ==> (#[trigger] r.ids@[i])@ == antpool_slot(top_pools@, i),
        forall|i: int|
            0 <= i < GROUP_SLOTS ==> (#[trigger] r.names@[i])@ == antpool_slot_name(top_pools@, pools@, i),
{
    let mut others: Vec<MiningPoolID> = Vec::new();
    let n = top_pools.len();
    for i in 0..n
        invariant
            n == top_pools@.len(),
            others@ == outside_antpool_group(top_pools@.take(i as int)),
    {
        proof {
            assert(top_pools@.take(i + 1).drop_last() =~= top_pools@.take(i as int));
        }
        let p = top_pools[i];
        if !in_antpool_group(#[verifier::truncate] (p.pool_id as u64)) {
            others.push(p);
        }
    }
    proof {
        assert(top_pools@.take(n as int) =~= top_pools@);
    }
    let mut ids: Vec<Vec<i32>> = Vec::new();
    let mut names: Vec<String> = Vec::new();
    ids.push(antpool_group_pool_ids());
    names.push(String::from_str("AntPool & friends"));
    for i in 1..GROUP_SLOTS
        invariant
            others@ == outside_antpool_group(top_pools@),
            ids@.len() == i,
            names@.len() == i,
            forall|k: int| 0 <= k < i ==> (#[trigger] ids@[k])@ == antpool_slot(top_pools@, k),
            forall|k: int|
                0 <= k < i ==> (#[trigger] names@[k])@ == antpool_slot_name(top_pools@, pools@, k),
    {
        if i - 1 < others.len() {
            let id = others[i - 1].pool_id;
            let v = vec![id];
            assert(v@ =~= antpool_slot(top_pools@, i as int));
            ids.push(v);
            names.push(ranked_name(pools, id));
        } else {
            let v = vec![NO_POOL];
            assert(v@ =~= antpool_slot(top_pools@, i as int));
            ids.push(v);
            let e = String::new();
            assert(e@ =~= antpool_slot_name(top_pools@, pools@, i as int));
            names.push(e);
        }
    }
    PoolGroups { ids, names }
}

/// The ids in increasing order, each once: the iteration order of an ordered set.
pub open spec fn strictly_increasing(s: Seq<i32>) -> bool {
    forall|i: int, j: int| 0 <= i < j < s.len() ==> s[i] < s[j]
}

/// Inserts an id into an increasing list of ids, unless it is there already.
pub fn insert_sorted(v: &mut Vec<i32>, x: i32)
    requires
        strictly_increasing(old(v)@),
    ensures
        strictly_increasing(final(v)@),
        forall|y: i32| #[trigger] final(v)@.contains(y) <==> (old(v)@.contains(y) || y == x),
{
    let n = v.len();
    let mut p: usize = 0;
    while p < n && v[p] < x
        invariant
            p <= n,
            n == v@.len(),
            forall|k: int| 0 <= k < p ==> v@[k] < x,
        decreases n - p,
    {
        p = p + 1;
    }
    if p < n && v[p] == x {
        assert(v@.contains(x) && v@[p as int] == x);
        return;
    }
    let ghost old_v = v@;
    v.insert(p, x);
    proof {
        assert(v@ =~= old_v.insert(p as int, x));
        assert forall|i: int, j: int| 0 <= i < j < v@.len() implies v@[i] < v@[j] by {
            if j < p {
            } else if j == p {
                assert(v@[i] == old_v[i]);
            } else if i == p {
                assert(v@[j] == old_v[j - 1]);
                assert(old_v[p as int] >= x);
                if j - 1 > p {
                    assert(old_v[p as int] < old_v[j - 1]);
                }
            } else if i < p {
                assert(v@[i] == old_v[i]);
                assert(v@[j] == old_v[j - 1]);
            } else {
                assert(v@[i] == old_v[i - 1]);
                assert(v@[j] == old_v[j - 1]);
            }
        }
        assert forall|y: i32| #[trigger] v@.contains(y) <==> (old_v.contains(y) || y == x) by {
            if v@.contains(y) {
                let k = choose|k: int| 0 <= k < v@.len() && v@[k] == y;
                if k < p {
                    assert(old_v[k] == y);
                } else if k > p {
                    assert(old_v[k - 1] == y);
                }
            }
            if old_v.contains(y) {
                let k = choose|k: int| 0 <= k < old_v.len() && old_v[k] == y;
                if k < p {
                    assert(v@[k] == y);
                } else {
                    assert(v@[k + 1] == y);
                }
            }
            if y == x {
                assert(v@[p as int] == x);
            }
        }
    }
}

/// The ids of all groups, in increasing order, each once.
pub fn all_group_ids(groups: &Vec<Vec<i32>>) -> (r: Vec<i32>)
    ensures
        strictly_increasing(r@),
        forall|y: i32|
            #[trigger] r@.contains(y) <==> exists|g: int|
                0 <= g < groups@.len() && (#[trigger] groups@[g])@.contains(y),
{
    let mut r: Vec<i32> = Vec::new();
    let n = groups.len();
    for g in 0..n
        invariant
            n == groups@.len(),
            strictly_increasing(r@),
            forall|y: i32|
                #[trigger] r@.contains(y) <==> exists|h: int|
                    0 <= h < g && (#[trigger] groups@[h])@.contains(y),
    {
        let group = &groups[g];
        let m = group.len();
        for k in 0..m
            invariant
                m == group@.len(),
                g < n,
                n == groups@.len(),
                group@ == groups@[g as int]@,
                strictly_increasing(r@),
                forall|y: i32|
                    #[trigger] r@.contains(y) <==> (exists|h: int|
                        0 <= h < g && (#[trigger] groups@[h])@.contains(y)) || group@.take(
                        k as int,
                    ).contains(y),
        {
            let ghost before = r@;
            insert_sorted(&mut r, group[k]);
            proof {
                assert(group@.take(k + 1) =~= group@.take(k as int).push(group@[k as int]));
                assert forall|y: i32| #[trigger] r@.contains(y) <==> ((exists|h: int|
                    0 <= h < g && (#[trigger] groups@[h])@.contains(y)) || group@.take(
                    k + 1,
                ).contains(y)) by {
                    let t0 = group@.take(k as int);
                    let t1 = group@.take(k + 1);
                    if t1.contains(y) && !t0.contains(y) {
                        let q = choose|q: int| 0 <= q < t1.len() && #[trigger] t1[q] == y;
                        if q < k {
                            assert(t0[q] == y);
                        }
                    }
                    if t0.contains(y) {
                        let q = choose|q: int| 0 <= q < t0.len() && #[trigger] t0[q] == y;
                        assert(t1[q] == y);
                    }
                    if y == group@[k as int] {
                        assert(group@.take(k + 1)[k as int] == y);
                    }
                }
            }
        }
        proof {
            assert(group@.take(m as int) =~= group@);
            assert forall|y: i32| #[trigger] r@.contains(y) <==> exists|h: int|
                0 <= h < g + 1 && (#[trigger] groups@[h])@.contains(y) by {
                if group@.contains(y) {
                    assert(groups@[g as int]@.contains(y));
                }
                if exists|h: int| 0 <= h < g + 1 && (#[trigger] groups@[h])@.contains(y) {
                    let h = choose|h: int| 0 <= h < g + 1 && (#[trigger] groups@[h])@.contains(y);
                    if h == g {
                        assert(group@.contains(y));
                    }
                }
            }
        }
    }
    r
}

/// The pools with a table of blocks per day of their own: the "AntPool & friends" group,
/// blocks of unknown pools (0), Foundry USA (88), ViaBTC (110), F2Pool (22), MaraPool (140)
/// and Ocean (145).
pub open spec fn tracked_pool(y: i32) -> bool {
    antpool_group_ids().contains(y) || y == 0 || y == 88 || y == 110 || y == 22 || y == 140 || y
        == 145
}

/// The ids of the pools with a table of blocks per day of their own, in increasing order.
pub fn blocks_per_day_pool_ids() -> (r: Vec<i32>)
    ensures
        strictly_increasing(r@),
        forall|y: i32| #[trigger] r@.contains(y) <==> tracked_pool(y),
{
    let mut groups: Vec<Vec<i32>> = Vec::new();
    groups.push(antpool_group_pool_ids());
    groups.push(vec![0, 88, 110, 22, 140, 145]);
    let r = all_group_ids(&groups);
    proof {
        assert forall|y: i32| #[trigger] r@.contains(y) <==> tracked_pool(y) by {
            let others = groups@[1]@;
            assert(others =~= seq![0i32, 88, 110, 22, 140, 145]);
            if tracked_pool(y) {
                if antpool_group_ids().contains(y) {
                    assert(groups@[0]@.contains(y));
                } else if y == 0 {
                    assert(others[0] == y);
                } else if y == 88 {
                    assert(others[1] == y);
                } else if y == 110 {
                    assert(others[2] == y);
                } else if y == 22 {
                    assert(others[3] == y);
                } else if y == 140 {
                    assert(others[4] == y);
                } else {
                    assert(others[5] == y);
                }
            }
        }
    }
    r
}

} // verus!
