//! The pipeline's laws, stated and proved over the normalizer's
//! mathematical model.

use vstd::prelude::*;

use crate::model::{AssetIdView, PoolPairView, UnresolvedReason};
use crate::normalize::{
    all_asset_ids, dedup_ids, name_index, spec_asset_table, spec_name_table, spec_normalize,
    spec_resolve_id, spec_unresolved, upsert_name, EnvView, OutcomeView,
};

verus! {

/// Deduplication keeps exactly the members: an identifier occurs in the
/// deduplicated list if and only if it occurs in the original.
pub proof fn lemma_dedup_contains(ids: Seq<AssetIdView>, a: AssetIdView)
    ensures
        dedup_ids(ids).contains(a) <==> ids.contains(a),
    decreases ids.len(),
{
    if ids.len() == 0 {
        assert(!ids.contains(a));
        assert(!dedup_ids(ids).contains(a));
    } else {
        let rest = ids.drop_last();
        lemma_dedup_contains(rest, a);
        lemma_dedup_contains(rest, ids.last());
        assert(ids.contains(a) <==> (rest.contains(a) || ids.last() == a)) by {
            if ids.contains(a) {
                let k = choose|k: int| 0 <= k < ids.len() && ids[k] == a;
                if k < ids.len() - 1 {
                    assert(rest[k] == a);
                }
            }
            if rest.contains(a) {
                let k = choose|k: int| 0 <= k < rest.len() && rest[k] == a;
                assert(ids[k] == a);
            }
            if ids.last() == a {
                assert(ids[ids.len() - 1] == a);
            }
        }
        let d = dedup_ids(rest);
        if d.contains(ids.last()) {
            assert(dedup_ids(ids) == d);
        } else {
            assert(dedup_ids(ids) == d.push(ids.last()));
            assert(d.push(ids.last()).contains(a) <==> (d.contains(a) || ids.last() == a)) by {
                if d.push(ids.last()).contains(a) {
                    let k = choose|k: int|
                        0 <= k < d.push(ids.last()).len() && d.push(ids.last())[k] == a;
                    if k < d.len() {
                        assert(d[k] == a);
                    }
                }
                if d.contains(a) {
                    let k = choose|k: int| 0 <= k < d.len() && d[k] == a;
                    assert(d.push(ids.last())[k] == a);
                }
                if ids.last() == a {
                    assert(d.push(ids.last())[d.len() as int] == a);
                }
            }
        }
    }
}

/// Deduplication leaves no duplicates: any two positions of the
/// deduplicated list hold different identifiers.
pub proof fn lemma_dedup_distinct(ids: Seq<AssetIdView>)
    ensures
        forall|i: int, j: int|
            0 <= i < j < dedup_ids(ids).len() ==> dedup_ids(ids)[i] != dedup_ids(ids)[j],
    decreases ids.len(),
{
    if ids.len() > 0 {
        let rest = ids.drop_last();
        lemma_dedup_distinct(rest);
        let d = dedup_ids(rest);
        if !d.contains(ids.last()) {
            assert forall|i: int, j: int|
                0 <= i < j < dedup_ids(ids).len() implies dedup_ids(ids)[i] != dedup_ids(
                ids,
            )[j] by {
                if j < d.len() {
                } else {
                    assert(dedup_ids(ids)[j] == ids.last());
                    assert(dedup_ids(ids)[i] == d[i]);
                    assert(!d.contains(ids.last()));
                    if d[i] == ids.last() {
                        assert(d.contains(ids.last()));
                    }
                }
            }
        }
    }
}

/// No identifier occurs at two positions.
pub open spec fn distinct_ids(ids: Seq<AssetIdView>) -> bool {
    forall|i: int, j: int| 0 <= i < j < ids.len() ==> ids[i] != ids[j]
}

/// No two distinct identifiers resolve to one and the same name.
pub open spec fn no_name_collisions(env: EnvView, ids: Seq<AssetIdView>) -> bool {
    forall|i: int, j: int|
        0 <= i < ids.len() && 0 <= j < ids.len() && i != j && #[trigger] spec_resolve_id(
            env,
            ids[i],
        ) is Ok && #[trigger] spec_resolve_id(env, ids[j]) is Ok ==> spec_resolve_id(
            env,
            ids[i],
        )->Ok_0 != spec_resolve_id(env, ids[j])->Ok_0
}

/// The identifier-to-name table and the unresolved list partition the
/// input identifiers by whether they resolve, and the table's entries
/// record exactly what each identifier resolves to.
pub proof fn lemma_tables_characterize(env: EnvView, ids: Seq<AssetIdView>, a: AssetIdView)
    ensures
        (exists|k: int|
            0 <= k < spec_asset_table(env, ids).len() && #[trigger] spec_asset_table(
                env,
                ids,
            )[k].0 == a) <==> (ids.contains(a) && spec_resolve_id(env, a) is Ok),
        (exists|k: int|
            0 <= k < spec_unresolved(env, ids).len() && #[trigger] spec_unresolved(
                env,
                ids,
            )[k].0 == a) <==> (ids.contains(a) && spec_resolve_id(env, a) is Err),
    decreases ids.len(),
{
    if ids.len() == 0 {
        assert(!ids.contains(a));
    } else {
        let rest = ids.drop_last();
        lemma_tables_characterize(env, rest, a);
        assert(ids.contains(a) <==> (rest.contains(a) || ids.last() == a)) by {
            if ids.contains(a) {
                let k = choose|k: int| 0 <= k < ids.len() && ids[k] == a;
                if k < ids.len() - 1 {
                    assert(rest[k] == a);
                }
            }
            if rest.contains(a) {
                let k = choose|k: int| 0 <= k < rest.len() && rest[k] == a;
                assert(ids[k] == a);
            }
            if ids.last() == a {
                assert(ids[ids.len() - 1] == a);
            }
        }
        let t0 = spec_asset_table(env, rest);
        let t1 = spec_asset_table(env, ids);
        let u0 = spec_unresolved(env, rest);
        let u1 = spec_unresolved(env, ids);
        assert((exists|k: int| 0 <= k < t1.len() && #[trigger] t1[k].0 == a) <==> ((exists|k: int|
            0 <= k < t0.len() && #[trigger] t0[k].0 == a) || (ids.last() == a && spec_resolve_id(
            env,
            a,
        ) is Ok))) by {
            if spec_resolve_id(env, ids.last()) is Ok {
                assert(t1 == t0.push((ids.last(), spec_resolve_id(env, ids.last())->Ok_0)));
                if exists|k: int| 0 <= k < t1.len() && #[trigger] t1[k].0 == a {
                    let k = choose|k: int| 0 <= k < t1.len() && #[trigger] t1[k].0 == a;
                    if k < t0.len() {
                        assert(t0[k].0 == a);
                    } else {
                        assert(t1[k] == (ids.last(), spec_resolve_id(env, ids.last())->Ok_0));
                    }
                }
                if exists|k: int| 0 <= k < t0.len() && #[trigger] t0[k].0 == a {
                    let k = choose|k: int| 0 <= k < t0.len() && #[trigger] t0[k].0 == a;
                    assert(t1[k].0 == a);
                }
                if ids.last() == a {
                    assert(t1[t0.len() as int].0 == a);
                }
            } else {
                assert(t1 == t0);
            }
        }
        assert((exists|k: int| 0 <= k < u1.len() && #[trigger] u1[k].0 == a) <==> ((exists|k: int|
            0 <= k < u0.len() && #[trigger] u0[k].0 == a) || (ids.last() == a && spec_resolve_id(
            env,
            a,
        ) is Err))) by {
            if spec_resolve_id(env, ids.last()) is Err {
                assert(u1 == u0.push((ids.last(), spec_resolve_id(env, ids.last())->Err_0)));
                if exists|k: int| 0 <= k < u1.len() && #[trigger] u1[k].0 == a {
                    let k = choose|k: int| 0 <= k < u1.len() && #[trigger] u1[k].0 == a;
                    if k < u0.len() {
                        assert(u0[k].0 == a);
                    } else {
                        assert(u1[k] == (ids.last(), spec_resolve_id(env, ids.last())->Err_0));
                    }
                }
                if exists|k: int| 0 <= k < u0.len() && #[trigger] u0[k].0 == a {
                    let k = choose|k: int| 0 <= k < u0.len() && #[trigger] u0[k].0 == a;
                    assert(u1[k].0 == a);
                }
                if ids.last() == a {
                    assert(u1[u0.len() as int].0 == a);
                }
            } else {
                assert(u1 == u0);
            }
        }
    }
}

/// Every table entry holds an input identifier and exactly the name it
/// resolves to.
pub proof fn lemma_table_entries(env: EnvView, ids: Seq<AssetIdView>)
    ensures
        forall|k: int|
            0 <= k < spec_asset_table(env, ids).len() ==> ids.contains(
                #[trigger] spec_asset_table(env, ids)[k].0,
            ) && spec_resolve_id(env, spec_asset_table(env, ids)[k].0) == Ok::<
                Seq<char>,
                UnresolvedReason,
            >(spec_asset_table(env, ids)[k].1),
    decreases ids.len(),
{
    if ids.len() > 0 {
        let rest = ids.drop_last();
        lemma_table_entries(env, rest);
        let t0 = spec_asset_table(env, rest);
        let t1 = spec_asset_table(env, ids);
        assert forall|k: int| 0 <= k < t1.len() implies ids.contains(#[trigger] t1[k].0)
            && spec_resolve_id(env, t1[k].0) == Ok::<Seq<char>, UnresolvedReason>(t1[k].1) by {
            if k < t0.len() {
                assert(t1[k] == t0[k]);
                let j = choose|j: int| 0 <= j < rest.len() && rest[j] == t0[k].0;
                assert(ids[j] == t0[k].0);
            } else {
                assert(spec_resolve_id(env, ids.last()) is Ok);
                assert(t1[k] == (ids.last(), spec_resolve_id(env, ids.last())->Ok_0));
                assert(ids[ids.len() - 1] == ids.last());
            }
        }
    }
}

/// Where `name` is on no entry, the scan runs off the end.
pub proof fn lemma_name_index_absent(t: Seq<(Seq<char>, AssetIdView)>, name: Seq<char>, i: int)
    requires
        0 <= i <= t.len(),
        forall|k: int| i <= k < t.len() ==> (#[trigger] t[k]).0 != name,
    ensures
        name_index(t, name, i) == t.len(),
    decreases t.len() - i,
{
    if i < t.len() {
        lemma_name_index_absent(t, name, i + 1);
    }
}

/// Under distinct identifiers and no name collisions, the name table is
/// exactly the identifier-to-name table with its columns swapped: no
/// overwrite ever happens.
pub proof fn lemma_name_table_swap(env: EnvView, ids: Seq<AssetIdView>)
    requires
        distinct_ids(ids),
        no_name_collisions(env, ids),
    ensures
        spec_name_table(env, ids).len() == spec_asset_table(env, ids).len(),
        forall|k: int|
            0 <= k < spec_asset_table(env, ids).len() ==> #[trigger] spec_name_table(env, ids)[k]
                == (spec_asset_table(env, ids)[k].1, spec_asset_table(env, ids)[k].0),
    decreases ids.len(),
{
    if ids.len() > 0 {
        let rest = ids.drop_last();
        assert(distinct_ids(rest)) by {
            assert(forall|i: int, j: int|
                0 <= i < j < rest.len() ==> rest[i] == ids[i] && rest[j] == ids[j]);
        }
        assert(no_name_collisions(env, rest)) by {
            assert(forall|i: int| 0 <= i < rest.len() ==> rest[i] == ids[i]);
        }
        lemma_name_table_swap(env, rest);
        lemma_table_entries(env, rest);
        let m0 = spec_name_table(env, rest);
        let t0 = spec_asset_table(env, rest);
        if spec_resolve_id(env, ids.last()) is Ok {
            let n = spec_resolve_id(env, ids.last())->Ok_0;
            assert forall|k: int| 0 <= k < m0.len() implies (#[trigger] m0[k]).0 != n by {
                assert(m0[k] == (t0[k].1, t0[k].0));
                assert(rest.contains(t0[k].0));
                let j = choose|j: int| 0 <= j < rest.len() && rest[j] == t0[k].0;
                assert(ids[j] == t0[k].0);
                assert(spec_resolve_id(env, ids[j]) == Ok::<Seq<char>, UnresolvedReason>(
                    t0[k].1,
                ));
                assert(ids[ids.len() - 1] == ids.last());
                assert(j != ids.len() - 1) by {
                    if j == ids.len() - 1 {
                        assert(rest.contains(ids.last()));
                        let jj = choose|jj: int| 0 <= jj < rest.len() && rest[jj] == ids.last();
                        assert(ids[jj] == ids[ids.len() - 1]);
                    }
                }
                assert(spec_resolve_id(env, ids[j])->Ok_0 != spec_resolve_id(
                    env,
                    ids[ids.len() - 1],
                )->Ok_0);
            }
            lemma_name_index_absent(m0, n, 0);
            assert(upsert_name(m0, n, ids.last()) == m0.push((n, ids.last())));
            assert(spec_name_table(env, ids) == m0.push((n, ids.last())));
            assert(spec_asset_table(env, ids) == t0.push((ids.last(), n)));
        }
    }
}

/// Every identifier referenced by any pool ends up in exactly one of the
/// resolved-asset table's identifier column and the unresolved list --
/// provided no two distinct identifiers resolve to one name (a name
/// collision silently drops the overwritten identifier from the table).
pub proof fn lemma_asset_partition(
    env: EnvView,
    pairs: Seq<PoolPairView>,
    o: OutcomeView,
    a: AssetIdView,
)
    requires
        spec_normalize(env, pairs) == Ok::<OutcomeView, Seq<char>>(o),
        all_asset_ids(pairs).contains(a),
        no_name_collisions(env, dedup_ids(all_asset_ids(pairs))),
    ensures
        (exists|k: int|
            0 <= k < o.resolved_assets.len() && (#[trigger] o.resolved_assets[k]).1 == a) <==> !(
        exists|k: int| 0 <= k < o.unresolved.len() && (#[trigger] o.unresolved[k]).0 == a),
{
    let ids = dedup_ids(all_asset_ids(pairs));
    lemma_dedup_contains(all_asset_ids(pairs), a);
    lemma_dedup_distinct(all_asset_ids(pairs));
    assert(distinct_ids(ids));
    lemma_tables_characterize(env, ids, a);
    lemma_table_entries(env, ids);
    lemma_name_table_swap(env, ids);
    let t = spec_asset_table(env, ids);
    let m = spec_name_table(env, ids);
    assert(o.resolved_assets == m);
    assert(o.unresolved == spec_unresolved(env, ids));
    assert((exists|k: int| 0 <= k < m.len() && (#[trigger] m[k]).1 == a) <==> (exists|k: int|
        0 <= k < t.len() && #[trigger] t[k].0 == a)) by {
        if exists|k: int| 0 <= k < m.len() && (#[trigger] m[k]).1 == a {
            let k = choose|k: int| 0 <= k < m.len() && (#[trigger] m[k]).1 == a;
            assert(m[k] == (t[k].1, t[k].0));
            assert(t[k].0 == a);
        }
        if exists|k: int| 0 <= k < t.len() && #[trigger] t[k].0 == a {
            let k = choose|k: int| 0 <= k < t.len() && #[trigger] t[k].0 == a;
            assert(m[k] == (t[k].1, t[k].0));
        }
    }
}

/// A trace whose first path segment is not the transfer port resolves to
/// nothing, whatever any registry holds.
pub proof fn lemma_wrong_port_unresolvable(
    lists: Seq<crate::model::ChainAssetListView>,
    t: crate::model::DenomTraceView,
)
    requires
        crate::registry::first_segment(t.path) != crate::registry::transfer_port(),
    ensures
        crate::registry::spec_resolve_native(lists, Some(t)) is None,
{
}

/// Whether some record carries this pool id.
pub open spec fn pool_emitted(recs: Seq<crate::model::PoolRecordView>, pool_id: Seq<char>) -> bool {
    exists|k: int| 0 <= k < recs.len() && (#[trigger] recs[k]).pool_id == pool_id
}

/// No pool address occurs at two positions.
pub open spec fn distinct_pool_addrs(pairs: Seq<PoolPairView>) -> bool {
    forall|x: int, y: int|
        0 <= x < y < pairs.len() ==> (#[trigger] pairs[x]).contract_addr != (
        #[trigger] pairs[y]).contract_addr
}

proof fn lemma_pools_from_partition(
    dex: Seq<char>,
    t: Seq<(AssetIdView, Seq<char>)>,
    pairs: Seq<PoolPairView>,
    i: int,
)
    requires
        0 <= i <= pairs.len(),
        distinct_pool_addrs(pairs),
        crate::normalize::spec_pools_from(dex, t, pairs, i) is Ok,
    ensures
        ({
            let rs = crate::normalize::spec_pools_from(dex, t, pairs, i)->Ok_0;
            &&& forall|k: int|
                0 <= k < rs.0.len() ==> exists|j: int|
                    i <= j < pairs.len() && (#[trigger] rs.0[k]).pool_id == pairs[j].contract_addr
            &&& forall|k: int|
                0 <= k < rs.1.len() ==> exists|j: int|
                    i <= j < pairs.len() && #[trigger] rs.1[k] == pairs[j].contract_addr
            &&& forall|j: int|
                i <= j < pairs.len() ==> (pool_emitted(rs.0, (#[trigger] pairs[j]).contract_addr)
                    <==> !rs.1.contains(pairs[j].contract_addr))
            &&& forall|k1: int, k2: int|
                0 <= k1 < k2 < rs.0.len() ==> (#[trigger] rs.0[k1]).pool_id != (
                #[trigger] rs.0[k2]).pool_id
        }),
    decreases pairs.len() - i,
{
    let rs = crate::normalize::spec_pools_from(dex, t, pairs, i)->Ok_0;
    if i == pairs.len() {
        assert(rs.0.len() == 0 && rs.1.len() == 0);
        assert(forall|j: int|
            i <= j < pairs.len() ==> (pool_emitted(rs.0, (#[trigger] pairs[j]).contract_addr)
                <==> !rs.1.contains(pairs[j].contract_addr)));
    } else {
        lemma_pools_from_partition(dex, t, pairs, i + 1);
        let rest = crate::normalize::spec_pools_from(dex, t, pairs, i + 1)->Ok_0;
        let addr_i = pairs[i].contract_addr;
        // The address of pair i differs from every later pair's address,
        // hence from everything the tail stage emitted or skipped.
        assert forall|k: int| 0 <= k < rest.0.len() implies (#[trigger] rest.0[k]).pool_id
            != addr_i by {
            let j = choose|j: int|
                i + 1 <= j < pairs.len() && rest.0[k].pool_id == pairs[j].contract_addr;
            assert(pairs[i].contract_addr != pairs[j].contract_addr);
        }
        assert forall|k: int| 0 <= k < rest.1.len() implies #[trigger] rest.1[k] != addr_i by {
            let j = choose|j: int|
                i + 1 <= j < pairs.len() && rest.1[k] == pairs[j].contract_addr;
            assert(pairs[i].contract_addr != pairs[j].contract_addr);
        }
        if crate::normalize::pool_names_from(t, pairs[i].asset_infos, 0) is Some {
            assert(rs.1 == rest.1);
            assert(rs.0.len() == rest.0.len() + 1);
            assert(rs.0[0].pool_id == addr_i);
            assert(forall|k: int| 1 <= k < rs.0.len() ==> #[trigger] rs.0[k] == rest.0[k - 1]);
            assert forall|j: int| i <= j < pairs.len() implies (pool_emitted(
                rs.0,
                (#[trigger] pairs[j]).contract_addr,
            ) <==> !rs.1.contains(pairs[j].contract_addr)) by {
                if j == i {
                    assert(pool_emitted(rs.0, addr_i));
                    if rs.1.contains(addr_i) {
                        let k = choose|k: int| 0 <= k < rs.1.len() && rs.1[k] == addr_i;
                    }
                } else {
                    assert(pool_emitted(rs.0, pairs[j].contract_addr) <==> pool_emitted(
                        rest.0,
                        pairs[j].contract_addr,
                    )) by {
                        if pool_emitted(rs.0, pairs[j].contract_addr) {
                            let k = choose|k: int|
                                0 <= k < rs.0.len() && (#[trigger] rs.0[k]).pool_id
                                    == pairs[j].contract_addr;
                            if k == 0 {
                                assert(pairs[i].contract_addr == pairs[j].contract_addr);
                                assert(false);
                            } else {
                                assert(rest.0[k - 1].pool_id == pairs[j].contract_addr);
                            }
                        }
                        if pool_emitted(rest.0, pairs[j].contract_addr) {
                            let k = choose|k: int|
                                0 <= k < rest.0.len() && (#[trigger] rest.0[k]).pool_id
                                    == pairs[j].contract_addr;
                            assert(rs.0[k + 1].pool_id == pairs[j].contract_addr);
                        }
                    }
                }
            }
            assert forall|k: int| 0 <= k < rs.0.len() implies exists|j: int|
                i <= j < pairs.len() && (#[trigger] rs.0[k]).pool_id
                    == pairs[j].contract_addr by {
                if k == 0 {
                    assert(rs.0[0].pool_id == pairs[i].contract_addr);
                } else {
                    let j = choose|j: int|
                        i + 1 <= j < pairs.len() && rest.0[k - 1].pool_id
                            == pairs[j].contract_addr;
                    assert(rs.0[k].pool_id == pairs[j].contract_addr);
                }
            }
        } else {
            assert(rs.0 == rest.0);
            assert(rs.1.len() == rest.1.len() + 1);
            assert(rs.1[0] == addr_i);
            assert(forall|k: int| 1 <= k < rs.1.len() ==> #[trigger] rs.1[k] == rest.1[k - 1]);
            assert forall|j: int| i <= j < pairs.len() implies (pool_emitted(
                rs.0,
                (#[trigger] pairs[j]).contract_addr,
            ) <==> !rs.1.contains(pairs[j].contract_addr)) by {
                if j == i {
                    assert(rs.1[0] == addr_i);
                    assert(rs.1.contains(addr_i));
                    if pool_emitted(rs.0, addr_i) {
                        let k = choose|k: int|
                            0 <= k < rs.0.len() && (#[trigger] rs.0[k]).pool_id == addr_i;
                    }
                } else {
                    assert(rs.1.contains(pairs[j].contract_addr) <==> rest.1.contains(
                        pairs[j].contract_addr,
                    )) by {
                        if rs.1.contains(pairs[j].contract_addr) {
                            let k = choose|k: int|
                                0 <= k < rs.1.len() && rs.1[k] == pairs[j].contract_addr;
                            if k == 0 {
                                assert(pairs[i].contract_addr == pairs[j].contract_addr);
                                assert(false);
                            } else {
                                assert(rest.1[k - 1] == pairs[j].contract_addr);
                            }
                        }
                        if rest.1.contains(pairs[j].contract_addr) {
                            let k = choose|k: int|
                                0 <= k < rest.1.len() && rest.1[k] == pairs[j].contract_addr;
                            assert(rs.1[k + 1] == pairs[j].contract_addr);
                        }
                    }
                }
            }
            assert forall|k: int| 0 <= k < rs.1.len() implies exists|j: int|
                i <= j < pairs.len() && #[trigger] rs.1[k] == pairs[j].contract_addr by {
                if k == 0 {
                    assert(rs.1[0] == pairs[i].contract_addr);
                } else {
                    let j = choose|j: int|
                        i + 1 <= j < pairs.len() && rest.1[k - 1] == pairs[j].contract_addr;
                    assert(rs.1[k] == pairs[j].contract_addr);
                }
            }
        }
    }
}

/// No two emitted pool records share a pool id, and every input pool's id
/// lands in exactly one of the emitted records and the skipped list.
pub proof fn lemma_pool_partition(env: EnvView, pairs: Seq<PoolPairView>, o: OutcomeView)
    requires
        spec_normalize(env, pairs) == Ok::<OutcomeView, Seq<char>>(o),
        distinct_pool_addrs(pairs),
    ensures
        forall|k1: int, k2: int|
            0 <= k1 < k2 < o.resolved_pools.len() ==> (#[trigger] o.resolved_pools[k1]).pool_id
                != (#[trigger] o.resolved_pools[k2]).pool_id,
        forall|j: int|
            0 <= j < pairs.len() ==> (pool_emitted(
                o.resolved_pools,
                (#[trigger] pairs[j]).contract_addr,
            ) <==> !o.skipped_pools.contains(pairs[j].contract_addr)),
{
    let ids = dedup_ids(all_asset_ids(pairs));
    let t = spec_asset_table(env, ids);
    lemma_pools_from_partition(env.dex, t, pairs, 0);
    let rs = crate::normalize::spec_pools_from(env.dex, t, pairs, 0)->Ok_0;
    assert(o.resolved_pools == rs.0);
    assert(o.skipped_pools == rs.1);
}

proof fn lemma_pools_from_err(
    dex: Seq<char>,
    t: Seq<(AssetIdView, Seq<char>)>,
    pairs: Seq<PoolPairView>,
    i: int,
)
    requires
        0 <= i <= pairs.len(),
    ensures
        crate::normalize::spec_pools_from(dex, t, pairs, i) is Err <==> exists|j: int|
            i <= j < pairs.len() && (#[trigger] pairs[j]).pair_type is Custom,
    decreases pairs.len() - i,
{
    if i < pairs.len() {
        lemma_pools_from_err(dex, t, pairs, i + 1);
        if pairs[i].pair_type is Custom {
        } else {
            if exists|j: int| i <= j < pairs.len() && (#[trigger] pairs[j]).pair_type is Custom {
                let j = choose|j: int|
                    i <= j < pairs.len() && (#[trigger] pairs[j]).pair_type is Custom;
                assert(j != i);
                assert(i + 1 <= j < pairs.len() && pairs[j].pair_type is Custom);
            }
        }
    }
}

/// A pool whose declared pair type is outside the supported table aborts
/// the whole normalization, and nothing else does: the run errs exactly
/// when some input pool declares a custom type.
pub proof fn lemma_unsupported_pool_type(env: EnvView, pairs: Seq<PoolPairView>)
    ensures
        spec_normalize(env, pairs) is Err <==> exists|j: int|
            0 <= j < pairs.len() && (#[trigger] pairs[j]).pair_type is Custom,
{
    let ids = dedup_ids(all_asset_ids(pairs));
    lemma_pools_from_err(env.dex, spec_asset_table(env, ids), pairs, 0);
}

/// Normalization is a function of the pool set and the environment alone:
/// two runs on equal inputs return equal outcomes.
pub proof fn lemma_normalize_deterministic(
    env: EnvView,
    pairs: Seq<crate::model::PoolPairView>,
    r1: Result<OutcomeView, Seq<char>>,
    r2: Result<OutcomeView, Seq<char>>,
)
    requires
        r1 == spec_normalize(env, pairs),
        r2 == spec_normalize(env, pairs),
    ensures
        r1 == r2,
{
}

/// An empty pool list normalizes to empty collections, with no error.
pub proof fn lemma_normalize_empty(env: EnvView)
    ensures
        spec_normalize(env, Seq::<crate::model::PoolPairView>::empty()) == Ok::<
            OutcomeView,
            Seq<char>,
        >(
            OutcomeView {
                resolved_assets: Seq::empty(),
                resolved_pools: Seq::empty(),
                skipped_pools: Seq::empty(),
                unresolved: Seq::empty(),
            },
        ),
{
    let pairs = Seq::<crate::model::PoolPairView>::empty();
    assert(all_asset_ids(pairs) == Seq::<AssetIdView>::empty());
    assert(dedup_ids(all_asset_ids(pairs)) == Seq::<AssetIdView>::empty());
}

} // verus!
