use ans_scraper::{
    address_from_document, ans_name, encode_chain_asset_list, factory_address, normalize,
    parse_chain_asset_list, resolve_asset, to_ans_lowercase, AssetIdentifier, AstroportScraper,
    ChainAssetEntry, ChainAssetList, ChainRegistry, DenomTrace, DenomUnit, DexId, PairType,
    PipelineError, PoolPair, PoolType, ResolutionEnv, TokenMetadata, TokenNameSource, TokenQuery,
    TraceQuery, UnresolvedReason,
};

fn s(x: &str) -> String {
    x.to_string()
}

fn unit(d: &str) -> DenomUnit {
    DenomUnit { denom: s(d) }
}

fn entry(symbol: &str, denoms: &[&str]) -> ChainAssetEntry {
    ChainAssetEntry {
        symbol: s(symbol),
        denom_units: denoms.iter().map(|d| unit(d)).collect(),
    }
}

fn list(chain: &str, entries: Vec<ChainAssetEntry>) -> ChainAssetList {
    ChainAssetList {
        chain_name: s(chain),
        assets: entries,
    }
}

fn native(denom: &str) -> AssetIdentifier {
    AssetIdentifier::NativeDenom { denom: s(denom) }
}

fn token(addr: &str) -> AssetIdentifier {
    AssetIdentifier::ContractToken { address: s(addr) }
}

fn pool(addr: &str, pair_type: PairType, assets: Vec<AssetIdentifier>) -> PoolPair {
    PoolPair {
        contract_addr: s(addr),
        pair_type,
        asset_infos: assets,
    }
}

fn trace(denom: &str, path: &str, base: &str) -> TraceQuery {
    TraceQuery {
        denom: s(denom),
        trace: Some(DenomTrace {
            path: s(path),
            base_denom: s(base),
        }),
    }
}

fn persistence_registry() -> ChainRegistry {
    ChainRegistry::new(vec![
        list("osmosis", vec![entry("OSMO", &["uosmo"])]),
        list("Persistence", vec![entry("XPRT", &["uxprt"])]),
    ])
}

fn env_with(traces: Vec<TraceQuery>, tokens: Vec<TokenQuery>) -> ResolutionEnv {
    ResolutionEnv {
        ans_prefix: s("terra2"),
        dex: s("astroport"),
        registry: persistence_registry(),
        traces,
        tokens,
        name_source: TokenNameSource::Symbol,
    }
}

fn id_name(id: &AssetIdentifier) -> String {
    match id {
        AssetIdentifier::ContractToken { address } => format!("cw20:{}", address),
        AssetIdentifier::NativeDenom { denom } => format!("native:{}", denom),
    }
}

#[test]
fn lowercase_is_ascii_only() {
    assert_eq!(to_ans_lowercase("XPRT"), "xprt");
    assert_eq!(to_ans_lowercase("aXy-9Z"), "axy-9z");
    assert_eq!(to_ans_lowercase(""), "");
}

#[test]
fn ans_name_keeps_prefix_and_lowers_symbol() {
    assert_eq!(ans_name("terra2", "ASTRO"), "terra2>astro");
    assert_eq!(ans_name("Chain", "tOkEn"), "Chain>token");
}

#[test]
fn scenario_native_denom_resolves_via_registry() {
    // A traced denom with a transfer path whose base denom one chain claims.
    let reg = persistence_registry();
    let t = DenomTrace {
        path: s("transfer/channel-4"),
        base_denom: s("uxprt"),
    };
    let r = reg.resolve_native_asset(Some(&t));
    assert_eq!(r, Some(s("persistence>xprt")));
}

#[test]
fn scenario_non_transfer_port_is_unresolvable() {
    // First path segment is icahost, not transfer: no resolution, whatever
    // the registry holds.
    let reg = persistence_registry();
    let t = DenomTrace {
        path: s("icahost/channel-7"),
        base_denom: s("uxprt"),
    };
    assert_eq!(reg.resolve_native_asset(Some(&t)), None);
}

#[test]
fn failed_trace_lookup_is_unresolvable() {
    let reg = persistence_registry();
    assert_eq!(reg.resolve_native_asset(None), None);
}

#[test]
fn multi_hop_path_checks_first_segment_only() {
    let reg = persistence_registry();
    let t = DenomTrace {
        path: s("transfer/channel-4/transfer/channel-9"),
        base_denom: s("uxprt"),
    };
    assert_eq!(reg.resolve_native_asset(Some(&t)), Some(s("persistence>xprt")));
}

#[test]
fn asset_by_denom_scans_all_aliases() {
    let reg = ChainRegistry::new(vec![list(
        "juno",
        vec![entry("JUNO", &["ujuno", "juno-micro"])],
    )]);
    let hit = reg.asset_by_denom(s("juno-micro")).expect("alias must match");
    assert_eq!(hit.symbol, "JUNO");
    assert!(reg.asset_by_denom(s("ujunox")).is_none());
}

#[test]
fn first_matching_chain_wins() {
    // Two chains claim the same base denom: the first in scan order is
    // authoritative.
    let reg = ChainRegistry::new(vec![
        list("chaina", vec![entry("AAA", &["udup"])]),
        list("chainb", vec![entry("BBB", &["udup"])]),
    ]);
    let t = DenomTrace {
        path: s("transfer/channel-0"),
        base_denom: s("udup"),
    };
    assert_eq!(reg.resolve_native_asset(Some(&t)), Some(s("chaina>aaa")));
}

#[test]
fn token_resolution_uses_symbol_or_name() {
    let meta = TokenMetadata {
        symbol: s("ASTRO"),
        name: s("Astroport Token"),
    };
    let mut env = env_with(
        vec![],
        vec![TokenQuery {
            address: s("terra1token"),
            metadata: Some(meta),
        }],
    );
    let id = token("terra1token");
    assert_eq!(resolve_asset(&env, &id), Ok(s("terra2>astro")));
    env.name_source = TokenNameSource::TokenName;
    assert_eq!(resolve_asset(&env, &id), Ok(s("terra2>astroport token")));
}

#[test]
fn failed_token_query_is_query_failed() {
    let env = env_with(
        vec![],
        vec![TokenQuery {
            address: s("terra1broken"),
            metadata: None,
        }],
    );
    assert_eq!(
        resolve_asset(&env, &token("terra1broken")),
        Err(UnresolvedReason::QueryFailed)
    );
    // An address never queried counts as failed too.
    assert_eq!(
        resolve_asset(&env, &token("terra1unknown")),
        Err(UnresolvedReason::QueryFailed)
    );
}

#[test]
fn empty_pool_list_yields_empty_outcome() {
    let env = env_with(vec![], vec![]);
    let out = normalize(&env, &vec![]).expect("empty input may not fail");
    assert!(out.resolved_assets.is_empty());
    assert!(out.resolved_pools.is_empty());
    assert!(out.skipped_pools.is_empty());
    assert!(out.unresolved.is_empty());
}

#[test]
fn normalize_builds_assets_and_pools() {
    let env = env_with(
        vec![trace("ibc/ABCD", "transfer/channel-4", "uxprt")],
        vec![TokenQuery {
            address: s("terra1astro"),
            metadata: Some(TokenMetadata {
                symbol: s("ASTRO"),
                name: s("Astroport Token"),
            }),
        }],
    );
    let pools = vec![pool(
        "terra1pool1",
        PairType::Xyk,
        vec![native("ibc/ABCD"), token("terra1astro")],
    )];
    let out = normalize(&env, &pools).expect("all assets resolve");
    let names: Vec<&str> = out
        .resolved_assets
        .iter()
        .map(|(n, _)| n.as_str())
        .collect();
    assert_eq!(names, vec!["persistence>xprt", "terra2>astro"]);
    assert_eq!(out.resolved_pools.len(), 1);
    let rec = &out.resolved_pools[0];
    assert_eq!(rec.pool_id, "terra1pool1");
    assert_eq!(rec.metadata.dex, "astroport");
    assert_eq!(rec.metadata.pool_type, PoolType::ConstantProduct);
    assert_eq!(
        rec.metadata.assets,
        vec![s("persistence>xprt"), s("terra2>astro")]
    );
    assert!(out.skipped_pools.is_empty());
    assert!(out.unresolved.is_empty());
}

#[test]
fn pool_type_table_is_fixed() {
    let env = env_with(vec![trace("ibc/X", "transfer/channel-0", "uxprt")], vec![]);
    for (pt, want) in [
        (PairType::Stable, PoolType::Stable),
        (PairType::Xyk, PoolType::ConstantProduct),
        (PairType::Concentrated, PoolType::Weighted),
    ] {
        let pools = vec![pool("terra1p", pt, vec![native("ibc/X")])];
        let out = normalize(&env, &pools).unwrap();
        assert_eq!(out.resolved_pools[0].metadata.pool_type, want);
    }
}

#[test]
fn scenario_custom_pool_type_aborts_run() {
    // One custom-typed pool aborts the whole normalization: no partial
    // output at all.
    let env = env_with(vec![trace("ibc/X", "transfer/channel-0", "uxprt")], vec![]);
    let pools = vec![
        pool("terra1good", PairType::Xyk, vec![native("ibc/X")]),
        pool(
            "terra1bad",
            PairType::Custom { kind: s("custom") },
            vec![native("ibc/X")],
        ),
    ];
    match normalize(&env, &pools) {
        Err(PipelineError::UnsupportedPoolType { kind }) => assert_eq!(kind, "custom"),
        other => panic!("expected UnsupportedPoolType, got {:?}", other.is_ok()),
    }
}

#[test]
fn scenario_shared_resolved_asset_with_failing_partners() {
    // Two pools share one resolved asset; each has another asset that
    // fails. Both pools are skipped; the shared asset appears once.
    let env = env_with(vec![trace("ibc/GOOD", "transfer/channel-1", "uxprt")], vec![]);
    let pools = vec![
        pool(
            "terra1poolA",
            PairType::Xyk,
            vec![native("ibc/GOOD"), token("terra1deadbeef")],
        ),
        pool(
            "terra1poolB",
            PairType::Stable,
            vec![native("ibc/GOOD"), native("untraced")],
        ),
    ];
    let out = normalize(&env, &pools).expect("asset failures do not abort");
    assert_eq!(out.resolved_pools.len(), 0);
    assert_eq!(out.skipped_pools, vec![s("terra1poolA"), s("terra1poolB")]);
    assert_eq!(out.resolved_assets.len(), 1);
    assert_eq!(out.resolved_assets[0].0, "persistence>xprt");
    assert!(out.resolved_assets[0].1.matches(&native("ibc/GOOD")));
    // The two failing assets land in unresolved, each with its reason.
    assert_eq!(out.unresolved.len(), 2);
    let mut reasons: Vec<(String, UnresolvedReason)> = out
        .unresolved
        .iter()
        .map(|(id, r)| (id_name(id), *r))
        .collect();
    reasons.sort();
    assert_eq!(
        reasons,
        vec![
            (s("cw20:terra1deadbeef"), UnresolvedReason::QueryFailed),
            (s("native:untraced"), UnresolvedReason::Unresolvable),
        ]
    );
}

#[test]
fn every_input_asset_lands_in_exactly_one_collection() {
    let env = env_with(
        vec![
            trace("ibc/GOOD", "transfer/channel-1", "uxprt"),
            trace("ibc/ICA", "icahost/channel-2", "uosmo"),
        ],
        vec![],
    );
    let pools = vec![
        pool(
            "terra1p1",
            PairType::Xyk,
            vec![native("ibc/GOOD"), native("ibc/ICA")],
        ),
        pool(
            "terra1p2",
            PairType::Stable,
            vec![native("ibc/GOOD"), native("nosuch")],
        ),
    ];
    let out = normalize(&env, &pools).unwrap();
    for id in [native("ibc/GOOD"), native("ibc/ICA"), native("nosuch")] {
        let in_resolved = out.resolved_assets.iter().any(|(_, x)| x.matches(&id));
        let in_unresolved = out.unresolved.iter().any(|(x, _)| x.matches(&id));
        assert!(
            in_resolved != in_unresolved,
            "asset {} must land in exactly one collection",
            id_name(&id)
        );
    }
}

#[test]
fn pool_ids_partition_between_emitted_and_skipped() {
    let env = env_with(vec![trace("ibc/GOOD", "transfer/channel-1", "uxprt")], vec![]);
    let pools = vec![
        pool("terra1ok", PairType::Xyk, vec![native("ibc/GOOD")]),
        pool(
            "terra1skip",
            PairType::Stable,
            vec![native("ibc/GOOD"), native("nosuch")],
        ),
    ];
    let out = normalize(&env, &pools).unwrap();
    let emitted: Vec<&str> = out
        .resolved_pools
        .iter()
        .map(|r| r.pool_id.as_str())
        .collect();
    assert_eq!(emitted, vec!["terra1ok"]);
    assert_eq!(out.skipped_pools, vec![s("terra1skip")]);
    for p in &pools {
        let e = emitted.contains(&p.contract_addr.as_str());
        let k = out.skipped_pools.contains(&p.contract_addr);
        assert!(e != k, "pool {} in exactly one of the two", p.contract_addr);
    }
}

#[test]
fn normalization_is_deterministic() {
    let env = env_with(
        vec![trace("ibc/GOOD", "transfer/channel-1", "uxprt")],
        vec![TokenQuery {
            address: s("terra1astro"),
            metadata: Some(TokenMetadata {
                symbol: s("ASTRO"),
                name: s("Astroport Token"),
            }),
        }],
    );
    let pools = vec![
        pool(
            "terra1p1",
            PairType::Xyk,
            vec![native("ibc/GOOD"), token("terra1astro")],
        ),
        pool("terra1p2", PairType::Stable, vec![native("nosuch")]),
    ];
    let a = normalize(&env, &pools).unwrap();
    let b = normalize(&env, &pools).unwrap();
    assert_eq!(a.resolved_assets.len(), b.resolved_assets.len());
    for (x, y) in a.resolved_assets.iter().zip(b.resolved_assets.iter()) {
        assert_eq!(x.0, y.0);
        assert!(x.1.matches(&y.1));
    }
    assert_eq!(a.resolved_pools.len(), b.resolved_pools.len());
    for (x, y) in a.resolved_pools.iter().zip(b.resolved_pools.iter()) {
        assert_eq!(x.pool_id, y.pool_id);
        assert_eq!(x.metadata.dex, y.metadata.dex);
        assert_eq!(x.metadata.pool_type, y.metadata.pool_type);
        assert_eq!(x.metadata.assets, y.metadata.assets);
    }
    assert_eq!(a.skipped_pools, b.skipped_pools);
}

#[test]
fn name_collision_keeps_later_identifier() {
    // Two distinct contracts resolving to one name: the later one
    // overwrites the earlier in the name table, which keeps names unique.
    let meta = || TokenMetadata {
        symbol: s("SAME"),
        name: s("Same"),
    };
    let env = env_with(
        vec![],
        vec![
            TokenQuery { address: s("terra1one"), metadata: Some(meta()) },
            TokenQuery { address: s("terra1two"), metadata: Some(meta()) },
        ],
    );
    let pools = vec![pool(
        "terra1p",
        PairType::Xyk,
        vec![token("terra1one"), token("terra1two")],
    )];
    let out = normalize(&env, &pools).unwrap();
    assert_eq!(out.resolved_assets.len(), 1);
    assert_eq!(out.resolved_assets[0].0, "terra2>same");
    assert!(out.resolved_assets[0].1.matches(&token("terra1two")));
}

#[test]
fn cache_round_trip_is_identity() {
    let l = list(
        "persistence",
        vec![
            entry("XPRT", &["uxprt", "xprt-micro"]),
            entry("STK", &[]),
        ],
    );
    let text = encode_chain_asset_list(&l);
    let back = parse_chain_asset_list(&text).expect("written cache must reload");
    assert_eq!(back.chain_name, l.chain_name);
    assert_eq!(back.assets.len(), l.assets.len());
    for (x, y) in back.assets.iter().zip(l.assets.iter()) {
        assert_eq!(x.symbol, y.symbol);
        let xd: Vec<&str> = x.denom_units.iter().map(|u| u.denom.as_str()).collect();
        let yd: Vec<&str> = y.denom_units.iter().map(|u| u.denom.as_str()).collect();
        assert_eq!(xd, yd);
    }
}

#[test]
fn cache_format_is_stable_text() {
    let l = list("osmosis", vec![entry("OSMO", &["uosmo"])]);
    assert_eq!(
        encode_chain_asset_list(&l),
        "{\"chain_name\":\"osmosis\",\"assets\":[{\"symbol\":\"OSMO\",\"denom_units\":[{\"denom\":\"uosmo\"}]}]}"
    );
}

#[test]
fn cache_rejects_foreign_text() {
    assert!(parse_chain_asset_list("").is_none());
    assert!(parse_chain_asset_list("{\"chain\":\"x\"}").is_none());
    let l = list("osmosis", vec![entry("OSMO", &["uosmo"])]);
    let mut text = encode_chain_asset_list(&l);
    text.push(' ');
    assert!(parse_chain_asset_list(&text).is_none(), "trailing garbage must fail");
}

#[test]
fn address_document_tolerates_loose_json() {
    let doc = "{\n  \"factory_address\": \"terra1factory\",\n  \"router_address\": \"terra1router\",\n  \"generator\": \"https://example.com/x\",\n}\n";
    assert_eq!(
        address_from_document(doc, "factory_address"),
        Some(s("terra1factory"))
    );
    assert_eq!(
        address_from_document(doc, "router_address"),
        Some(s("terra1router"))
    );
    // A line with two colons (the URL) yields no pair.
    assert_eq!(address_from_document(doc, "generator"), None);
    assert_eq!(address_from_document(doc, "missing"), None);
}

#[test]
fn missing_factory_address_is_unknown_network() {
    let doc = "{\n  \"factory_address\": \"terra1factory\"\n}";
    assert_eq!(factory_address(doc).unwrap(), "terra1factory");
    let bare = "{\n  \"router_address\": \"terra1router\"\n}";
    assert!(matches!(
        factory_address(bare),
        Err(PipelineError::UnknownNetwork)
    ));
}

#[test]
fn address_document_last_entry_wins() {
    let doc = "\"k\": \"first\",\n\"k\": \"second\"";
    assert_eq!(address_from_document(doc, "k"), Some(s("second")));
}

#[test]
fn scraper_paginates_until_empty_page() {
    let mut sc = AstroportScraper::new("terra2", persistence_registry());
    assert_eq!(sc.dex_id(), "astroport");
    assert!(sc.start_after().is_none());
    let done = sc.ingest_page(vec![
        pool("terra1p1", PairType::Xyk, vec![native("uluna"), native("uusd")]),
        pool("terra1p2", PairType::Stable, vec![native("uusd")]),
    ]);
    assert!(!done);
    let cursor = sc.start_after().expect("cursor after a page");
    assert_eq!(cursor.len(), 1);
    assert!(cursor[0].matches(&native("uusd")));
    let done = sc.ingest_page(vec![]);
    assert!(done);
    assert_eq!(sc.all_pairs().len(), 2);
    let uniq = sc.all_asset_infos();
    assert_eq!(uniq.len(), 2);
    assert!(uniq[0].matches(&native("uluna")));
    assert!(uniq[1].matches(&native("uusd")));
}

#[test]
fn scraper_resolves_assets_and_rebuilds_pools() {
    let mut sc = AstroportScraper::new("terra2", persistence_registry());
    sc.ingest_page(vec![pool(
        "terra1pool",
        PairType::Xyk,
        vec![native("ibc/ABCD"), token("terra1astro")],
    )]);
    sc.ingest_page(vec![]);
    sc.record_trace(
        s("ibc/ABCD"),
        Some(DenomTrace {
            path: s("transfer/channel-4"),
            base_denom: s("uxprt"),
        }),
    );
    sc.record_token(
        s("terra1astro"),
        Some(TokenMetadata {
            symbol: s("ASTRO"),
            name: s("Astroport Token"),
        }),
    );
    let assets = sc.fetch_asset_infos();
    let names: Vec<&str> = assets.iter().map(|(n, _)| n.as_str()).collect();
    assert_eq!(names, vec!["persistence>xprt", "terra2>astro"]);
    assert!(sc.fetch_staking_contracts().is_empty());
    let pools = sc.fetch_dex_pools().expect("supported pool types only");
    assert_eq!(pools.len(), 1);
    assert_eq!(pools[0].pool_id, "terra1pool");
    assert_eq!(
        pools[0].metadata.assets,
        vec![s("persistence>xprt"), s("terra2>astro")]
    );
}
