//! The DEX scraper state: accumulates the paginated pair list, records the
//! chain's query answers, and rebuilds assets and pools from them.
//!
//! The caller drives the loop: it asks for the next cursor, performs the
//! factory query, and hands the page back; every decision in between is
//! made here.

use vstd::prelude::*;

use crate::model::{
    AssetIdentifier, DenomTrace, PoolPair, PoolRecord,
};
use crate::normalize::{
    all_asset_ids, build_pools, build_tables, collect_unique_assets, dedup_ids, ids_view,
    names_view, pairs_view, records_view, spec_asset_table, spec_name_table, spec_pools_from,
    table_view, PipelineError, ResolutionEnv, TokenMetadata, TokenNameSource, TokenQuery,
    TraceQuery,
};
use crate::registry::ChainRegistry;

verus! {

/// The identity of a DEX a scraper works against.
pub trait DexId {
    fn dex_id(&self) -> &'static str;
}

/// Scraper for the Astroport factory: holds the naming configuration, the
/// loaded registry, the pages fetched so far and the resolution table.
pub struct AstroportScraper {
    /// Naming configuration, registry cache and recorded chain answers.
    pub env: ResolutionEnv,
    /// Every pair accumulated over the pagination so far.
    pub pairs: Vec<PoolPair>,
    /// Whether an empty page has ended the pagination.
    pub pagination_done: bool,
    /// Identifier-to-name table, filled by [`Self::fetch_asset_infos`].
    pub asset_info_to_name: Vec<(AssetIdentifier, String)>,
}

impl DexId for AstroportScraper {
    fn dex_id(&self) -> &'static str {
        "astroport"
    }
}

impl AstroportScraper {
    /// A fresh scraper over a loaded registry: no pages fetched, no
    /// queries recorded, token names taken from the symbol field.
    pub fn new(chain_ans_prefix: &str, chain_registry: ChainRegistry) -> (r: Self)
        ensures
            r.env.ans_prefix@ == chain_ans_prefix@,
            r.env.dex@ == "astroport"@,
            r.env.registry == chain_registry,
            r.env.traces@.len() == 0,
            r.env.tokens@.len() == 0,
            r.env.name_source == TokenNameSource::Symbol,
            r.pairs@.len() == 0,
            !r.pagination_done,
            r.asset_info_to_name@.len() == 0,
    {
        AstroportScraper {
            env: ResolutionEnv {
                ans_prefix: String::from_str(chain_ans_prefix),
                dex: String::from_str("astroport"),
                registry: chain_registry,
                traces: Vec::new(),
                tokens: Vec::new(),
                name_source: TokenNameSource::Symbol,
            },
            pairs: Vec::new(),
            pagination_done: false,
            asset_info_to_name: Vec::new(),
        }
    }

    /// Record the outcome of one transfer-trace lookup (`None`: the
    /// lookup failed; the denomination counts as untraced).
    pub fn record_trace(&mut self, denom: String, trace: Option<DenomTrace>)
        ensures
            final(self).env.traces@ == old(self).env.traces@.push(TraceQuery { denom, trace }),
            final(self).env.ans_prefix == old(self).env.ans_prefix,
            final(self).env.dex == old(self).env.dex,
            final(self).env.registry == old(self).env.registry,
            final(self).env.tokens == old(self).env.tokens,
            final(self).env.name_source == old(self).env.name_source,
            final(self).pairs == old(self).pairs,
            final(self).pagination_done == old(self).pagination_done,
            final(self).asset_info_to_name == old(self).asset_info_to_name,
    {
        self.env.traces.push(TraceQuery { denom, trace });
    }

    /// Record the outcome of one token-metadata query (`None`: the query
    /// failed; the contract counts as unreadable).
    pub fn record_token(&mut self, address: String, metadata: Option<TokenMetadata>)
        ensures
            final(self).env.tokens@ == old(self).env.tokens@.push(
                TokenQuery { address, metadata },
            ),
            final(self).env.ans_prefix == old(self).env.ans_prefix,
            final(self).env.dex == old(self).env.dex,
            final(self).env.registry == old(self).env.registry,
            final(self).env.traces == old(self).env.traces,
            final(self).env.name_source == old(self).env.name_source,
            final(self).pairs == old(self).pairs,
            final(self).pagination_done == old(self).pagination_done,
            final(self).asset_info_to_name == old(self).asset_info_to_name,
    {
        self.env.tokens.push(TokenQuery { address, metadata });
    }

    /// The pagination cursor for the next factory query: the asset set of
    /// the last pair fetched, or nothing before the first page.
    pub fn start_after(&self) -> (r: Option<Vec<AssetIdentifier>>)
        ensures
            match r {
                None => self.pairs@.len() == 0,
                Some(c) => self.pairs@.len() > 0 && ids_view(c@) == self.pairs@.last()@
                    .asset_infos,
            },
    {
        if self.pairs.len() == 0 {
            return None;
        }
        let last = &self.pairs[self.pairs.len() - 1];
        let mut cursor: Vec<AssetIdentifier> = Vec::new();
        let n = last.asset_infos.len();
        let mut i: usize = 0;
        while i < n
            invariant
                n == last.asset_infos.len(),
                i <= n,
                cursor@.len() == i,
                forall|j: int| 0 <= j < i ==> cursor@[j] == last.asset_infos@[j],
            decreases n - i,
        {
            cursor.push(last.asset_infos[i].clone());
            i = i + 1;
        }
        proof {
            assert(ids_view(cursor@) =~= last@.asset_infos);
        }
        Some(cursor)
    }

    /// One pagination step: hand in the page the factory returned for the
    /// current cursor. An empty page ends the pagination; any other page
    /// is appended whole.
    pub fn ingest_page(&mut self, page: Vec<PoolPair>) -> (done: bool)
        requires
            !old(self).pagination_done,
        ensures
            done == (page@.len() == 0),
            final(self).pagination_done == done,
            final(self).pairs@ == old(self).pairs@ + page@,
            final(self).env == old(self).env,
            final(self).asset_info_to_name == old(self).asset_info_to_name,
    {
        let mut page = page;
        if page.is_empty() {
            self.pagination_done = true;
            proof {
                assert(self.pairs@ =~= self.pairs@ + page@);
            }
            true
        } else {
            self.pairs.append(&mut page);
            false
        }
    }

    /// The accumulated pair list.
    pub fn all_pairs(&self) -> (r: &Vec<PoolPair>)
        ensures
            r == &self.pairs,
    {
        &self.pairs
    }

    /// The unique asset identifiers over all accumulated pairs, first
    /// occurrences first.
    pub fn all_asset_infos(&self) -> (r: Vec<AssetIdentifier>)
        ensures
            ids_view(r@) == dedup_ids(all_asset_ids(pairs_view(self.pairs@))),
    {
        collect_unique_assets(&self.pairs)
    }

    /// Resolve every unique asset against the recorded answers: fills the
    /// identifier-to-name table and returns the asset entries to add,
    /// name first.
    pub fn fetch_asset_infos(&mut self) -> (r: Vec<(String, AssetIdentifier)>)
        ensures
            ({
                let ids = dedup_ids(all_asset_ids(pairs_view(old(self).pairs@)));
                &&& table_view(final(self).asset_info_to_name@) == spec_asset_table(
                    old(self).env@,
                    ids,
                )
                &&& names_view(r@) == spec_name_table(old(self).env@, ids)
            }),
            final(self).env == old(self).env,
            final(self).pairs == old(self).pairs,
            final(self).pagination_done == old(self).pagination_done,
    {
        let ids = collect_unique_assets(&self.pairs);
        let (table, names, _unresolved) = build_tables(&self.env, &ids);
        self.asset_info_to_name = table;
        names
    }

    /// There are no staking contracts to register for this DEX.
    pub fn fetch_staking_contracts(&self) -> (r: Vec<(String, String)>)
        ensures
            r@.len() == 0,
    {
        Vec::new()
    }

    /// Rebuild every accumulated pair over the filled identifier-to-name
    /// table; pools with any unresolved asset are dropped, the first
    /// unsupported pair type aborts.
    pub fn fetch_dex_pools(&self) -> (r: Result<Vec<PoolRecord>, PipelineError>)
        ensures
            match r {
                Ok(p) => spec_pools_from(
                    self.env.dex@,
                    table_view(self.asset_info_to_name@),
                    pairs_view(self.pairs@),
                    0,
                ) matches Ok(rs) && records_view(p@) == rs.0,
                Err(e) => e matches PipelineError::UnsupportedPoolType { kind }
                    && spec_pools_from(
                    self.env.dex@,
                    table_view(self.asset_info_to_name@),
                    pairs_view(self.pairs@),
                    0,
                ) matches Err(k) && k == kind@,
            },
    {
        match build_pools(&self.env.dex, &self.asset_info_to_name, &self.pairs) {
            Ok(ps) => Ok(ps.0),
            Err(e) => Err(e),
        }
    }
}

} // verus!
