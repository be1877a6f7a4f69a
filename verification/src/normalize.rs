//! The asset/pool normalizer: deduplicates the raw asset identifiers of a
//! pair list, resolves each through the registry or the token-metadata
//! lookups, and rebuilds every pool's metadata over resolved names only.
//!
//! All chain answers (transfer traces, token metadata) are handed in as
//! plain values, so a normalization run is a function of its inputs alone.

use vstd::prelude::*;

use crate::model::{
    spec_ans_name, ans_name, AssetIdView, AssetIdentifier, ChainAssetListView, DenomTrace,
    DenomTraceView, PairType, PairTypeView, PoolMetadata, PoolMetadataView, PoolPair,
    PoolPairView, PoolRecord, PoolRecordView, PoolType, UnresolvedReason,
};
use crate::registry::{spec_resolve_native, ChainRegistry};

verus! {

/// Token metadata as the token's own contract reports it.
pub struct TokenMetadata {
    pub symbol: String,
    pub name: String,
}

/// Mathematical image of a [`TokenMetadata`].
pub struct TokenMetadataView {
    pub symbol: Seq<char>,
    pub name: Seq<char>,
}

impl View for TokenMetadata {
    type V = TokenMetadataView;

    open spec fn view(&self) -> TokenMetadataView {
        TokenMetadataView { symbol: self.symbol@, name: self.name@ }
    }
}

/// Which token metadata field forms the canonical name suffix.
#[derive(Clone, Copy, PartialEq, Eq, Structural, Debug)]
pub enum TokenNameSource {
    Symbol,
    TokenName,
}

/// The recorded outcome of one token-metadata query: `None` when the
/// contract could not be queried or does not answer the metadata query.
pub struct TokenQuery {
    pub address: String,
    pub metadata: Option<TokenMetadata>,
}

impl View for TokenQuery {
    type V = (Seq<char>, Option<TokenMetadataView>);

    open spec fn view(&self) -> (Seq<char>, Option<TokenMetadataView>) {
        (
            self.address@,
            match self.metadata {
                Some(ref m) => Some(m@),
                None => None,
            },
        )
    }
}

/// The recorded outcome of one transfer-trace lookup: `None` when the
/// lookup failed (the denomination is not a traced asset).
pub struct TraceQuery {
    pub denom: String,
    pub trace: Option<DenomTrace>,
}

impl View for TraceQuery {
    type V = (Seq<char>, Option<DenomTraceView>);

    open spec fn view(&self) -> (Seq<char>, Option<DenomTraceView>) {
        (
            self.denom@,
            match self.trace {
                Some(ref t) => Some(t@),
                None => None,
            },
        )
    }
}

/// Everything a normalization run resolves against: the naming
/// configuration, the loaded registry cache, and the recorded chain
/// answers.
pub struct ResolutionEnv {
    /// Prefix of token-contract names, used as given (not lowercased).
    pub ans_prefix: String,
    /// The dex tag stamped on every emitted pool record.
    pub dex: String,
    /// The loaded registry cache.
    pub registry: ChainRegistry,
    /// Transfer-trace lookup outcomes, keyed by denomination.
    pub traces: Vec<TraceQuery>,
    /// Token-metadata query outcomes, keyed by contract address.
    pub tokens: Vec<TokenQuery>,
    /// Which token metadata field names the token.
    pub name_source: TokenNameSource,
}

/// Mathematical image of a [`ResolutionEnv`].
pub struct EnvView {
    pub ans_prefix: Seq<char>,
    pub dex: Seq<char>,
    pub lists: Seq<ChainAssetListView>,
    pub traces: Seq<(Seq<char>, Option<DenomTraceView>)>,
    pub tokens: Seq<(Seq<char>, Option<TokenMetadataView>)>,
    pub name_source: TokenNameSource,
}

impl View for ResolutionEnv {
    type V = EnvView;

    open spec fn view(&self) -> EnvView {
        EnvView {
            ans_prefix: self.ans_prefix@,
            dex: self.dex@,
            lists: self.registry@,
            traces: self.traces@.map_values(|q: TraceQuery| q@),
            tokens: self.tokens@.map_values(|q: TokenQuery| q@),
            name_source: self.name_source,
        }
    }
}

/// The trace recorded for `denom` at or after position `i`: a missing key
/// and a recorded failure collapse to `None`.
pub open spec fn trace_for(
    traces: Seq<(Seq<char>, Option<DenomTraceView>)>,
    denom: Seq<char>,
    i: int,
) -> Option<DenomTraceView>
    decreases traces.len() - i,
{
    if !(0 <= i < traces.len()) {
        None
    } else if traces[i].0 == denom {
        traces[i].1
    } else {
        trace_for(traces, denom, i + 1)
    }
}

/// The token metadata recorded for `address` at or after position `i`: a
/// missing key and a recorded failure collapse to `None`.
pub open spec fn token_for(
    tokens: Seq<(Seq<char>, Option<TokenMetadataView>)>,
    address: Seq<char>,
    i: int,
) -> Option<TokenMetadataView>
    decreases tokens.len() - i,
{
    if !(0 <= i < tokens.len()) {
        None
    } else if tokens[i].0 == address {
        tokens[i].1
    } else {
        token_for(tokens, address, i + 1)
    }
}

/// The metadata field that names a token under the configured source.
pub open spec fn token_field(m: TokenMetadataView, source: TokenNameSource) -> Seq<char> {
    match source {
        TokenNameSource::Symbol => m.symbol,
        TokenNameSource::TokenName => m.name,
    }
}

/// What one raw identifier resolves to under `env`: a canonical name, or
/// the reason it stays unresolved. A token resolves exactly when its
/// metadata query succeeded; a native denomination exactly when its trace
/// lookup succeeded, the trace's first path segment is the transfer port,
/// and some registry row claims its base denomination.
pub open spec fn spec_resolve_id(env: EnvView, a: AssetIdView) -> Result<
    Seq<char>,
    UnresolvedReason,
> {
    match a {
        AssetIdView::Contract { address } => match token_for(env.tokens, address, 0) {
            None => Err(UnresolvedReason::QueryFailed),
            Some(m) => Ok(spec_ans_name(env.ans_prefix, token_field(m, env.name_source))),
        },
        AssetIdView::Native { denom } => match spec_resolve_native(
            env.lists,
            trace_for(env.traces, denom, 0),
        ) {
            None => Err(UnresolvedReason::Unresolvable),
            Some(n) => Ok(n),
        },
    }
}

/// Find the recorded trace for `denom`.
fn trace_lookup<'a>(traces: &'a Vec<TraceQuery>, denom: &String) -> (r: Option<&'a DenomTrace>)
    ensures
        match r {
            Some(t) => trace_for(
                traces@.map_values(|q: TraceQuery| q@),
                denom@,
                0,
            ) == Some(t@),
            None => trace_for(traces@.map_values(|q: TraceQuery| q@), denom@, 0) is None,
        },
{
    let ghost tv = traces@.map_values(|q: TraceQuery| q@);
    let n = traces.len();
    let mut i: usize = 0;
    while i < n
        invariant
            n == traces.len(),
            tv == traces@.map_values(|q: TraceQuery| q@),
            i <= n,
            trace_for(tv, denom@, 0) == trace_for(tv, denom@, i as int),
        decreases n - i,
    {
        let q = &traces[i];
        proof {
            assert(tv[i as int] == q@);
        }
        if q.denom.eq(denom) {
            return match &q.trace {
                Some(t) => Some(t),
                None => None,
            };
        }
        i = i + 1;
    }
    None
}

/// Find the recorded token metadata for `address`.
fn token_lookup<'a>(tokens: &'a Vec<TokenQuery>, address: &String) -> (r: Option<
    &'a TokenMetadata,
>)
    ensures
        match r {
            Some(m) => token_for(
                tokens@.map_values(|q: TokenQuery| q@),
                address@,
                0,
            ) == Some(m@),
            None => token_for(tokens@.map_values(|q: TokenQuery| q@), address@, 0) is None,
        },
{
    let ghost tv = tokens@.map_values(|q: TokenQuery| q@);
    let n = tokens.len();
    let mut i: usize = 0;
    while i < n
        invariant
            n == tokens.len(),
            tv == tokens@.map_values(|q: TokenQuery| q@),
            i <= n,
            token_for(tv, address@, 0) == token_for(tv, address@, i as int),
        decreases n - i,
    {
        let q = &tokens[i];
        proof {
            assert(tv[i as int] == q@);
        }
        if q.address.eq(address) {
            return match &q.metadata {
                Some(m) => Some(m),
                None => None,
            };
        }
        i = i + 1;
    }
    None
}

/// Resolve one raw identifier: dispatch a token contract to its recorded
/// metadata, a native denomination to the trace lookup plus the registry
/// scan.
pub fn resolve_asset(env: &ResolutionEnv, id: &AssetIdentifier) -> (r: Result<
    String,
    UnresolvedReason,
>)
    ensures
        match r {
            Ok(n) => spec_resolve_id(env@, id@) == Ok::<Seq<char>, UnresolvedReason>(n@),
            Err(e) => spec_resolve_id(env@, id@) == Err::<Seq<char>, UnresolvedReason>(e),
        },
{
    match id {
        AssetIdentifier::ContractToken { address } => match token_lookup(&env.tokens, address) {
            None => Err(UnresolvedReason::QueryFailed),
            Some(m) => {
                let field = match env.name_source {
                    TokenNameSource::Symbol => &m.symbol,
                    TokenNameSource::TokenName => &m.name,
                };
                Ok(ans_name(env.ans_prefix.as_str(), field.as_str()))
            },
        },
        AssetIdentifier::NativeDenom { denom } => {
            let trace = trace_lookup(&env.traces, denom);
            match env.registry.resolve_native_asset(trace) {
                Some(n) => Ok(n),
                None => Err(UnresolvedReason::Unresolvable),
            }
        },
    }
}

/// View of a pair list.
pub open spec fn pairs_view(pairs: Seq<PoolPair>) -> Seq<PoolPairView> {
    pairs.map_values(|p: PoolPair| p@)
}

/// View of an identifier list.
pub open spec fn ids_view(ids: Seq<AssetIdentifier>) -> Seq<AssetIdView> {
    ids.map_values(|a: AssetIdentifier| a@)
}

/// Every identifier of the first `i` pairs, in pair order then pool-local
/// order, duplicates included.
pub open spec fn ids_prefix(pairs: Seq<PoolPairView>, i: int) -> Seq<AssetIdView>
    decreases i,
{
    if i <= 0 {
        Seq::empty()
    } else {
        ids_prefix(pairs, i - 1) + pairs[i - 1].asset_infos
    }
}

/// Every identifier referenced by any pair, duplicates included.
pub open spec fn all_asset_ids(pairs: Seq<PoolPairView>) -> Seq<AssetIdView> {
    ids_prefix(pairs, pairs.len() as int)
}

/// First-occurrence-order deduplication.
pub open spec fn dedup_ids(ids: Seq<AssetIdView>) -> Seq<AssetIdView>
    decreases ids.len(),
{
    if ids.len() == 0 {
        Seq::empty()
    } else {
        let d = dedup_ids(ids.drop_last());
        if d.contains(ids.last()) {
            d
        } else {
            d.push(ids.last())
        }
    }
}

/// Whether the list already holds this identifier.
fn contains_id(v: &Vec<AssetIdentifier>, id: &AssetIdentifier) -> (r: bool)
    ensures
        r == ids_view(v@).contains(id@),
{
    let n = v.len();
    let mut i: usize = 0;
    while i < n
        invariant
            n == v.len(),
            i <= n,
            forall|j: int| 0 <= j < i ==> ids_view(v@)[j] != id@,
        decreases n - i,
    {
        if v[i].matches(id) {
            proof {
                assert(ids_view(v@)[i as int] == id@);
            }
            return true;
        }
        i = i + 1;
    }
    proof {
        assert(forall|j: int| 0 <= j < ids_view(v@).len() ==> ids_view(v@)[j] != id@);
    }
    false
}

/// Flatten every pair's identifiers into one list and deduplicate it,
/// keeping first occurrences in order.
pub fn collect_unique_assets(pairs: &Vec<PoolPair>) -> (r: Vec<AssetIdentifier>)
    ensures
        ids_view(r@) == dedup_ids(all_asset_ids(pairs_view(pairs@))),
{
    let ghost pv = pairs_view(pairs@);
    let mut uniq: Vec<AssetIdentifier> = Vec::new();
    let n = pairs.len();
    let mut i: usize = 0;
    while i < n
        invariant
            n == pairs.len(),
            pv == pairs_view(pairs@),
            i <= n,
            ids_view(uniq@) == dedup_ids(ids_prefix(pv, i as int)),
        decreases n - i,
    {
        let pair = &pairs[i];
        proof {
            assert(pv[i as int] == pair@);
        }
        let m = pair.asset_infos.len();
        let mut j: usize = 0;
        while j < m
            invariant
                m == pair.asset_infos.len(),
                pv == pairs_view(pairs@),
                i < pv.len(),
                pv[i as int] == pair@,
                j <= m,
                ids_view(uniq@) == dedup_ids(
                    ids_prefix(pv, i as int) + pair@.asset_infos.take(j as int),
                ),
            decreases m - j,
        {
            let id = &pair.asset_infos[j];
            proof {
                assert(pair@.asset_infos[j as int] == id@);
            }
            let ghost before = ids_prefix(pv, i as int) + pair@.asset_infos.take(j as int);
            proof {
                assert((ids_prefix(pv, i as int) + pair@.asset_infos.take(j + 1)) =~= before.push(
                    id@,
                ));
                assert(before.push(id@).drop_last() =~= before);
                assert(before.push(id@).last() == id@);
            }
            if !contains_id(&uniq, id) {
                uniq.push(id.clone());
                proof {
                    assert(ids_view(uniq@) =~= dedup_ids(before).push(id@));
                }
            }
            j = j + 1;
        }
        proof {
            assert(pair@.asset_infos.take(m as int) =~= pair@.asset_infos);
            assert(ids_prefix(pv, i + 1) == ids_prefix(pv, i as int) + pv[i as int].asset_infos);
        }
        i = i + 1;
    }
    uniq
}

/// View of the identifier-to-name table.
pub open spec fn table_view(t: Seq<(AssetIdentifier, String)>) -> Seq<(AssetIdView, Seq<char>)> {
    t.map_values(|p: (AssetIdentifier, String)| (p.0@, p.1@))
}

/// View of the name-to-identifier table.
pub open spec fn names_view(t: Seq<(String, AssetIdentifier)>) -> Seq<(Seq<char>, AssetIdView)> {
    t.map_values(|p: (String, AssetIdentifier)| (p.0@, p.1@))
}

/// View of the unresolved list.
pub open spec fn unresolved_view(t: Seq<(AssetIdentifier, UnresolvedReason)>) -> Seq<
    (AssetIdView, UnresolvedReason),
> {
    t.map_values(|p: (AssetIdentifier, UnresolvedReason)| (p.0@, p.1))
}

/// The identifier-to-name table over `ids`: one entry per identifier that
/// resolves, in input order.
pub open spec fn spec_asset_table(env: EnvView, ids: Seq<AssetIdView>) -> Seq<
    (AssetIdView, Seq<char>),
>
    decreases ids.len(),
{
    if ids.len() == 0 {
        Seq::empty()
    } else {
        let t = spec_asset_table(env, ids.drop_last());
        match spec_resolve_id(env, ids.last()) {
            Ok(n) => t.push((ids.last(), n)),
            Err(_) => t,
        }
    }
}

/// The unresolved list over `ids`: one entry per identifier that fails to
/// resolve, with its reason, in input order.
pub open spec fn spec_unresolved(env: EnvView, ids: Seq<AssetIdView>) -> Seq<
    (AssetIdView, UnresolvedReason),
>
    decreases ids.len(),
{
    if ids.len() == 0 {
        Seq::empty()
    } else {
        let u = spec_unresolved(env, ids.drop_last());
        match spec_resolve_id(env, ids.last()) {
            Ok(_) => u,
            Err(e) => u.push((ids.last(), e)),
        }
    }
}

/// Position of the first entry carrying `name` at or after `i`, or
/// `t.len()` if there is none.
pub open spec fn name_index(t: Seq<(Seq<char>, AssetIdView)>, name: Seq<char>, i: int) -> int
    decreases t.len() - i,
{
    if !(0 <= i < t.len()) {
        t.len() as int
    } else if t[i].0 == name {
        i
    } else {
        name_index(t, name, i + 1)
    }
}

/// Map-style insertion into the name table: a later identifier with an
/// already-present name overwrites that entry in place, a fresh name is
/// appended.
pub open spec fn upsert_name(
    t: Seq<(Seq<char>, AssetIdView)>,
    name: Seq<char>,
    id: AssetIdView,
) -> Seq<(Seq<char>, AssetIdView)> {
    let j = name_index(t, name, 0);
    if j < t.len() {
        t.update(j, (name, id))
    } else {
        t.push((name, id))
    }
}

/// The name-to-identifier table over `ids`, built by map-style insertion:
/// when two identifiers resolve to one name, the later overwrites the
/// earlier.
pub open spec fn spec_name_table(env: EnvView, ids: Seq<AssetIdView>) -> Seq<
    (Seq<char>, AssetIdView),
>
    decreases ids.len(),
{
    if ids.len() == 0 {
        Seq::empty()
    } else {
        let m = spec_name_table(env, ids.drop_last());
        match spec_resolve_id(env, ids.last()) {
            Ok(n) => upsert_name(m, n, ids.last()),
            Err(_) => m,
        }
    }
}

/// Insert a resolved (name, identifier) entry map-style.
fn upsert_entry(names: &mut Vec<(String, AssetIdentifier)>, name: String, id: AssetIdentifier)
    ensures
        names_view(final(names)@) == upsert_name(names_view(old(names)@), name@, id@),
{
    let ghost nv = names_view(names@);
    let n = names.len();
    let mut i: usize = 0;
    while i < n
        invariant
            n == names.len(),
            names@ == old(names)@,
            nv == names_view(names@),
            i <= n,
            name_index(nv, name@, 0) == name_index(nv, name@, i as int),
        decreases n - i,
    {
        proof {
            assert(nv[i as int] == (names@[i as int].0@, names@[i as int].1@));
        }
        if names[i].0.eq(&name) {
            proof {
                assert(nv[i as int].0 == name@);
                assert(name_index(nv, name@, i as int) == i as int);
                assert(name_index(nv, name@, 0) == i as int);
            }
            names[i] = (name, id);
            proof {
                assert(names_view(names@) =~= nv.update(i as int, (name@, id@)));
            }
            return ;
        }
        i = i + 1;
    }
    names.push((name, id));
    proof {
        assert(names_view(names@) =~= nv.push((name@, id@)));
    }
}

/// Resolve every unique identifier and build the three resolution tables:
/// identifier to name (for pool rebuilding), name to identifier (the
/// emitted asset table) and the unresolved list.
pub fn build_tables(env: &ResolutionEnv, ids: &Vec<AssetIdentifier>) -> (r: (
    Vec<(AssetIdentifier, String)>,
    Vec<(String, AssetIdentifier)>,
    Vec<(AssetIdentifier, UnresolvedReason)>,
))
    ensures
        table_view(r.0@) == spec_asset_table(env@, ids_view(ids@)),
        names_view(r.1@) == spec_name_table(env@, ids_view(ids@)),
        unresolved_view(r.2@) == spec_unresolved(env@, ids_view(ids@)),
{
    let ghost iv = ids_view(ids@);
    let mut table: Vec<(AssetIdentifier, String)> = Vec::new();
    let mut names: Vec<(String, AssetIdentifier)> = Vec::new();
    let mut unresolved: Vec<(AssetIdentifier, UnresolvedReason)> = Vec::new();
    let n = ids.len();
    let mut i: usize = 0;
    while i < n
        invariant
            n == ids.len(),
            iv == ids_view(ids@),
            i <= n,
            table_view(table@) == spec_asset_table(env@, iv.take(i as int)),
            names_view(names@) == spec_name_table(env@, iv.take(i as int)),
            unresolved_view(unresolved@) == spec_unresolved(env@, iv.take(i as int)),
        decreases n - i,
    {
        let id = &ids[i];
        proof {
            assert(iv[i as int] == id@);
            assert(iv.take(i + 1).drop_last() =~= iv.take(i as int));
            assert(iv.take(i + 1).last() == id@);
        }
        match resolve_asset(env, id) {
            Ok(name) => {
                table.push((id.clone(), name.clone()));
                proof {
                    assert(table_view(table@) =~= spec_asset_table(env@, iv.take(i as int)).push(
                        (id@, name@),
                    ));
                }
                upsert_entry(&mut names, name, id.clone());
            },
            Err(reason) => {
                unresolved.push((id.clone(), reason));
                proof {
                    assert(unresolved_view(unresolved@) =~= spec_unresolved(
                        env@,
                        iv.take(i as int),
                    ).push((id@, reason)));
                }
            },
        }
        i = i + 1;
    }
    proof {
        assert(iv.take(n as int) =~= iv);
    }
    (table, names, unresolved)
}

/// View of a record list.
pub open spec fn records_view(v: Seq<PoolRecord>) -> Seq<PoolRecordView> {
    v.map_values(|r: PoolRecord| r@)
}

/// View of a string list.
pub open spec fn strings_view(v: Seq<String>) -> Seq<Seq<char>> {
    v.map_values(|s: String| s@)
}

/// The name the identifier-to-name table holds for `a`, scanning from
/// position `i`.
pub open spec fn name_of(
    t: Seq<(AssetIdView, Seq<char>)>,
    a: AssetIdView,
    i: int,
) -> Option<Seq<char>>
    decreases t.len() - i,
{
    if !(0 <= i < t.len()) {
        None
    } else if t[i].0 == a {
        Some(t[i].1)
    } else {
        name_of(t, a, i + 1)
    }
}

/// The resolved names of a pool's identifiers from position `j` on, in
/// pool order; `None` as soon as any identifier has no name.
pub open spec fn pool_names_from(
    t: Seq<(AssetIdView, Seq<char>)>,
    infos: Seq<AssetIdView>,
    j: int,
) -> Option<Seq<Seq<char>>>
    decreases infos.len() - j,
{
    if !(0 <= j < infos.len()) {
        Some(Seq::empty())
    } else {
        match name_of(t, infos[j], 0) {
            None => None,
            Some(n) => match pool_names_from(t, infos, j + 1) {
                None => None,
                Some(v) => Some(seq![n] + v),
            },
        }
    }
}

/// The fixed, exhaustive pair-type table: anything it does not list is a
/// fatal error, not a skip.
pub open spec fn spec_map_pair_type(t: PairTypeView) -> Option<PoolType> {
    match t {
        PairTypeView::Stable => Some(PoolType::Stable),
        PairTypeView::Xyk => Some(PoolType::ConstantProduct),
        PairTypeView::Concentrated => Some(PoolType::Weighted),
        PairTypeView::Custom { .. } => None,
    }
}

/// The tag of an unsupported pair type.
pub open spec fn custom_kind(t: PairTypeView) -> Seq<char> {
    match t {
        PairTypeView::Custom { kind } => kind,
        _ => Seq::empty(),
    }
}

/// The pool records and skipped pool ids over the pairs from position `i`
/// on: a pair whose every identifier has a name becomes a record, a pair
/// with any nameless identifier is skipped whole, and the first pair with
/// an unsupported type aborts everything with its tag.
pub open spec fn spec_pools_from(
    dex: Seq<char>,
    t: Seq<(AssetIdView, Seq<char>)>,
    pairs: Seq<PoolPairView>,
    i: int,
) -> Result<(Seq<PoolRecordView>, Seq<Seq<char>>), Seq<char>>
    decreases pairs.len() - i,
{
    if !(0 <= i < pairs.len()) {
        Ok((Seq::empty(), Seq::empty()))
    } else {
        match spec_map_pair_type(pairs[i].pair_type) {
            None => Err(custom_kind(pairs[i].pair_type)),
            Some(pt) => match spec_pools_from(dex, t, pairs, i + 1) {
                Err(e) => Err(e),
                Ok(rest) => match pool_names_from(t, pairs[i].asset_infos, 0) {
                    None => Ok((rest.0, seq![pairs[i].contract_addr] + rest.1)),
                    Some(names) => Ok(
                        (
                            seq![
                                PoolRecordView {
                                    pool_id: pairs[i].contract_addr,
                                    metadata: PoolMetadataView {
                                        dex: dex,
                                        pool_type: pt,
                                        assets: names,
                                    },
                                },
                            ] + rest.0,
                            rest.1,
                        ),
                    ),
                },
            },
        }
    }
}

/// A fatal pipeline error; per-asset failures are recorded, these abort.
#[derive(Debug)]
pub enum PipelineError {
    /// A registry list could not be fetched from the remote directory.
    FetchFailed,
    /// The target chain has no published factory address.
    UnknownNetwork,
    /// A pool declares a pair type outside the supported table; the tag
    /// carries the declared type.
    UnsupportedPoolType { kind: String },
}

/// Look `id` up in the identifier-to-name table.
fn lookup_name<'a>(table: &'a Vec<(AssetIdentifier, String)>, id: &AssetIdentifier) -> (r: Option<
    &'a String,
>)
    ensures
        match r {
            Some(n) => name_of(table_view(table@), id@, 0) == Some(n@),
            None => name_of(table_view(table@), id@, 0) is None,
        },
{
    let ghost tv = table_view(table@);
    let n = table.len();
    let mut i: usize = 0;
    while i < n
        invariant
            n == table.len(),
            tv == table_view(table@),
            i <= n,
            name_of(tv, id@, 0) == name_of(tv, id@, i as int),
        decreases n - i,
    {
        let e = &table[i];
        proof {
            assert(tv[i as int] == (e.0@, e.1@));
        }
        if e.0.matches(id) {
            return Some(&e.1);
        }
        i = i + 1;
    }
    None
}

/// The exec pair-type table.
pub fn map_pair_type(t: &PairType) -> (r: Option<PoolType>)
    ensures
        r == spec_map_pair_type(t@),
{
    match t {
        PairType::Stable => Some(PoolType::Stable),
        PairType::Xyk => Some(PoolType::ConstantProduct),
        PairType::Concentrated => Some(PoolType::Weighted),
        PairType::Custom { .. } => None,
    }
}

/// Resolve every identifier of one pool to its name, in pool order;
/// `None` as soon as one has none.
fn collect_pool_names(
    table: &Vec<(AssetIdentifier, String)>,
    infos: &Vec<AssetIdentifier>,
) -> (r: Option<Vec<String>>)
    ensures
        match r {
            Some(v) => pool_names_from(table_view(table@), ids_view(infos@), 0) == Some(
                strings_view(v@),
            ),
            None => pool_names_from(table_view(table@), ids_view(infos@), 0) is None,
        },
{
    let ghost tv = table_view(table@);
    let ghost iv = ids_view(infos@);
    let mut acc: Vec<String> = Vec::new();
    let n = infos.len();
    let mut j: usize = 0;
    while j < n
        invariant
            n == infos.len(),
            tv == table_view(table@),
            iv == ids_view(infos@),
            j <= n,
            match pool_names_from(tv, iv, j as int) {
                Some(v2) => pool_names_from(tv, iv, 0) == Some(strings_view(acc@) + v2),
                None => pool_names_from(tv, iv, 0) is None,
            },
        decreases n - j,
    {
        let id = &infos[j];
        proof {
            assert(iv[j as int] == id@);
        }
        match lookup_name(table, id) {
            None => {
                return None;
            },
            Some(name) => {
                acc.push(name.clone());
                proof {
                    if pool_names_from(tv, iv, j + 1) is Some {
                        let v2 = pool_names_from(tv, iv, j + 1)->Some_0;
                        assert(strings_view(acc@) =~= strings_view(acc@.drop_last()).push(
                            name@,
                        ));
                        assert(strings_view(acc@.drop_last()).push(name@) + v2 =~= strings_view(
                            acc@.drop_last(),
                        ) + (seq![name@] + v2));
                    }
                }
            },
        }
        j = j + 1;
    }
    proof {
        assert(strings_view(acc@) + Seq::<Seq<char>>::empty() =~= strings_view(acc@));
    }
    Some(acc)
}

/// Rebuild every pool over the identifier-to-name table: pools whose
/// every asset resolved become records, pools with any unresolved asset
/// are skipped whole, and the first unsupported pair type aborts the whole
/// rebuild.
pub fn build_pools(
    dex: &String,
    table: &Vec<(AssetIdentifier, String)>,
    pairs: &Vec<PoolPair>,
) -> (r: Result<(Vec<PoolRecord>, Vec<String>), PipelineError>)
    ensures
        match r {
            Ok(p) => spec_pools_from(dex@, table_view(table@), pairs_view(pairs@), 0) == Ok::<
                _,
                Seq<char>,
            >((records_view(p.0@), strings_view(p.1@))),
            Err(e) => e matches PipelineError::UnsupportedPoolType { kind } && spec_pools_from(
                dex@,
                table_view(table@),
                pairs_view(pairs@),
                0,
            ) == Err::<(Seq<PoolRecordView>, Seq<Seq<char>>), _>(kind@),
        },
{
    let ghost tv = table_view(table@);
    let ghost pv = pairs_view(pairs@);
    let mut recs: Vec<PoolRecord> = Vec::new();
    let mut skipped: Vec<String> = Vec::new();
    let n = pairs.len();
    let mut i: usize = 0;
    while i < n
        invariant
            n == pairs.len(),
            tv == table_view(table@),
            pv == pairs_view(pairs@),
            i <= n,
            match spec_pools_from(dex@, tv, pv, i as int) {
                Ok(rest) => spec_pools_from(dex@, tv, pv, 0) == Ok::<_, Seq<char>>(
                    (records_view(recs@) + rest.0, strings_view(skipped@) + rest.1),
                ),
                Err(e) => spec_pools_from(dex@, tv, pv, 0) == Err::<
                    (Seq<PoolRecordView>, Seq<Seq<char>>),
                    _,
                >(e),
            },
        decreases n - i,
    {
        let pair = &pairs[i];
        proof {
            assert(pv[i as int] == pair@);
            assert(ids_view(pair.asset_infos@) =~= pair@.asset_infos);
        }
        match map_pair_type(&pair.pair_type) {
            None => {
                let kind = match &pair.pair_type {
                    PairType::Custom { kind } => kind.clone(),
                    _ => String::new(),
                };
                proof {
                    assert(kind@ == custom_kind(pair@.pair_type));
                }
                return Err(PipelineError::UnsupportedPoolType { kind });
            },
            Some(pool_type) => {
                match collect_pool_names(table, &pair.asset_infos) {
                    None => {
                        let ghost sk0 = skipped@;
                        skipped.push(pair.contract_addr.clone());
                        proof {
                            if spec_pools_from(dex@, tv, pv, i + 1) is Ok {
                                let rest = spec_pools_from(dex@, tv, pv, i + 1)->Ok_0;
                                assert(strings_view(skipped@) =~= strings_view(sk0).push(
                                    pair@.contract_addr,
                                ));
                                assert(strings_view(skipped@) + rest.1 =~= strings_view(sk0) + (
                                seq![pv[i as int].contract_addr] + rest.1));
                            }
                        }
                    },
                    Some(assets) => {
                        let rec = PoolRecord {
                            pool_id: pair.contract_addr.clone(),
                            metadata: PoolMetadata {
                                dex: dex.clone(),
                                pool_type,
                                assets,
                            },
                        };
                        proof {
                            assert(rec@.metadata.assets =~= strings_view(
                                rec.metadata.assets@,
                            ));
                        }
                        let ghost rc0 = recs@;
                        let ghost recv = rec@;
                        recs.push(rec);
                        proof {
                            if spec_pools_from(dex@, tv, pv, i + 1) is Ok {
                                let rest = spec_pools_from(dex@, tv, pv, i + 1)->Ok_0;
                                let names = pool_names_from(
                                    tv,
                                    pv[i as int].asset_infos,
                                    0,
                                )->Some_0;
                                assert(recv == PoolRecordView {
                                    pool_id: pv[i as int].contract_addr,
                                    metadata: PoolMetadataView {
                                        dex: dex@,
                                        pool_type,
                                        assets: names,
                                    },
                                });
                                assert(records_view(recs@) =~= records_view(rc0).push(recv));
                                assert(records_view(recs@) + rest.0 =~= records_view(rc0) + (
                                seq![recv] + rest.0));
                            }
                        }
                    },
                }
            },
        }
        i = i + 1;
    }
    proof {
        assert(records_view(recs@) + Seq::<PoolRecordView>::empty() =~= records_view(recs@));
        assert(strings_view(skipped@) + Seq::<Seq<char>>::empty() =~= strings_view(skipped@));
    }
    Ok((recs, skipped))
}

/// The three output collections of a normalization run, plus the skipped
/// pool ids.
pub struct NormalizeOutcome {
    /// Canonical name to raw identifier, unique names (later resolutions
    /// overwrite earlier ones on a name collision).
    pub resolved_assets: Vec<(String, AssetIdentifier)>,
    /// Pools whose every asset resolved, rebuilt over names only.
    pub resolved_pools: Vec<PoolRecord>,
    /// Pools dropped whole because some asset of theirs did not resolve.
    pub skipped_pools: Vec<String>,
    /// Identifiers that did not resolve, each with its reason.
    pub unresolved: Vec<(AssetIdentifier, UnresolvedReason)>,
}

/// Mathematical image of a [`NormalizeOutcome`].
pub struct OutcomeView {
    pub resolved_assets: Seq<(Seq<char>, AssetIdView)>,
    pub resolved_pools: Seq<PoolRecordView>,
    pub skipped_pools: Seq<Seq<char>>,
    pub unresolved: Seq<(AssetIdView, UnresolvedReason)>,
}

impl View for NormalizeOutcome {
    type V = OutcomeView;

    open spec fn view(&self) -> OutcomeView {
        OutcomeView {
            resolved_assets: names_view(self.resolved_assets@),
            resolved_pools: records_view(self.resolved_pools@),
            skipped_pools: strings_view(self.skipped_pools@),
            unresolved: unresolved_view(self.unresolved@),
        }
    }
}

/// What a whole normalization run returns: deduplicate the identifiers of
/// all pairs, resolve each once, and rebuild every pool over the resolved
/// names; the first unsupported pair type aborts the run with its tag.
pub open spec fn spec_normalize(env: EnvView, pairs: Seq<PoolPairView>) -> Result<
    OutcomeView,
    Seq<char>,
> {
    let ids = dedup_ids(all_asset_ids(pairs));
    let table = spec_asset_table(env, ids);
    match spec_pools_from(env.dex, table, pairs, 0) {
        Err(kind) => Err(kind),
        Ok(ps) => Ok(
            OutcomeView {
                resolved_assets: spec_name_table(env, ids),
                resolved_pools: ps.0,
                skipped_pools: ps.1,
                unresolved: spec_unresolved(env, ids),
            },
        ),
    }
}

/// Run the normalizer: the outcome is a function of the environment and
/// the pair list alone.
pub fn normalize(env: &ResolutionEnv, pairs: &Vec<PoolPair>) -> (r: Result<
    NormalizeOutcome,
    PipelineError,
>)
    ensures
        match r {
            Ok(o) => spec_normalize(env@, pairs_view(pairs@)) == Ok::<OutcomeView, Seq<char>>(o@),
            Err(e) => e matches PipelineError::UnsupportedPoolType { kind } && spec_normalize(
                env@,
                pairs_view(pairs@),
            ) == Err::<OutcomeView, Seq<char>>(kind@),
        },
{
    let ids = collect_unique_assets(pairs);
    let (table, names, unresolved) = build_tables(env, &ids);
    match build_pools(&env.dex, &table, pairs) {
        Err(e) => Err(e),
        Ok(ps) => {
            let (pools, skipped) = ps;
            Ok(
                NormalizeOutcome {
                    resolved_assets: names,
                    resolved_pools: pools,
                    skipped_pools: skipped,
                    unresolved,
                },
            )
        },
    }
}

} // verus!
