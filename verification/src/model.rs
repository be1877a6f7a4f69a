//! Core data model: raw asset identifiers, registry rows, denomination
//! traces, pool pairs and the resolved pool records the pipeline emits.

use vstd::prelude::*;

use crate::text::{lower, to_ans_lowercase};

verus! {

/// A raw on-chain asset identifier, the deduplication key of the pipeline.
/// Two identifiers are the same asset only if both the variant and the
/// payload agree.
pub enum AssetIdentifier {
    /// A fungible token identified by its issuing contract's address.
    ContractToken { address: String },
    /// A native currency identified by its on-chain denomination.
    NativeDenom { denom: String },
}

/// Mathematical image of an [`AssetIdentifier`].
pub enum AssetIdView {
    Contract { address: Seq<char> },
    Native { denom: Seq<char> },
}

impl View for AssetIdentifier {
    type V = AssetIdView;

    open spec fn view(&self) -> AssetIdView {
        match self {
            AssetIdentifier::ContractToken { address } => AssetIdView::Contract {
                address: address@,
            },
            AssetIdentifier::NativeDenom { denom } => AssetIdView::Native { denom: denom@ },
        }
    }
}

impl AssetIdentifier {
    /// Identifier equality: same variant, same payload.
    pub fn matches(&self, other: &AssetIdentifier) -> (r: bool)
        ensures
            r == (self@ == other@),
    {
        match (self, other) {
            (
                AssetIdentifier::ContractToken { address: a },
                AssetIdentifier::ContractToken { address: b },
            ) => a.eq(b),
            (
                AssetIdentifier::NativeDenom { denom: a },
                AssetIdentifier::NativeDenom { denom: b },
            ) => a.eq(b),
            _ => false,
        }
    }
}

impl Clone for AssetIdentifier {
    fn clone(&self) -> (r: Self)
        ensures
            r == *self,
    {
        match self {
            AssetIdentifier::ContractToken { address } => AssetIdentifier::ContractToken {
                address: address.clone(),
            },
            AssetIdentifier::NativeDenom { denom } => AssetIdentifier::NativeDenom {
                denom: denom.clone(),
            },
        }
    }
}

/// One alias denomination of a registry row.
pub struct DenomUnit {
    pub denom: String,
}

impl View for DenomUnit {
    type V = Seq<char>;

    open spec fn view(&self) -> Seq<char> {
        self.denom@
    }
}

impl Clone for DenomUnit {
    fn clone(&self) -> (r: Self)
        ensures
            r == *self,
    {
        DenomUnit { denom: self.denom.clone() }
    }
}

/// One row of a chain's registry list: a symbol and the alias denominations
/// under which the asset is known.
pub struct ChainAssetEntry {
    pub symbol: String,
    pub denom_units: Vec<DenomUnit>,
}

/// Mathematical image of a [`ChainAssetEntry`].
pub struct ChainAssetEntryView {
    pub symbol: Seq<char>,
    pub denom_units: Seq<Seq<char>>,
}

impl View for ChainAssetEntry {
    type V = ChainAssetEntryView;

    open spec fn view(&self) -> ChainAssetEntryView {
        ChainAssetEntryView {
            symbol: self.symbol@,
            denom_units: self.denom_units@.map_values(|u: DenomUnit| u@),
        }
    }
}

impl Clone for ChainAssetEntry {
    fn clone(&self) -> (r: Self)
        ensures
            r@ == self@,
    {
        let mut units: Vec<DenomUnit> = Vec::new();
        let mut i: usize = 0;
        while i < self.denom_units.len()
            invariant
                i <= self.denom_units.len(),
                units@ == self.denom_units@.take(i as int),
            decreases self.denom_units.len() - i,
        {
            units.push(self.denom_units[i].clone());
            proof {
                assert(units@ =~= self.denom_units@.take(i + 1));
            }
            i = i + 1;
        }
        proof {
            assert(self.denom_units@.take(self.denom_units@.len() as int) =~= self.denom_units@);
        }
        let r = ChainAssetEntry { symbol: self.symbol.clone(), denom_units: units };
        proof {
            assert(r@.denom_units =~= self@.denom_units);
        }
        r
    }
}

/// The registry list of one chain: its name and its asset rows.
pub struct ChainAssetList {
    pub chain_name: String,
    pub assets: Vec<ChainAssetEntry>,
}

/// Mathematical image of a [`ChainAssetList`].
pub struct ChainAssetListView {
    pub chain_name: Seq<char>,
    pub assets: Seq<ChainAssetEntryView>,
}

impl View for ChainAssetList {
    type V = ChainAssetListView;

    open spec fn view(&self) -> ChainAssetListView {
        ChainAssetListView {
            chain_name: self.chain_name@,
            assets: self.assets@.map_values(|a: ChainAssetEntry| a@),
        }
    }
}

impl Clone for ChainAssetList {
    fn clone(&self) -> (r: Self)
        ensures
            r@ == self@,
    {
        let mut assets: Vec<ChainAssetEntry> = Vec::new();
        let mut i: usize = 0;
        while i < self.assets.len()
            invariant
                i <= self.assets.len(),
                assets@.len() == i,
                forall|j: int| 0 <= j < i ==> assets@[j]@ == self.assets@[j]@,
            decreases self.assets.len() - i,
        {
            assets.push(self.assets[i].clone());
            i = i + 1;
        }
        let r = ChainAssetList { chain_name: self.chain_name.clone(), assets };
        proof {
            assert(r@.assets =~= self@.assets);
        }
        r
    }
}

/// The inter-chain transfer trace of a native denomination: the routing
/// `path` (slash-separated port/channel segments) and the denomination on
/// its origin chain.
pub struct DenomTrace {
    pub path: String,
    pub base_denom: String,
}

/// Mathematical image of a [`DenomTrace`].
pub struct DenomTraceView {
    pub path: Seq<char>,
    pub base_denom: Seq<char>,
}

impl View for DenomTrace {
    type V = DenomTraceView;

    open spec fn view(&self) -> DenomTraceView {
        DenomTraceView { path: self.path@, base_denom: self.base_denom@ }
    }
}

impl Clone for DenomTrace {
    fn clone(&self) -> (r: Self)
        ensures
            r == *self,
    {
        DenomTrace { path: self.path.clone(), base_denom: self.base_denom.clone() }
    }
}

/// The pair type a pool declares on chain.
pub enum PairType {
    Stable,
    Xyk,
    Concentrated,
    Custom { kind: String },
}

/// Mathematical image of a [`PairType`].
pub enum PairTypeView {
    Stable,
    Xyk,
    Concentrated,
    Custom { kind: Seq<char> },
}

impl View for PairType {
    type V = PairTypeView;

    open spec fn view(&self) -> PairTypeView {
        match self {
            PairType::Stable => PairTypeView::Stable,
            PairType::Xyk => PairTypeView::Xyk,
            PairType::Concentrated => PairTypeView::Concentrated,
            PairType::Custom { kind } => PairTypeView::Custom { kind: kind@ },
        }
    }
}

impl Clone for PairType {
    fn clone(&self) -> (r: Self)
        ensures
            r == *self,
    {
        match self {
            PairType::Stable => PairType::Stable,
            PairType::Xyk => PairType::Xyk,
            PairType::Concentrated => PairType::Concentrated,
            PairType::Custom { kind } => PairType::Custom { kind: kind.clone() },
        }
    }
}

/// The pricing-curve family of an emitted pool record.
#[derive(Clone, Copy, PartialEq, Eq, Structural, Debug)]
pub enum PoolType {
    Stable,
    ConstantProduct,
    Weighted,
}

/// One raw trading pair as the factory contract reports it.
pub struct PoolPair {
    pub contract_addr: String,
    pub pair_type: PairType,
    pub asset_infos: Vec<AssetIdentifier>,
}

/// Mathematical image of a [`PoolPair`].
pub struct PoolPairView {
    pub contract_addr: Seq<char>,
    pub pair_type: PairTypeView,
    pub asset_infos: Seq<AssetIdView>,
}

impl View for PoolPair {
    type V = PoolPairView;

    open spec fn view(&self) -> PoolPairView {
        PoolPairView {
            contract_addr: self.contract_addr@,
            pair_type: self.pair_type@,
            asset_infos: self.asset_infos@.map_values(|a: AssetIdentifier| a@),
        }
    }
}

impl Clone for PoolPair {
    fn clone(&self) -> (r: Self)
        ensures
            r@ == self@,
    {
        let mut infos: Vec<AssetIdentifier> = Vec::new();
        let mut i: usize = 0;
        while i < self.asset_infos.len()
            invariant
                i <= self.asset_infos.len(),
                infos@.len() == i,
                forall|j: int| 0 <= j < i ==> infos@[j] == self.asset_infos@[j],
            decreases self.asset_infos.len() - i,
        {
            infos.push(self.asset_infos[i].clone());
            i = i + 1;
        }
        let r = PoolPair {
            contract_addr: self.contract_addr.clone(),
            pair_type: self.pair_type.clone(),
            asset_infos: infos,
        };
        proof {
            assert(r@.asset_infos =~= self@.asset_infos);
        }
        r
    }
}

/// Rebuilt pool metadata that references assets only by resolved name.
pub struct PoolMetadata {
    pub dex: String,
    pub pool_type: PoolType,
    pub assets: Vec<String>,
}

/// Mathematical image of a [`PoolMetadata`].
pub struct PoolMetadataView {
    pub dex: Seq<char>,
    pub pool_type: PoolType,
    pub assets: Seq<Seq<char>>,
}

impl View for PoolMetadata {
    type V = PoolMetadataView;

    open spec fn view(&self) -> PoolMetadataView {
        PoolMetadataView {
            dex: self.dex@,
            pool_type: self.pool_type,
            assets: self.assets@.map_values(|s: String| s@),
        }
    }
}

/// One emitted pool: its on-chain address and its rebuilt metadata.
pub struct PoolRecord {
    pub pool_id: String,
    pub metadata: PoolMetadata,
}

/// Mathematical image of a [`PoolRecord`].
pub struct PoolRecordView {
    pub pool_id: Seq<char>,
    pub metadata: PoolMetadataView,
}

impl View for PoolRecord {
    type V = PoolRecordView;

    open spec fn view(&self) -> PoolRecordView {
        PoolRecordView { pool_id: self.pool_id@, metadata: self.metadata@ }
    }
}

/// Why one asset identifier stayed out of the resolved table.
#[derive(Clone, Copy, PartialEq, Eq, PartialOrd, Ord, Structural, Debug)]
pub enum UnresolvedReason {
    /// The token contract could not be queried for its metadata.
    QueryFailed,
    /// The denomination has no transfer trace, an unexpected first trace
    /// port, or no matching registry entry anywhere.
    Unresolvable,
}

/// A canonical name: `prefix` + `>` + ASCII-lowercased `symbol`.
pub open spec fn spec_ans_name(prefix: Seq<char>, symbol: Seq<char>) -> Seq<char> {
    prefix + seq!['>'] + lower(symbol)
}

/// Build a canonical name from a prefix (used as given) and a symbol
/// (ASCII-lowercased).
pub fn ans_name(prefix: &str, symbol: &str) -> (r: String)
    ensures
        r@ == spec_ans_name(prefix@, symbol@),
{
    let mut out = String::from_str(prefix);
    out.append(">");
    let low = to_ans_lowercase(symbol);
    out.append(low.as_str());
    proof {
        reveal_strlit(">");
        assert(">"@ =~= seq!['>']);
        assert(out@ =~= spec_ans_name(prefix@, symbol@));
    }
    out
}

} // verus!
