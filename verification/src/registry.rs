//! The loaded registry cache: every known chain's asset list, scanned in
//! directory order, first match wins.

use vstd::prelude::*;

use crate::model::{
    spec_ans_name, ans_name, ChainAssetEntry, ChainAssetEntryView, ChainAssetList,
    ChainAssetListView, DenomTrace, DenomTraceView,
};
use crate::text::{first_index_from, lemma_first_index_from_bounds, lower, str_eq};

verus! {

/// The transfer port a supported trace path must start with.
pub open spec fn transfer_port() -> Seq<char> {
    seq!['t', 'r', 'a', 'n', 's', 'f', 'e', 'r']
}

/// A registry row claims a denomination when any of its alias
/// denominations equals it exactly.
pub open spec fn entry_matches_denom(e: ChainAssetEntryView, denom: Seq<char>) -> bool {
    exists|i: int| 0 <= i < e.denom_units.len() && e.denom_units[i] == denom
}

/// First row of `assets` at or after position `i` that claims `denom`.
pub open spec fn first_entry_from(
    assets: Seq<ChainAssetEntryView>,
    denom: Seq<char>,
    i: int,
) -> Option<ChainAssetEntryView>
    decreases assets.len() - i,
{
    if !(0 <= i < assets.len()) {
        None
    } else if entry_matches_denom(assets[i], denom) {
        Some(assets[i])
    } else {
        first_entry_from(assets, denom, i + 1)
    }
}

/// First row across `lists`, scanning lists from position `i` in order and
/// each list's rows in order, that claims `denom`; paired with the owning
/// chain's name.
pub open spec fn first_claim_from(
    lists: Seq<ChainAssetListView>,
    denom: Seq<char>,
    i: int,
) -> Option<(Seq<char>, ChainAssetEntryView)>
    decreases lists.len() - i,
{
    if !(0 <= i < lists.len()) {
        None
    } else {
        match first_entry_from(lists[i].assets, denom, 0) {
            Some(e) => Some((lists[i].chain_name, e)),
            None => first_claim_from(lists, denom, i + 1),
        }
    }
}

/// The name a base denomination resolves to under `lists`: the first
/// claiming row, rendered as `lowercased chain name` + `>` +
/// `lowercased symbol`.
pub open spec fn spec_resolve_base_denom(
    lists: Seq<ChainAssetListView>,
    denom: Seq<char>,
) -> Option<Seq<char>> {
    match first_claim_from(lists, denom, 0) {
        Some((chain, e)) => Some(spec_ans_name(lower(chain), e.symbol)),
        None => None,
    }
}

/// First segment of a slash-separated path: everything before the first
/// `/`, or the whole path if it has none.
pub open spec fn first_segment(path: Seq<char>) -> Seq<char> {
    path.take(first_index_from(path, '/', 0))
}

/// What a native denomination resolves to, given the outcome of its trace
/// lookup: nothing when the lookup failed, nothing when the first path
/// segment is not the transfer port, otherwise whatever the trace's base
/// denomination resolves to under `lists`.
pub open spec fn spec_resolve_native(
    lists: Seq<ChainAssetListView>,
    trace: Option<DenomTraceView>,
) -> Option<Seq<char>> {
    match trace {
        None => None,
        Some(t) => if first_segment(t.path) != transfer_port() {
            None
        } else {
            spec_resolve_base_denom(lists, t.base_denom)
        },
    }
}

/// The loaded registry cache: one asset list per known chain, held in the
/// directory order they were loaded in.
pub struct ChainRegistry {
    asset_lists: Vec<ChainAssetList>,
}

impl View for ChainRegistry {
    type V = Seq<ChainAssetListView>;

    closed spec fn view(&self) -> Seq<ChainAssetListView> {
        self.asset_lists@.map_values(|l: ChainAssetList| l@)
    }
}

impl ChainRegistry {
    /// Build the registry handle from already-loaded asset lists.
    pub fn new(asset_lists: Vec<ChainAssetList>) -> (r: Self)
        ensures
            r@ == asset_lists@.map_values(|l: ChainAssetList| l@),
    {
        ChainRegistry { asset_lists }
    }

    /// The asset lists, in scan order.
    pub fn get_asset_lists(&self) -> (r: &Vec<ChainAssetList>)
        ensures
            r@.map_values(|l: ChainAssetList| l@) == self@,
    {
        &self.asset_lists
    }

    /// The first registry row, in scan order, one of whose alias
    /// denominations is exactly `denom`.
    pub fn asset_by_denom(&self, denom: String) -> (r: Option<ChainAssetEntry>)
        ensures
            match r {
                Some(e) => first_claim_from(self@, denom@, 0) matches Some(p) && p.1 == e@,
                None => first_claim_from(self@, denom@, 0) is None,
            },
    {
        match self.claim_by_denom(&denom) {
            Some((_, e)) => Some(e),
            None => None,
        }
    }

    /// The first registry row claiming `denom`, with the owning chain's
    /// name.
    fn claim_by_denom(&self, denom: &String) -> (r: Option<(String, ChainAssetEntry)>)
        ensures
            match r {
                Some(p) => first_claim_from(self@, denom@, 0) == Some((p.0@, p.1@)),
                None => first_claim_from(self@, denom@, 0) is None,
            },
    {
        let n = self.asset_lists.len();
        let mut i: usize = 0;
        while i < n
            invariant
                n == self.asset_lists.len(),
                i <= n,
                first_claim_from(self@, denom@, 0) == first_claim_from(self@, denom@, i as int),
            decreases n - i,
        {
            let list = &self.asset_lists[i];
            proof {
                assert(self@[i as int] == list@);
            }
            match Self::entry_in_list(list, denom) {
                Some(e) => {
                    return Some((list.chain_name.clone(), e));
                },
                None => {},
            }
            i = i + 1;
        }
        None
    }

    /// The first row of one list claiming `denom`.
    fn entry_in_list(list: &ChainAssetList, denom: &String) -> (r: Option<ChainAssetEntry>)
        ensures
            match r {
                Some(e) => first_entry_from(list@.assets, denom@, 0) == Some(e@),
                None => first_entry_from(list@.assets, denom@, 0) is None,
            },
    {
        let n = list.assets.len();
        let mut i: usize = 0;
        while i < n
            invariant
                n == list.assets.len(),
                i <= n,
                first_entry_from(list@.assets, denom@, 0) == first_entry_from(
                    list@.assets,
                    denom@,
                    i as int,
                ),
            decreases n - i,
        {
            let e = &list.assets[i];
            proof {
                assert(list@.assets[i as int] == e@);
            }
            if Self::entry_claims(e, denom) {
                return Some(e.clone());
            }
            i = i + 1;
        }
        None
    }

    /// Whether any alias denomination of `e` equals `denom`.
    fn entry_claims(e: &ChainAssetEntry, denom: &String) -> (r: bool)
        ensures
            r == entry_matches_denom(e@, denom@),
    {
        let n = e.denom_units.len();
        let mut i: usize = 0;
        while i < n
            invariant
                n == e.denom_units.len(),
                i <= n,
                forall|j: int| 0 <= j < i ==> e@.denom_units[j] != denom@,
            decreases n - i,
        {
            let u = &e.denom_units[i];
            proof {
                assert(e@.denom_units[i as int] == u@);
            }
            if u.denom.eq(denom) {
                return true;
            }
            i = i + 1;
        }
        false
    }

    /// Resolve a native denomination from the outcome of its transfer-trace
    /// lookup. A failed lookup (`None`), a trace whose path does not start
    /// with the transfer port, and a base denomination no chain claims all
    /// yield `None`; otherwise the canonical name of the first claiming
    /// registry row.
    pub fn resolve_native_asset(&self, trace: Option<&DenomTrace>) -> (r: Option<String>)
        ensures
            match r {
                Some(name) => spec_resolve_native(
                    self@,
                    match trace {
                        Some(t) => Some(t@),
                        None => None,
                    },
                ) == Some(name@),
                None => spec_resolve_native(
                    self@,
                    match trace {
                        Some(t) => Some(t@),
                        None => None,
                    },
                ) is None,
            },
    {
        let t = match trace {
            Some(t) => t,
            None => {
                return None;
            },
        };
        let slash = crate::text::find_char(t.path.as_str(), '/', 0);
        proof {
            lemma_first_index_from_bounds(t.path@, '/', 0);
        }
        let seg = t.path.as_str().substring_char(0, slash);
        if !str_eq(seg, "transfer") {
            proof {
                reveal_strlit("transfer");
                assert("transfer"@ =~= transfer_port());
            }
            return None;
        }
        proof {
            reveal_strlit("transfer");
            assert("transfer"@ =~= transfer_port());
        }
        match self.claim_by_denom(&t.base_denom) {
            Some((chain, e)) => {
                let low_chain = crate::text::to_ans_lowercase(chain.as_str());
                Some(ans_name(low_chain.as_str(), e.symbol.as_str()))
            },
            None => None,
        }
    }
}

} // verus!
