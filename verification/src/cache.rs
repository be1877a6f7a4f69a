//! The cache file format for one chain's asset list: a JSON-shaped text
//! with exactly the fields `chain_name`, `assets` (each with `symbol` and
//! `denom_units`, each unit with `denom`). The writer emits strings
//! verbatim, so a cache file round-trips exactly for lists whose strings
//! hold no `"` character.

use vstd::prelude::*;

use crate::model::{
    ChainAssetEntry, ChainAssetEntryView, ChainAssetList, ChainAssetListView, DenomUnit,
};
use crate::text::first_index_from;

verus! {

/// A string the format can carry verbatim: no quote character.
pub open spec fn plain(s: Seq<char>) -> bool {
    forall|i: int| 0 <= i < s.len() ==> s[i] != '"'
}

/// Every string of the list is plain.
pub open spec fn plain_list(l: ChainAssetListView) -> bool {
    &&& plain(l.chain_name)
    &&& forall|i: int|
        0 <= i < l.assets.len() ==> plain((#[trigger] l.assets[i]).symbol) && forall|j: int|
            0 <= j < l.assets[i].denom_units.len() ==> plain(
                #[trigger] l.assets[i].denom_units[j],
            )
}

pub open spec fn lit_unit_pre() -> Seq<char> {
    "{\"denom\":\""@
}

pub open spec fn lit_str_close() -> Seq<char> {
    "\"}"@
}

pub open spec fn lit_asset_pre() -> Seq<char> {
    "{\"symbol\":\""@
}

pub open spec fn lit_asset_mid() -> Seq<char> {
    "\",\"denom_units\":["@
}

pub open spec fn lit_list_pre() -> Seq<char> {
    "{\"chain_name\":\""@
}

pub open spec fn lit_list_mid() -> Seq<char> {
    "\",\"assets\":["@
}

pub open spec fn lit_seq_close() -> Seq<char> {
    "]}"@
}

/// One denomination unit: `{"denom":"<denom>"}`.
pub open spec fn enc_unit(u: Seq<char>) -> Seq<char> {
    lit_unit_pre() + u + lit_str_close()
}

/// Comma-joined units.
pub open spec fn enc_units(us: Seq<Seq<char>>) -> Seq<char>
    decreases us.len(),
{
    if us.len() == 0 {
        Seq::empty()
    } else if us.len() == 1 {
        enc_unit(us[0])
    } else {
        enc_unit(us[0]) + seq![','] + enc_units(us.drop_first())
    }
}

/// One registry row: `{"symbol":"<symbol>","denom_units":[<units>]}`.
pub open spec fn enc_asset(a: ChainAssetEntryView) -> Seq<char> {
    lit_asset_pre() + a.symbol + lit_asset_mid() + enc_units(a.denom_units) + lit_seq_close()
}

/// Comma-joined rows.
pub open spec fn enc_assets(assets: Seq<ChainAssetEntryView>) -> Seq<char>
    decreases assets.len(),
{
    if assets.len() == 0 {
        Seq::empty()
    } else if assets.len() == 1 {
        enc_asset(assets[0])
    } else {
        enc_asset(assets[0]) + seq![','] + enc_assets(assets.drop_first())
    }
}

/// A whole list: `{"chain_name":"<name>","assets":[<rows>]}`.
pub open spec fn enc_list(l: ChainAssetListView) -> Seq<char> {
    lit_list_pre() + l.chain_name + lit_list_mid() + enc_assets(l.assets) + lit_seq_close()
}

proof fn lemma_enc_units_snoc(us: Seq<Seq<char>>)
    requires
        us.len() >= 1,
    ensures
        us.len() == 1 ==> enc_units(us) == enc_unit(us[0]),
        us.len() >= 2 ==> enc_units(us) == enc_units(us.drop_last()) + seq![','] + enc_unit(
            us.last(),
        ),
    decreases us.len(),
{
    if us.len() >= 2 {
        lemma_enc_units_snoc(us.drop_first());
        assert(us.drop_first().drop_last() =~= us.drop_last().drop_first());
        if us.len() == 2 {
            assert(us.drop_last() =~= seq![us[0]]);
            assert(enc_units(us.drop_last()) == enc_unit(us[0]));
            assert(us.drop_first() =~= seq![us[1]]);
            assert(enc_units(us.drop_first()) == enc_unit(us[1]));
            assert(enc_units(us) == enc_unit(us[0]) + seq![','] + enc_unit(us[1]));
            assert(us.last() == us[1]);
            assert((enc_unit(us[0]) + seq![',']) + enc_unit(us[1]) =~= enc_unit(us[0]) + (
            seq![','] + enc_unit(us[1])));
            assert(enc_units(us.drop_last()) + seq![','] + enc_unit(us.last()) =~= enc_units(
                us,
            ));
        } else {
            assert(us.drop_last().len() >= 2);
            assert(us.drop_last()[0] == us[0]);
            assert(us.drop_first().last() == us.last());
            assert(enc_units(us) == enc_unit(us[0]) + seq![','] + enc_units(us.drop_first()));
            assert(enc_units(us.drop_first()) == enc_units(us.drop_first().drop_last())
                + seq![','] + enc_unit(us.last()));
            assert(enc_units(us.drop_last()) == enc_unit(us.drop_last()[0]) + seq![',']
                + enc_units(us.drop_last().drop_first()));
            assert(enc_units(us.drop_last()) + seq![','] + enc_unit(us.last()) =~= enc_units(
                us,
            ));
        }
    }
}

proof fn lemma_enc_assets_snoc(assets: Seq<ChainAssetEntryView>)
    requires
        assets.len() >= 1,
    ensures
        assets.len() == 1 ==> enc_assets(assets) == enc_asset(assets[0]),
        assets.len() >= 2 ==> enc_assets(assets) == enc_assets(assets.drop_last()) + seq![',']
            + enc_asset(assets.last()),
    decreases assets.len(),
{
    if assets.len() >= 2 {
        lemma_enc_assets_snoc(assets.drop_first());
        assert(assets.drop_first().drop_last() =~= assets.drop_last().drop_first());
        if assets.len() == 2 {
            assert(assets.drop_last() =~= seq![assets[0]]);
            assert(assets.drop_first() =~= seq![assets[1]]);
            assert(assets.last() == assets[1]);
            assert(enc_assets(assets.drop_last()) + seq![','] + enc_asset(assets.last())
                =~= enc_assets(assets));
        } else {
            assert(assets.drop_last().len() >= 2);
            assert(assets.drop_last()[0] == assets[0]);
            assert(assets.drop_first().last() == assets.last());
            assert(enc_assets(assets) == enc_asset(assets[0]) + seq![','] + enc_assets(
                assets.drop_first(),
            ));
            assert(enc_assets(assets.drop_first()) == enc_assets(assets.drop_first().drop_last())
                + seq![','] + enc_asset(assets.last()));
            assert(enc_assets(assets.drop_last()) == enc_asset(assets.drop_last()[0]) + seq![',']
                + enc_assets(assets.drop_last().drop_first()));
            assert(enc_assets(assets.drop_last()) + seq![','] + enc_asset(assets.last())
                =~= enc_assets(assets));
        }
    }
}

/// Write one registry row in the cache format.
fn encode_asset(a: &ChainAssetEntry) -> (r: String)
    ensures
        r@ == enc_asset(a@),
{
    let mut out = String::from_str("{\"symbol\":\"");
    out.append(a.symbol.as_str());
    out.append("\",\"denom_units\":[");
    let n = a.denom_units.len();
    let mut i: usize = 0;
    while i < n
        invariant
            n == a.denom_units.len(),
            i <= n,
            out@ == lit_asset_pre() + a@.symbol + lit_asset_mid() + enc_units(
                a@.denom_units.take(i as int),
            ),
        decreases n - i,
    {
        if i > 0 {
            out.append(",");
            proof {
                reveal_strlit(",");
                assert(","@ =~= seq![',']);
            }
        }
        let u = &a.denom_units[i];
        proof {
            assert(a@.denom_units[i as int] == u@);
        }
        out.append("{\"denom\":\"");
        out.append(u.denom.as_str());
        out.append("\"}");
        proof {
            let taken = a@.denom_units.take(i as int);
            assert(a@.denom_units.take(i + 1) =~= taken.push(u@));
            if i == 0 {
                assert(taken.len() == 0);
                assert(a@.denom_units.take(i + 1) =~= seq![u@]);
                assert(enc_units(a@.denom_units.take(i + 1)) == enc_unit(u@));
                assert(out@ =~= lit_asset_pre() + a@.symbol + lit_asset_mid() + enc_units(
                    a@.denom_units.take(i + 1),
                ));
            } else {
                lemma_enc_units_snoc(a@.denom_units.take(i + 1));
                assert(a@.denom_units.take(i + 1).drop_last() =~= taken);
                assert(a@.denom_units.take(i + 1).last() == u@);
                assert(out@ =~= lit_asset_pre() + a@.symbol + lit_asset_mid() + enc_units(
                    a@.denom_units.take(i + 1),
                ));
            }
        }
        i = i + 1;
    }
    out.append("]}");
    proof {
        assert(a@.denom_units.take(n as int) =~= a@.denom_units);
        assert(out@ =~= enc_asset(a@));
    }
    out
}

/// Write a whole chain asset list in the cache format.
pub fn encode_chain_asset_list(l: &ChainAssetList) -> (r: String)
    ensures
        r@ == enc_list(l@),
{
    let mut out = String::from_str("{\"chain_name\":\"");
    out.append(l.chain_name.as_str());
    out.append("\",\"assets\":[");
    let n = l.assets.len();
    let mut i: usize = 0;
    while i < n
        invariant
            n == l.assets.len(),
            i <= n,
            out@ == lit_list_pre() + l@.chain_name + lit_list_mid() + enc_assets(
                l@.assets.take(i as int),
            ),
        decreases n - i,
    {
        if i > 0 {
            out.append(",");
            proof {
                reveal_strlit(",");
                assert(","@ =~= seq![',']);
            }
        }
        let a = &l.assets[i];
        proof {
            assert(l@.assets[i as int] == a@);
        }
        let ea = encode_asset(a);
        out.append(ea.as_str());
        proof {
            let taken = l@.assets.take(i as int);
            assert(l@.assets.take(i + 1) =~= taken.push(a@));
            if i == 0 {
                assert(l@.assets.take(i + 1) =~= seq![a@]);
                assert(enc_assets(l@.assets.take(i + 1)) == enc_asset(a@));
                assert(out@ =~= lit_list_pre() + l@.chain_name + lit_list_mid() + enc_assets(
                    l@.assets.take(i + 1),
                ));
            } else {
                lemma_enc_assets_snoc(l@.assets.take(i + 1));
                assert(l@.assets.take(i + 1).drop_last() =~= taken);
                assert(l@.assets.take(i + 1).last() == a@);
                assert(out@ =~= lit_list_pre() + l@.chain_name + lit_list_mid() + enc_assets(
                    l@.assets.take(i + 1),
                ));
            }
        }
        i = i + 1;
    }
    out.append("]}");
    proof {
        assert(l@.assets.take(n as int) =~= l@.assets);
        assert(out@ =~= enc_list(l@));
    }
    out
}

/// Consume an exact literal at `pos`.
pub open spec fn parse_lit(s: Seq<char>, pos: int, lit: Seq<char>) -> Option<int> {
    if 0 <= pos && pos + lit.len() <= s.len() && s.subrange(pos, pos + lit.len() as int) == lit {
        Some(pos + lit.len() as int)
    } else {
        None
    }
}

/// Consume string content up to and including the next quote.
pub open spec fn parse_str_content(s: Seq<char>, pos: int) -> Option<(Seq<char>, int)> {
    let k = first_index_from(s, '"', pos);
    if 0 <= pos && k < s.len() {
        Some((s.subrange(pos, k), k + 1))
    } else {
        None
    }
}

/// Consume one `{"denom":"<denom>"}` object.
pub open spec fn parse_unit_at(s: Seq<char>, pos: int) -> Option<(Seq<char>, int)> {
    match parse_lit(s, pos, lit_unit_pre()) {
        None => None,
        Some(p1) => match parse_str_content(s, p1) {
            None => None,
            Some((u, p2)) => match parse_lit(s, p2, "}"@) {
                None => None,
                Some(p3) => Some((u, p3)),
            },
        },
    }
}

/// Consume a non-empty comma-joined unit list and its closing `]`.
pub open spec fn parse_units_ne(s: Seq<char>, pos: int) -> Option<(Seq<Seq<char>>, int)>
    decreases s.len() - pos,
{
    match parse_unit_at(s, pos) {
        None => None,
        Some((u, p2)) => if !(pos < p2 && p2 < s.len()) {
            None
        } else if s[p2] == ',' {
            match parse_units_ne(s, p2 + 1) {
                None => None,
                Some((us, p3)) => Some((seq![u] + us, p3)),
            }
        } else {
            match parse_lit(s, p2, "]"@) {
                None => None,
                Some(p3) => Some((seq![u], p3)),
            }
        },
    }
}

/// Consume a possibly empty unit list and its closing `]`.
pub open spec fn parse_units_at(s: Seq<char>, pos: int) -> Option<(Seq<Seq<char>>, int)> {
    if 0 <= pos && pos < s.len() && s[pos] == ']' {
        Some((Seq::empty(), pos + 1))
    } else {
        parse_units_ne(s, pos)
    }
}

/// Consume one `{"symbol":...,"denom_units":[...]}` object.
pub open spec fn parse_asset_at(s: Seq<char>, pos: int) -> Option<(ChainAssetEntryView, int)> {
    match parse_lit(s, pos, lit_asset_pre()) {
        None => None,
        Some(p1) => match parse_str_content(s, p1) {
            None => None,
            Some((sym, p2)) => match parse_lit(s, p2, lit_asset_mid_tail()) {
                None => None,
                Some(p3) => match parse_units_at(s, p3) {
                    None => None,
                    Some((us, p4)) => match parse_lit(s, p4, "}"@) {
                        None => None,
                        Some(p5) => Some(
                            (ChainAssetEntryView { symbol: sym, denom_units: us }, p5),
                        ),
                    },
                },
            },
        },
    }
}

/// What remains of [`lit_asset_mid`] after string parsing has already
/// consumed its leading quote.
pub open spec fn lit_asset_mid_tail() -> Seq<char> {
    ",\"denom_units\":["@
}

/// What remains of [`lit_list_mid`] after string parsing has already
/// consumed its leading quote.
pub open spec fn lit_list_mid_tail() -> Seq<char> {
    ",\"assets\":["@
}

/// Consume a non-empty comma-joined row list and its closing `]`.
pub open spec fn parse_assets_ne(s: Seq<char>, pos: int) -> Option<(Seq<ChainAssetEntryView>, int)>
    decreases s.len() - pos,
{
    match parse_asset_at(s, pos) {
        None => None,
        Some((a, p2)) => if !(pos < p2 && p2 < s.len()) {
            None
        } else if s[p2] == ',' {
            match parse_assets_ne(s, p2 + 1) {
                None => None,
                Some((more, p3)) => Some((seq![a] + more, p3)),
            }
        } else {
            match parse_lit(s, p2, "]"@) {
                None => None,
                Some(p3) => Some((seq![a], p3)),
            }
        },
    }
}

/// Consume a possibly empty row list and its closing `]`.
pub open spec fn parse_assets_at(s: Seq<char>, pos: int) -> Option<(Seq<ChainAssetEntryView>, int)> {
    if 0 <= pos && pos < s.len() && s[pos] == ']' {
        Some((Seq::empty(), pos + 1))
    } else {
        parse_assets_ne(s, pos)
    }
}

/// Consume one whole `{"chain_name":...,"assets":[...]}` object.
pub open spec fn parse_list_at(s: Seq<char>, pos: int) -> Option<(ChainAssetListView, int)> {
    match parse_lit(s, pos, lit_list_pre()) {
        None => None,
        Some(p1) => match parse_str_content(s, p1) {
            None => None,
            Some((name, p2)) => match parse_lit(s, p2, lit_list_mid_tail()) {
                None => None,
                Some(p3) => match parse_assets_at(s, p3) {
                    None => None,
                    Some((assets, p4)) => match parse_lit(s, p4, "}"@) {
                        None => None,
                        Some(p5) => Some(
                            (ChainAssetListView { chain_name: name, assets }, p5),
                        ),
                    },
                },
            },
        },
    }
}

/// What a cache file parses to: the one object, which must span the whole
/// text.
pub open spec fn spec_parse_chain_list(s: Seq<char>) -> Option<ChainAssetListView> {
    match parse_list_at(s, 0) {
        Some((l, p)) => if p == s.len() {
            Some(l)
        } else {
            None
        },
        None => None,
    }
}

proof fn lemma_first_quote(s: Seq<char>, pos: int, m: int)
    requires
        0 <= pos,
        0 <= m,
        pos + m < s.len(),
        forall|j: int| pos <= j < pos + m ==> s[j] != '"',
        s[pos + m] == '"',
    ensures
        first_index_from(s, '"', pos) == pos + m,
    decreases m,
{
    if m > 0 {
        lemma_first_quote(s, pos + 1, m - 1);
    }
}

proof fn lemma_rt_str(s: Seq<char>, pos: int, content: Seq<char>)
    requires
        0 <= pos,
        plain(content),
        pos + content.len() < s.len(),
        s.subrange(pos, pos + content.len() as int) == content,
        s[pos + content.len()] == '"',
    ensures
        parse_str_content(s, pos) == Some((content, pos + content.len() + 1)),
{
    assert forall|j: int| pos <= j < pos + content.len() implies s[j] != '"' by {
        assert(s.subrange(pos, pos + content.len() as int)[j - pos] == s[j]);
    }
    lemma_first_quote(s, pos, content.len() as int);
    assert(s.subrange(pos, pos + content.len() as int) == content);
}

proof fn lemma_rt_unit(s: Seq<char>, pos: int, u: Seq<char>)
    requires
        0 <= pos,
        plain(u),
        pos + enc_unit(u).len() <= s.len(),
        s.subrange(pos, pos + enc_unit(u).len() as int) == enc_unit(u),
    ensures
        parse_unit_at(s, pos) == Some((u, pos + enc_unit(u).len() as int)),
        enc_unit(u).len() == u.len() + 12,
{
    reveal_strlit("{\"denom\":\"");
    reveal_strlit("\"}");
    reveal_strlit("}");
    let e = enc_unit(u);
    assert(lit_unit_pre().len() == 10);
    assert(lit_str_close().len() == 2);
    assert(e.len() == u.len() + 12);
    assert forall|j: int| 0 <= j < e.len() implies s[pos + j] == e[j] by {
        assert(s.subrange(pos, pos + e.len() as int)[j] == s[pos + j]);
    }
    assert(s.subrange(pos, pos + 10) =~= lit_unit_pre());
    assert(parse_lit(s, pos, lit_unit_pre()) == Some(pos + 10));
    let p1 = pos + 10;
    assert(s.subrange(p1, p1 + u.len() as int) =~= u) by {
        assert forall|j: int| 0 <= j < u.len() implies s.subrange(p1, p1 + u.len() as int)[j]
            == u[j] by {
            assert(s[pos + (10 + j)] == e[10 + j]);
            assert(e[10 + j] == u[j]);
        }
    }
    assert(s[p1 + u.len()] == e[10 + u.len() as int]);
    assert(e[10 + u.len() as int] == lit_str_close()[0]);
    assert(s[p1 + u.len()] == '"');
    lemma_rt_str(s, p1, u);
    let p2 = p1 + u.len() + 1;
    assert(s[p2] == e[11 + u.len() as int]);
    assert(s[p2] == '}');
    assert(s.subrange(p2, p2 + 1) =~= "}"@);
    assert(parse_lit(s, p2, "}"@) == Some(p2 + 1));
}

proof fn lemma_rt_units(s: Seq<char>, pos: int, us: Seq<Seq<char>>)
    requires
        0 <= pos,
        forall|i: int| 0 <= i < us.len() ==> plain(#[trigger] us[i]),
        pos + enc_units(us).len() + 1 <= s.len(),
        s.subrange(pos, pos + enc_units(us).len() as int) == enc_units(us),
        s[pos + enc_units(us).len()] == ']',
    ensures
        parse_units_at(s, pos) == Some((us, pos + enc_units(us).len() + 1)),
    decreases us.len(),
{
    reveal_strlit("{\"denom\":\"");
    reveal_strlit("\"}");
    reveal_strlit("]");
    let e = enc_units(us);
    assert forall|j: int| 0 <= j < e.len() implies s[pos + j] == e[j] by {
        assert(s.subrange(pos, pos + e.len() as int)[j] == s[pos + j]);
    }
    if us.len() == 0 {
        assert(s[pos] == ']');
    } else {
        let e0 = enc_unit(us[0]);
        assert(lit_unit_pre().len() == 10);
        assert(e0.len() >= 12);
        if us.len() == 1 {
            assert(e == e0);
            assert(plain(us[0]));
            lemma_rt_unit(s, pos, us[0]);
            let p2 = pos + e0.len() as int;
            assert(s[pos] == e0[0]);
            assert(e0[0] == lit_unit_pre()[0]);
            assert(s[pos] == '{');
            assert(s[p2] == ']');
            assert(s.subrange(p2, p2 + 1) =~= "]"@);
            assert(parse_lit(s, p2, "]"@) == Some(p2 + 1));
            assert(parse_units_ne(s, pos) == Some((seq![us[0]], p2 + 1)));
            assert(seq![us[0]] =~= us);
        } else {
            assert(e == e0 + seq![','] + enc_units(us.drop_first()));
            assert(s.subrange(pos, pos + e0.len() as int) =~= e0) by {
                assert forall|j: int| 0 <= j < e0.len() implies s[pos + j] == e0[j] by {
                    assert(e[j] == (e0 + seq![','] + enc_units(us.drop_first()))[j]);
                }
            }
            assert(plain(us[0]));
            lemma_rt_unit(s, pos, us[0]);
            let p2 = pos + e0.len() as int;
            assert(s.subrange(pos, pos + e0.len() as int)[0] == s[pos]);
            assert(e0[0] == lit_unit_pre()[0]);
            assert(s[pos] == '{');
            assert(s[p2] == e[e0.len() as int]);
            assert(s[p2] == ',');
            let rest = us.drop_first();
            let er = enc_units(rest);
            assert(e.len() == e0.len() + 1 + er.len());
            assert(s.subrange(p2 + 1, p2 + 1 + er.len() as int) =~= er) by {
                assert forall|j: int| 0 <= j < er.len() implies s[p2 + 1 + j] == er[j] by {
                    assert(e[e0.len() + 1 + j] == er[j]);
                    assert(s[pos + (e0.len() + 1 + j)] == e[e0.len() + 1 + j]);
                }
            }
            assert(s[p2 + 1 + er.len()] == ']');
            assert(forall|i: int| 0 <= i < rest.len() ==> plain(#[trigger] rest[i])) by {
                assert(forall|i: int| 0 <= i < rest.len() ==> rest[i] == us[i + 1]);
            }
            lemma_rt_units(s, p2 + 1, rest);
            assert(s[p2 + 1] == er[0]);
            assert(er[0] == enc_unit(rest[0])[0]);
            assert(s[p2 + 1] == '{');
            assert(parse_units_at(s, p2 + 1) == Some((rest, p2 + 1 + er.len() + 1)));
            assert(parse_units_ne(s, p2 + 1) == Some((rest, p2 + 1 + er.len() + 1)));
            assert(parse_units_ne(s, pos) == Some((seq![us[0]] + rest, pos + e.len() + 1)));
            assert(seq![us[0]] + rest =~= us);
        }
        assert(s[pos] == e[0]);
        assert(e[0] == e0[0]);
        assert(e0[0] == lit_unit_pre()[0]);
        assert(s[pos] == '{');
        assert(parse_units_at(s, pos) == parse_units_ne(s, pos));
    }
}

proof fn lemma_rt_asset(s: Seq<char>, pos: int, a: ChainAssetEntryView)
    requires
        0 <= pos,
        plain(a.symbol),
        forall|i: int| 0 <= i < a.denom_units.len() ==> plain(#[trigger] a.denom_units[i]),
        pos + enc_asset(a).len() <= s.len(),
        s.subrange(pos, pos + enc_asset(a).len() as int) == enc_asset(a),
    ensures
        parse_asset_at(s, pos) == Some((a, pos + enc_asset(a).len() as int)),
        enc_asset(a).len() == a.symbol.len() + enc_units(a.denom_units).len() + 30,
{
    reveal_strlit("{\"symbol\":\"");
    reveal_strlit("\",\"denom_units\":[");
    reveal_strlit(",\"denom_units\":[");
    reveal_strlit("]}");
    reveal_strlit("}");
    let e = enc_asset(a);
    assert(lit_asset_pre().len() == 11);
    assert(lit_asset_mid().len() == 17);
    assert(lit_seq_close().len() == 2);
    let eu = enc_units(a.denom_units);
    assert(e.len() == a.symbol.len() + eu.len() + 30);
    assert forall|j: int| 0 <= j < e.len() implies s[pos + j] == e[j] by {
        assert(s.subrange(pos, pos + e.len() as int)[j] == s[pos + j]);
    }
    assert(s.subrange(pos, pos + 11) =~= lit_asset_pre());
    assert(parse_lit(s, pos, lit_asset_pre()) == Some(pos + 11));
    let p1 = pos + 11;
    assert(s.subrange(p1, p1 + a.symbol.len() as int) =~= a.symbol) by {
        assert forall|j: int| 0 <= j < a.symbol.len() implies s.subrange(
            p1,
            p1 + a.symbol.len() as int,
        )[j] == a.symbol[j] by {
            assert(s[pos + (11 + j)] == e[11 + j]);
            assert(e[11 + j] == a.symbol[j]);
        }
    }
    assert(s[p1 + a.symbol.len()] == e[11 + a.symbol.len() as int]);
    assert(e[11 + a.symbol.len() as int] == lit_asset_mid()[0]);
    assert(s[p1 + a.symbol.len()] == '"');
    lemma_rt_str(s, p1, a.symbol);
    let p2 = p1 + a.symbol.len() + 1;
    assert(lit_asset_mid_tail().len() == 16);
    assert(s.subrange(p2, p2 + 16) =~= lit_asset_mid_tail()) by {
        assert forall|j: int| 0 <= j < 16 implies s[p2 + j] == lit_asset_mid_tail()[j] by {
            assert(s[pos + (12 + a.symbol.len() + j)] == e[12 + a.symbol.len() + j]);
            assert(e[12 + a.symbol.len() + j] == lit_asset_mid()[j + 1]);
            assert(lit_asset_mid()[j + 1] == lit_asset_mid_tail()[j]);
        }
    }
    assert(parse_lit(s, p2, lit_asset_mid_tail()) == Some(p2 + 16));
    let p3 = p2 + 16;
    assert(p3 == pos + 28 + a.symbol.len());
    assert(s.subrange(p3, p3 + eu.len() as int) =~= eu) by {
        assert forall|j: int| 0 <= j < eu.len() implies s[p3 + j] == eu[j] by {
            assert(s[pos + (28 + a.symbol.len() + j)] == e[28 + a.symbol.len() + j]);
            assert(e[28 + a.symbol.len() + j] == eu[j]);
        }
    }
    assert(s[p3 + eu.len()] == e[28 + a.symbol.len() as int + eu.len() as int]);
    assert(e[28 + a.symbol.len() as int + eu.len() as int] == lit_seq_close()[0]);
    assert(s[p3 + eu.len()] == ']');
    lemma_rt_units(s, p3, a.denom_units);
    let p4 = p3 + eu.len() + 1;
    assert(s[p4] == e[29 + a.symbol.len() as int + eu.len() as int]);
    assert(s[p4] == '}');
    assert(s.subrange(p4, p4 + 1) =~= "}"@);
    assert(parse_lit(s, p4, "}"@) == Some(p4 + 1));
    assert(p4 + 1 == pos + e.len());
    assert(parse_asset_at(s, pos) == Some(
        (ChainAssetEntryView { symbol: a.symbol, denom_units: a.denom_units }, pos + e.len()),
    ));
    assert(ChainAssetEntryView { symbol: a.symbol, denom_units: a.denom_units } == a);
}

proof fn lemma_rt_assets(s: Seq<char>, pos: int, assets: Seq<ChainAssetEntryView>)
    requires
        0 <= pos,
        forall|i: int|
            0 <= i < assets.len() ==> plain((#[trigger] assets[i]).symbol) && forall|j: int|
                0 <= j < assets[i].denom_units.len() ==> plain(
                    #[trigger] assets[i].denom_units[j],
                ),
        pos + enc_assets(assets).len() + 1 <= s.len(),
        s.subrange(pos, pos + enc_assets(assets).len() as int) == enc_assets(assets),
        s[pos + enc_assets(assets).len()] == ']',
    ensures
        parse_assets_at(s, pos) == Some((assets, pos + enc_assets(assets).len() + 1)),
    decreases assets.len(),
{
    reveal_strlit("{\"symbol\":\"");
    reveal_strlit("]");
    let e = enc_assets(assets);
    assert forall|j: int| 0 <= j < e.len() implies s[pos + j] == e[j] by {
        assert(s.subrange(pos, pos + e.len() as int)[j] == s[pos + j]);
    }
    if assets.len() == 0 {
        assert(s[pos] == ']');
    } else {
        let a0 = assets[0];
        let e0 = enc_asset(a0);
        assert(lit_asset_pre().len() == 11);
        if assets.len() == 1 {
            assert(e == e0);
            lemma_rt_asset(s, pos, a0);
            let p2 = pos + e0.len() as int;
            assert(s[pos] == e0[0]);
            assert(e0[0] == lit_asset_pre()[0]);
            assert(s[pos] == '{');
            assert(s[p2] == ']');
            assert(s.subrange(p2, p2 + 1) =~= "]"@);
            assert(parse_lit(s, p2, "]"@) == Some(p2 + 1));
            assert(parse_assets_ne(s, pos) == Some((seq![a0], p2 + 1)));
            assert(seq![a0] =~= assets);
        } else {
            assert(e == e0 + seq![','] + enc_assets(assets.drop_first()));
            assert(s.subrange(pos, pos + e0.len() as int) =~= e0) by {
                assert forall|j: int| 0 <= j < e0.len() implies s[pos + j] == e0[j] by {
                    assert(e[j] == (e0 + seq![','] + enc_assets(assets.drop_first()))[j]);
                }
            }
            lemma_rt_asset(s, pos, a0);
            let p2 = pos + e0.len() as int;
            assert(s.subrange(pos, pos + e0.len() as int)[0] == s[pos]);
            assert(e0[0] == lit_asset_pre()[0]);
            assert(s[pos] == '{');
            assert(s[p2] == e[e0.len() as int]);
            assert(s[p2] == ',');
            let rest = assets.drop_first();
            let er = enc_assets(rest);
            assert(e.len() == e0.len() + 1 + er.len());
            assert(s.subrange(p2 + 1, p2 + 1 + er.len() as int) =~= er) by {
                assert forall|j: int| 0 <= j < er.len() implies s[p2 + 1 + j] == er[j] by {
                    assert(e[e0.len() + 1 + j] == er[j]);
                    assert(s[pos + (e0.len() + 1 + j)] == e[e0.len() + 1 + j]);
                }
            }
            assert(s[p2 + 1 + er.len()] == ']');
            assert(forall|i: int| 0 <= i < rest.len() ==> rest[i] == assets[i + 1]);
            lemma_rt_assets(s, p2 + 1, rest);
            assert(s[p2 + 1] == er[0]);
            assert(er[0] == enc_asset(rest[0])[0]);
            assert(s[p2 + 1] == '{');
            assert(parse_assets_at(s, p2 + 1) == Some((rest, p2 + 1 + er.len() + 1)));
            assert(parse_assets_ne(s, p2 + 1) == Some((rest, p2 + 1 + er.len() + 1)));
            assert(parse_assets_ne(s, pos) == Some((seq![a0] + rest, pos + e.len() + 1)));
            assert(seq![a0] + rest =~= assets);
        }
        assert(s[pos] == e[0]);
        assert(e[0] == e0[0]);
        assert(e0[0] == lit_asset_pre()[0]);
        assert(s[pos] == '{');
        assert(parse_assets_at(s, pos) == parse_assets_ne(s, pos));
    }
}

/// A chain asset list written in the cache format reads back
/// field-for-field identical, for every list whose strings hold no quote
/// character.
pub proof fn lemma_cache_round_trip(l: ChainAssetListView)
    requires
        plain_list(l),
    ensures
        spec_parse_chain_list(enc_list(l)) == Some(l),
{
    reveal_strlit("{\"chain_name\":\"");
    reveal_strlit("\",\"assets\":[");
    reveal_strlit(",\"assets\":[");
    reveal_strlit("]}");
    reveal_strlit("}");
    let s = enc_list(l);
    let e = s;
    assert(lit_list_pre().len() == 15);
    assert(lit_list_mid().len() == 12);
    assert(lit_seq_close().len() == 2);
    let ea = enc_assets(l.assets);
    assert(s.len() == l.chain_name.len() + ea.len() + 29);
    assert(forall|j: int| 0 <= j < e.len() ==> s[j] == e[j]);
    assert(s.subrange(0, 15) =~= lit_list_pre());
    assert(parse_lit(s, 0, lit_list_pre()) == Some(15int));
    let p1 = 15int;
    assert(s.subrange(p1, p1 + l.chain_name.len() as int) =~= l.chain_name);
    assert(s[p1 + l.chain_name.len()] == e[15 + l.chain_name.len() as int]);
    assert(e[15 + l.chain_name.len() as int] == lit_list_mid()[0]);
    assert(s[p1 + l.chain_name.len()] == '"');
    lemma_rt_str(s, p1, l.chain_name);
    let p2 = p1 + l.chain_name.len() + 1;
    assert(lit_list_mid_tail().len() == 11);
    assert(s.subrange(p2, p2 + 11) =~= lit_list_mid_tail()) by {
        assert forall|j: int| 0 <= j < 11 implies s[p2 + j] == lit_list_mid_tail()[j] by {
            assert(s[16 + l.chain_name.len() + j] == e[16 + l.chain_name.len() + j]);
            assert(e[16 + l.chain_name.len() + j] == lit_list_mid()[j + 1]);
            assert(lit_list_mid()[j + 1] == lit_list_mid_tail()[j]);
        }
    }
    assert(parse_lit(s, p2, lit_list_mid_tail()) == Some(p2 + 11));
    let p3 = p2 + 11;
    assert(p3 == 27 + l.chain_name.len());
    assert(s.subrange(p3, p3 + ea.len() as int) =~= ea) by {
        assert forall|j: int| 0 <= j < ea.len() implies s[p3 + j] == ea[j] by {
            assert(s[27 + l.chain_name.len() + j] == e[27 + l.chain_name.len() + j]);
            assert(e[27 + l.chain_name.len() + j] == ea[j]);
        }
    }
    assert(s[p3 + ea.len()] == e[27 + l.chain_name.len() as int + ea.len() as int]);
    assert(e[27 + l.chain_name.len() as int + ea.len() as int] == lit_seq_close()[0]);
    assert(s[p3 + ea.len()] == ']');
    lemma_rt_assets(s, p3, l.assets);
    let p4 = p3 + ea.len() + 1;
    assert(s[p4] == e[28 + l.chain_name.len() as int + ea.len() as int]);
    assert(s[p4] == '}');
    assert(s.subrange(p4, p4 + 1) =~= "}"@);
    assert(parse_lit(s, p4, "}"@) == Some(p4 + 1));
    assert(p4 + 1 == s.len());
    assert(parse_list_at(s, 0) == Some(
        (ChainAssetListView { chain_name: l.chain_name, assets: l.assets }, s.len() as int),
    ));
    assert(ChainAssetListView { chain_name: l.chain_name, assets: l.assets } == l);
}

/// Check an exact literal at `pos`.
fn expect_lit(s: &str, pos: usize, lit: &str) -> (r: Option<usize>)
    requires
        pos <= s@.len(),
    ensures
        match r {
            Some(p) => parse_lit(s@, pos as int, lit@) == Some(p as int),
            None => parse_lit(s@, pos as int, lit@) is None,
        },
{
    let n: usize = s.unicode_len();
    let m: usize = lit.unicode_len();
    if m > n - pos {
        return None;
    }
    let mut i: usize = 0;
    while i < m
        invariant
            n == s@.len(),
            m == lit@.len(),
            pos + m <= n,
            i <= m,
            forall|j: int| 0 <= j < i ==> s@[pos + j] == lit@[j],
        decreases m - i,
    {
        if s.get_char(pos + i) != lit.get_char(i) {
            proof {
                assert(s@.subrange(pos as int, pos + m) != lit@) by {
                    assert(s@.subrange(pos as int, pos + m)[i as int] == s@[pos + i]);
                }
            }
            return None;
        }
        i = i + 1;
    }
    proof {
        assert(s@.subrange(pos as int, pos + m) =~= lit@);
    }
    Some(pos + m)
}

/// Scan string content up to and including the next quote.
fn scan_str_content(s: &str, pos: usize) -> (r: Option<(String, usize)>)
    requires
        pos <= s@.len(),
    ensures
        match r {
            Some(p) => parse_str_content(s@, pos as int) == Some((p.0@, p.1 as int)),
            None => parse_str_content(s@, pos as int) is None,
        },
{
    let n: usize = s.unicode_len();
    let k = crate::text::find_char(s, '"', pos);
    proof {
        crate::text::lemma_first_index_from_bounds(s@, '"', pos as int);
    }
    if k == n {
        return None;
    }
    let content = s.substring_char(pos, k);
    Some((String::from_str(content), k + 1))
}

/// Parse one unit object.
fn parse_unit_exec(s: &str, pos: usize) -> (r: Option<(DenomUnit, usize)>)
    requires
        pos <= s@.len(),
    ensures
        match r {
            Some(p) => parse_unit_at(s@, pos as int) == Some((p.0@, p.1 as int)) && p.1
                <= s@.len(),
            None => parse_unit_at(s@, pos as int) is None,
        },
{
    let p1 = match expect_lit(s, pos, "{\"denom\":\"") {
        Some(p) => p,
        None => {
            return None;
        },
    };
    let (den, p2) = match scan_str_content(s, p1) {
        Some(p) => p,
        None => {
            return None;
        },
    };
    let p3 = match expect_lit(s, p2, "}") {
        Some(p) => p,
        None => {
            return None;
        },
    };
    Some((DenomUnit { denom: den }, p3))
}

/// Parse a possibly empty unit list with its closing `]`.
fn parse_units_exec(s: &str, pos: usize) -> (r: Option<(Vec<DenomUnit>, usize)>)
    requires
        pos <= s@.len(),
    ensures
        match r {
            Some(p) => parse_units_at(s@, pos as int) matches Some(q) && q.0 == p.0@.map_values(
                |u: DenomUnit| u@,
            ) && q.1 == p.1 as int && p.1 <= s@.len(),
            None => parse_units_at(s@, pos as int) is None,
        },
{
    let n: usize = s.unicode_len();
    if pos < n && s.get_char(pos) == ']' {
        let v: Vec<DenomUnit> = Vec::new();
        proof {
            assert(v@.map_values(|u: DenomUnit| u@) =~= Seq::<Seq<char>>::empty());
        }
        return Some((v, pos + 1));
    }
    parse_units_ne_exec(s, pos)
}

/// Parse a non-empty unit list with its closing `]`.
fn parse_units_ne_exec(s: &str, pos: usize) -> (r: Option<(Vec<DenomUnit>, usize)>)
    requires
        pos <= s@.len(),
    ensures
        match r {
            Some(p) => parse_units_ne(s@, pos as int) matches Some(q) && q.0 == p.0@.map_values(
                |u: DenomUnit| u@,
            ) && q.1 == p.1 as int && p.1 <= s@.len(),
            None => parse_units_ne(s@, pos as int) is None,
        },
    decreases s@.len() - pos,
{
    let n: usize = s.unicode_len();
    let (u, p2) = match parse_unit_exec(s, pos) {
        Some(p) => p,
        None => {
            return None;
        },
    };
    if !(pos < p2 && p2 < n) {
        return None;
    }
    if s.get_char(p2) == ',' {
        match parse_units_ne_exec(s, p2 + 1) {
            None => None,
            Some((mut us, p3)) => {
                us.insert(0, u);
                proof {
                    let q = parse_units_ne(s@, p2 + 1)->Some_0;
                    assert(us@.map_values(|x: DenomUnit| x@) =~= seq![u@] + q.0);
                }
                Some((us, p3))
            },
        }
    } else {
        let p3 = match expect_lit(s, p2, "]") {
            Some(p) => p,
            None => {
                return None;
            },
        };
        let mut us: Vec<DenomUnit> = Vec::new();
        us.push(u);
        proof {
            assert(us@.map_values(|x: DenomUnit| x@) =~= seq![us@[0]@]);
        }
        Some((us, p3))
    }
}

/// Parse one registry row object.
fn parse_asset_exec(s: &str, pos: usize) -> (r: Option<(ChainAssetEntry, usize)>)
    requires
        pos <= s@.len(),
    ensures
        match r {
            Some(p) => parse_asset_at(s@, pos as int) == Some((p.0@, p.1 as int)) && p.1
                <= s@.len(),
            None => parse_asset_at(s@, pos as int) is None,
        },
{
    let p1 = match expect_lit(s, pos, "{\"symbol\":\"") {
        Some(p) => p,
        None => {
            return None;
        },
    };
    let (sym, p2) = match scan_str_content(s, p1) {
        Some(p) => p,
        None => {
            return None;
        },
    };
    let p3 = match expect_lit(s, p2, ",\"denom_units\":[") {
        Some(p) => p,
        None => {
            return None;
        },
    };
    let (units, p4) = match parse_units_exec(s, p3) {
        Some(p) => p,
        None => {
            return None;
        },
    };
    let p5 = match expect_lit(s, p4, "}") {
        Some(p) => p,
        None => {
            return None;
        },
    };
    let entry = ChainAssetEntry { symbol: sym, denom_units: units };
    proof {
        assert(entry@.denom_units =~= parse_asset_at(s@, pos as int)->Some_0.0.denom_units);
        assert(entry@ == parse_asset_at(s@, pos as int)->Some_0.0);
    }
    Some((entry, p5))
}

/// Parse a possibly empty row list with its closing `]`.
fn parse_assets_exec(s: &str, pos: usize) -> (r: Option<(Vec<ChainAssetEntry>, usize)>)
    requires
        pos <= s@.len(),
    ensures
        match r {
            Some(p) => parse_assets_at(s@, pos as int) matches Some(q) && q.0 == p.0@.map_values(
                |a: ChainAssetEntry| a@,
            ) && q.1 == p.1 as int && p.1 <= s@.len(),
            None => parse_assets_at(s@, pos as int) is None,
        },
{
    let n: usize = s.unicode_len();
    if pos < n && s.get_char(pos) == ']' {
        let v: Vec<ChainAssetEntry> = Vec::new();
        proof {
            assert(v@.map_values(|a: ChainAssetEntry| a@) =~= Seq::<
                ChainAssetEntryView,
            >::empty());
        }
        return Some((v, pos + 1));
    }
    parse_assets_ne_exec(s, pos)
}

/// Parse a non-empty row list with its closing `]`.
fn parse_assets_ne_exec(s: &str, pos: usize) -> (r: Option<(Vec<ChainAssetEntry>, usize)>)
    requires
        pos <= s@.len(),
    ensures
        match r {
            Some(p) => parse_assets_ne(s@, pos as int) matches Some(q) && q.0 == p.0@.map_values(
                |a: ChainAssetEntry| a@,
            ) && q.1 == p.1 as int && p.1 <= s@.len(),
            None => parse_assets_ne(s@, pos as int) is None,
        },
    decreases s@.len() - pos,
{
    let n: usize = s.unicode_len();
    let (a, p2) = match parse_asset_exec(s, pos) {
        Some(p) => p,
        None => {
            return None;
        },
    };
    if !(pos < p2 && p2 < n) {
        return None;
    }
    if s.get_char(p2) == ',' {
        match parse_assets_ne_exec(s, p2 + 1) {
            None => None,
            Some((mut more, p3)) => {
                more.insert(0, a);
                proof {
                    let q = parse_assets_ne(s@, p2 + 1)->Some_0;
                    assert(more@.map_values(|x: ChainAssetEntry| x@) =~= seq![more@[0]@] + q.0);
                }
                Some((more, p3))
            },
        }
    } else {
        let p3 = match expect_lit(s, p2, "]") {
            Some(p) => p,
            None => {
                return None;
            },
        };
        let mut v: Vec<ChainAssetEntry> = Vec::new();
        v.push(a);
        proof {
            assert(v@.map_values(|x: ChainAssetEntry| x@) =~= seq![v@[0]@]);
        }
        Some((v, p3))
    }
}

/// Parse a cache file back into a chain asset list: succeeds exactly on
/// texts of the writer's shape that span the whole input.
pub fn parse_chain_asset_list(s: &str) -> (r: Option<ChainAssetList>)
    ensures
        match r {
            Some(l) => spec_parse_chain_list(s@) == Some(l@),
            None => spec_parse_chain_list(s@) is None,
        },
{
    let n: usize = s.unicode_len();
    let p1 = match expect_lit(s, 0, "{\"chain_name\":\"") {
        Some(p) => p,
        None => {
            return None;
        },
    };
    let (name, p2) = match scan_str_content(s, p1) {
        Some(p) => p,
        None => {
            return None;
        },
    };
    let p3 = match expect_lit(s, p2, ",\"assets\":[") {
        Some(p) => p,
        None => {
            return None;
        },
    };
    let (assets, p4) = match parse_assets_exec(s, p3) {
        Some(p) => p,
        None => {
            return None;
        },
    };
    let p5 = match expect_lit(s, p4, "}") {
        Some(p) => p,
        None => {
            return None;
        },
    };
    if p5 != n {
        return None;
    }
    let list = ChainAssetList { chain_name: name, assets };
    proof {
        assert(list@.assets =~= parse_list_at(s@, 0)->Some_0.0.assets);
        assert(list@ == parse_list_at(s@, 0)->Some_0.0);
    }
    Some(list)
}

} // verus!
