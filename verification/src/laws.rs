//! The general properties of the matcher, stated and proved once for all
//! inputs: side validation, no-match rounds, quantity conservation, band
//! respect, the two pricing rules, and eligibility of equal-price pairs.

use vstd::prelude::*;

use crate::engine::{combinatorial_trades, greedy_trades};
use crate::matching::{
    dec_qty, match_scan, min_u32, rec_at, scan_from, trade_at_pair_price, trade_at_uniform_price,
    uniform_price_twice, MatchRec,
};
use crate::order::{
    all_sides, eligible, first_bad_from, side_error, AuctionError, Nbbo, Order, Side,
};
use crate::sorting::{lemma_sort_asc_contains, lemma_sort_desc_contains, sort_asc, sort_desc};

verus! {

/// What holds of every recorded match: positive quantity, a crossing
/// pair of prices, and both prices inside or at the band.
pub open spec fn rec_in_band(nbbo: Nbbo, m: MatchRec) -> bool {
    &&& m.quantity > 0
    &&& m.sell_price <= m.buy_price
    &&& m.buy_price <= nbbo.ask
    &&& m.sell_price >= nbbo.bid
}

/// Total quantity the matches take from the buy order at position `bi`
/// of the sorted buy list.
pub open spec fn buy_fill(ms: Seq<MatchRec>, bi: int) -> int
    decreases ms.len(),
{
    if ms.len() == 0 {
        0
    } else {
        (if ms[0].buy_idx as int == bi {
            ms[0].quantity as int
        } else {
            0
        }) + buy_fill(ms.drop_first(), bi)
    }
}

/// Total quantity the matches take from the sell order at position `sj`
/// of the sorted sell list.
pub open spec fn sell_fill(ms: Seq<MatchRec>, sj: int) -> int
    decreases ms.len(),
{
    if ms.len() == 0 {
        0
    } else {
        (if ms[0].sell_idx as int == sj {
            ms[0].quantity as int
        } else {
            0
        }) + sell_fill(ms.drop_first(), sj)
    }
}

proof fn lemma_fill_cons(m: MatchRec, ms: Seq<MatchRec>, idx: int)
    ensures
        buy_fill(seq![m] + ms, idx) == (if m.buy_idx as int == idx {
            m.quantity as int
        } else {
            0
        }) + buy_fill(ms, idx),
        sell_fill(seq![m] + ms, idx) == (if m.sell_idx as int == idx {
            m.quantity as int
        } else {
            0
        }) + sell_fill(ms, idx),
{
    assert((seq![m] + ms).drop_first() =~= ms);
    assert((seq![m] + ms)[0] == m);
}

/// The joint induction behind conservation and band respect: every match
/// the scan emits from (i, j) onward is in band, points into the two
/// lists, and no order's fills exceed its remaining quantity.
proof fn lemma_scan_from_props(nbbo: Nbbo, bs: Seq<Order>, ss: Seq<Order>, i: int, j: int)
    requires
        bs.len() <= usize::MAX,
        ss.len() <= usize::MAX,
    ensures
        forall|k: int|
            0 <= k < scan_from(nbbo, bs, ss, i, j).len() ==> rec_in_band(
                nbbo,
                #[trigger] scan_from(nbbo, bs, ss, i, j)[k],
            ) && scan_from(nbbo, bs, ss, i, j)[k].buy_idx < bs.len() && scan_from(
                nbbo,
                bs,
                ss,
                i,
                j,
            )[k].sell_idx < ss.len() && scan_from(nbbo, bs, ss, i, j)[k].quantity <= bs[scan_from(
                nbbo,
                bs,
                ss,
                i,
                j,
            )[k].buy_idx as int].quantity && scan_from(nbbo, bs, ss, i, j)[k].quantity <= ss[
                scan_from(nbbo, bs, ss, i, j)[k].sell_idx as int].quantity,
        forall|bi: int|
            0 <= bi < bs.len() ==> #[trigger] buy_fill(scan_from(nbbo, bs, ss, i, j), bi)
                <= bs[bi].quantity,
        forall|sj: int|
            0 <= sj < ss.len() ==> #[trigger] sell_fill(scan_from(nbbo, bs, ss, i, j), sj)
                <= ss[sj].quantity,
    decreases bs.len() - i, ss.len() - j,
{
    let res = scan_from(nbbo, bs, ss, i, j);
    if i < 0 || j < 0 || i >= bs.len() {
        assert(res =~= Seq::<MatchRec>::empty());
    } else if j >= ss.len() {
        lemma_scan_from_props(nbbo, bs, ss, i + 1, 0);
        assert(res == scan_from(nbbo, bs, ss, i + 1, 0));
    } else if eligible(nbbo, bs[i], ss[j]) {
        let q = min_u32(bs[i].quantity, ss[j].quantity);
        let m = rec_at(bs, ss, i, j);
        let bs2 = bs.update(i, dec_qty(bs[i], q));
        let ss2 = ss.update(j, dec_qty(ss[j], q));
        let rest = scan_from(nbbo, bs2, ss2, i, j + 1);
        lemma_scan_from_props(nbbo, bs2, ss2, i, j + 1);
        assert(res == seq![m] + rest);
        assert(rec_in_band(nbbo, m));
        assert(m.buy_idx as int == i && m.sell_idx as int == j);
        assert forall|k: int| 0 <= k < res.len() implies rec_in_band(nbbo, #[trigger] res[k])
            && res[k].buy_idx < bs.len() && res[k].sell_idx < ss.len() && res[k].quantity
            <= bs[res[k].buy_idx as int].quantity && res[k].quantity <= ss[res[k].sell_idx as int].quantity by {
            if k == 0 {
                assert(res[k] == m);
            } else {
                assert(res[k] == rest[k - 1]);
                assert(rec_in_band(nbbo, rest[k - 1]));
                assert(rest[k - 1].quantity <= bs2[rest[k - 1].buy_idx as int].quantity);
                assert(rest[k - 1].quantity <= ss2[rest[k - 1].sell_idx as int].quantity);
                assert(bs2[res[k].buy_idx as int].quantity <= bs[res[k].buy_idx as int].quantity);
                assert(ss2[res[k].sell_idx as int].quantity <= ss[res[k].sell_idx as int].quantity);
            }
        }
        assert forall|bi: int| 0 <= bi < bs.len() implies #[trigger] buy_fill(res, bi)
            <= bs[bi].quantity by {
            lemma_fill_cons(m, rest, bi);
            assert(buy_fill(rest, bi) <= bs2[bi].quantity);
            if bi == i {
                assert(bs2[bi].quantity == bs[bi].quantity - q);
            } else {
                assert(bs2[bi] == bs[bi]);
            }
        }
        assert forall|sj: int| 0 <= sj < ss.len() implies #[trigger] sell_fill(res, sj)
            <= ss[sj].quantity by {
            lemma_fill_cons(m, rest, sj);
            assert(sell_fill(rest, sj) <= ss2[sj].quantity);
            if sj == j {
                assert(ss2[sj].quantity == ss[sj].quantity - q);
            } else {
                assert(ss2[sj] == ss[sj]);
            }
        }
    } else {
        lemma_scan_from_props(nbbo, bs, ss, i, j + 1);
        assert(res == scan_from(nbbo, bs, ss, i, j + 1));
    }
}

/// Quantity conservation: every recorded match trades a positive quantity
/// no larger than either order's original quantity, and the summed fills
/// of each buy or sell order never exceed that order's original quantity.
/// Stated over the sorted lists the scan runs on; `buy_idx`/`sell_idx`
/// are positions in those lists.
pub proof fn lemma_quantity_conservation(nbbo: Nbbo, bs: Seq<Order>, ss: Seq<Order>)
    requires
        bs.len() <= usize::MAX,
        ss.len() <= usize::MAX,
    ensures
        forall|k: int|
            0 <= k < match_scan(nbbo, bs, ss).len() ==> (#[trigger] match_scan(nbbo, bs, ss)[k]).quantity
                > 0 && match_scan(nbbo, bs, ss)[k].buy_idx < bs.len() && match_scan(
                nbbo,
                bs,
                ss,
            )[k].sell_idx < ss.len() && match_scan(nbbo, bs, ss)[k].quantity <= bs[match_scan(
                nbbo,
                bs,
                ss,
            )[k].buy_idx as int].quantity && match_scan(nbbo, bs, ss)[k].quantity <= ss[match_scan(
                nbbo,
                bs,
                ss,
            )[k].sell_idx as int].quantity,
        forall|bi: int|
            0 <= bi < bs.len() ==> #[trigger] buy_fill(match_scan(nbbo, bs, ss), bi)
                <= bs[bi].quantity,
        forall|sj: int|
            0 <= sj < ss.len() ==> #[trigger] sell_fill(match_scan(nbbo, bs, ss), sj)
                <= ss[sj].quantity,
{
    lemma_scan_from_props(nbbo, bs, ss, 0, 0);
}

/// Band respect: every recorded match carries a buy price at or below the
/// NBBO ask, a sell price at or above the NBBO bid, and a crossing pair.
pub proof fn lemma_band_respect(nbbo: Nbbo, bs: Seq<Order>, ss: Seq<Order>)
    requires
        bs.len() <= usize::MAX,
        ss.len() <= usize::MAX,
    ensures
        forall|k: int|
            0 <= k < match_scan(nbbo, bs, ss).len() ==> rec_in_band(
                nbbo,
                #[trigger] match_scan(nbbo, bs, ss)[k],
            ),
{
    lemma_scan_from_props(nbbo, bs, ss, 0, 0);
}

/// Greedy pricing: the greedy trades are the scanned matches one for one,
/// and each trade's doubled clearing price is exactly the sum of its own
/// pair's buy and sell prices — twice their arithmetic mean.
pub proof fn lemma_greedy_pricing(nbbo: Nbbo, buys: Seq<Order>, sells: Seq<Order>)
    ensures
        greedy_trades(nbbo, buys, sells).len() == match_scan(
            nbbo,
            sort_desc(buys),
            sort_asc(sells),
        ).len(),
        forall|k: int|
            0 <= k < greedy_trades(nbbo, buys, sells).len() ==> #[trigger] greedy_trades(
                nbbo,
                buys,
                sells,
            )[k] == trade_at_pair_price(match_scan(nbbo, sort_desc(buys), sort_asc(sells))[k]),
        forall|k: int|
            0 <= k < greedy_trades(nbbo, buys, sells).len() ==> (#[trigger] greedy_trades(
                nbbo,
                buys,
                sells,
            )[k]).clearing_price_twice == match_scan(
                nbbo,
                sort_desc(buys),
                sort_asc(sells),
            )[k].buy_price + match_scan(nbbo, sort_desc(buys), sort_asc(sells))[k].sell_price,
{
}

/// Uniform pricing: one combinatorial round prices every trade at the
/// same doubled clearing price — the one taken from the last scanned
/// match — while pairing orders exactly as the scan did.
pub proof fn lemma_uniform_pricing(nbbo: Nbbo, buys: Seq<Order>, sells: Seq<Order>)
    ensures
        combinatorial_trades(nbbo, buys, sells).len() == match_scan(
            nbbo,
            sort_desc(buys),
            sort_asc(sells),
        ).len(),
        forall|k: int|
            0 <= k < combinatorial_trades(nbbo, buys, sells).len() ==> #[trigger] combinatorial_trades(
                nbbo,
                buys,
                sells,
            )[k] == trade_at_uniform_price(
                match_scan(nbbo, sort_desc(buys), sort_asc(sells))[k],
                uniform_price_twice(match_scan(nbbo, sort_desc(buys), sort_asc(sells))),
            ),
        forall|k1: int, k2: int|
            0 <= k1 < combinatorial_trades(nbbo, buys, sells).len() && 0 <= k2
                < combinatorial_trades(nbbo, buys, sells).len() ==> (
            #[trigger] combinatorial_trades(nbbo, buys, sells)[k1]).clearing_price_twice == (
            #[trigger] combinatorial_trades(nbbo, buys, sells)[k2]).clearing_price_twice,
{
    let ms = match_scan(nbbo, sort_desc(buys), sort_asc(sells));
    if ms.len() == 0 {
        assert(combinatorial_trades(nbbo, buys, sells).len() == 0);
    }
}

proof fn lemma_first_bad_char(s: Seq<Order>, want: Side, k: int)
    requires
        0 <= k <= s.len(),
    ensures
        first_bad_from(s, want, k) is None <==> (forall|t: int|
            k <= t < s.len() ==> s[t].side == want),
        first_bad_from(s, want, k) is Some ==> exists|i: int|
            k <= i < s.len() && s[i].side != want && (forall|t: int|
                k <= t < i ==> s[t].side == want) && first_bad_from(s, want, k) == Some(s[i]),
    decreases s.len() - k,
{
    if k >= s.len() {
    } else if s[k].side != want {
        assert(first_bad_from(s, want, k) == Some(s[k]));
        assert(k <= k < s.len() && s[k].side != want && (forall|t: int|
            k <= t < k ==> s[t].side == want) && first_bad_from(s, want, k) == Some(s[k]));
    } else {
        lemma_first_bad_char(s, want, k + 1);
        if first_bad_from(s, want, k + 1) is Some {
            let i = choose|i: int|
                k + 1 <= i < s.len() && s[i].side != want && (forall|t: int|
                    k + 1 <= t < i ==> s[t].side == want) && first_bad_from(s, want, k + 1)
                    == Some(s[i]);
            assert(forall|t: int| k <= t < i ==> s[t].side == want);
            assert(k <= i < s.len() && s[i].side != want && (forall|t: int|
                k <= t < i ==> s[t].side == want) && first_bad_from(s, want, k) == Some(s[i]));
        }
    }
}

/// Side validation: no error is reported exactly when every buy-list
/// entry is a Buy and every sell-list entry is a Sell; otherwise the
/// reported id and side are those of the first offending entry, buy list
/// first — and the matching operations abort with it, emitting nothing.
pub proof fn lemma_side_validation(buys: Seq<Order>, sells: Seq<Order>)
    ensures
        side_error(buys, sells) is None <==> (all_sides(buys, Side::Buy) && all_sides(
            sells,
            Side::Sell,
        )),
        !all_sides(buys, Side::Buy) ==> exists|i: int|
            0 <= i < buys.len() && buys[i].side != Side::Buy && (forall|t: int|
                0 <= t < i ==> buys[t].side == Side::Buy) && side_error(buys, sells) == Some(
                AuctionError::SideMismatch {
                    order_id: buys[i].id,
                    expected: Side::Buy,
                    found: buys[i].side,
                },
            ),
        (all_sides(buys, Side::Buy) && !all_sides(sells, Side::Sell)) ==> exists|i: int|
            0 <= i < sells.len() && sells[i].side != Side::Sell && (forall|t: int|
                0 <= t < i ==> sells[t].side == Side::Sell) && side_error(buys, sells) == Some(
                AuctionError::SideMismatch {
                    order_id: sells[i].id,
                    expected: Side::Sell,
                    found: sells[i].side,
                },
            ),
{
    lemma_first_bad_char(buys, Side::Buy, 0);
    lemma_first_bad_char(sells, Side::Sell, 0);
    if !all_sides(buys, Side::Buy) {
        let i = choose|i: int|
            0 <= i < buys.len() && buys[i].side != Side::Buy && (forall|t: int|
                0 <= t < i ==> buys[t].side == Side::Buy) && first_bad_from(buys, Side::Buy, 0)
                == Some(buys[i]);
        assert(side_error(buys, sells) == Some(
            AuctionError::SideMismatch {
                order_id: buys[i].id,
                expected: Side::Buy,
                found: buys[i].side,
            },
        ));
    } else if !all_sides(sells, Side::Sell) {
        let i = choose|i: int|
            0 <= i < sells.len() && sells[i].side != Side::Sell && (forall|t: int|
                0 <= t < i ==> sells[t].side == Side::Sell) && first_bad_from(sells, Side::Sell, 0)
                == Some(sells[i]);
        assert(side_error(buys, sells) == Some(
            AuctionError::SideMismatch {
                order_id: sells[i].id,
                expected: Side::Sell,
                found: sells[i].side,
            },
        ));
    }
}

proof fn lemma_scan_from_no_eligible(nbbo: Nbbo, bs: Seq<Order>, ss: Seq<Order>, i: int, j: int)
    requires
        forall|a: int, b: int|
            0 <= a < bs.len() && 0 <= b < ss.len() ==> !eligible(nbbo, bs[a], ss[b]),
    ensures
        scan_from(nbbo, bs, ss, i, j).len() == 0,
    decreases bs.len() - i, ss.len() - j,
{
    if i < 0 || j < 0 || i >= bs.len() {
    } else if j >= ss.len() {
        lemma_scan_from_no_eligible(nbbo, bs, ss, i + 1, 0);
    } else {
        assert(!eligible(nbbo, bs[i], ss[j]));
        lemma_scan_from_no_eligible(nbbo, bs, ss, i, j + 1);
    }
}

/// No-match rounds: when no buy/sell pair of the inputs is eligible —
/// which covers empty lists, all-zero quantities, and lists with no
/// price-crossing in-band pair — both operations return no trades.
pub proof fn lemma_no_match(nbbo: Nbbo, buys: Seq<Order>, sells: Seq<Order>)
    requires
        forall|b: Order, s: Order|
            buys.contains(b) && sells.contains(s) ==> !eligible(nbbo, b, s),
    ensures
        greedy_trades(nbbo, buys, sells).len() == 0,
        combinatorial_trades(nbbo, buys, sells).len() == 0,
{
    let bs = sort_desc(buys);
    let ss = sort_asc(sells);
    lemma_sort_desc_contains(buys);
    lemma_sort_asc_contains(sells);
    assert forall|a: int, b: int| 0 <= a < bs.len() && 0 <= b < ss.len() implies !eligible(
        nbbo,
        bs[a],
        ss[b],
    ) by {
        assert(bs.contains(bs[a]));
        assert(ss.contains(ss[b]));
        assert(buys.contains(bs[a]));
        assert(sells.contains(ss[b]));
    }
    lemma_scan_from_no_eligible(nbbo, bs, ss, 0, 0);
}

/// The crossing condition uses `>=`: a buy and a sell at one identical
/// in-band price, both with quantity left, are eligible, and alone in the
/// book they do trade that pair.
pub proof fn lemma_equal_price_eligible(nbbo: Nbbo, b: Order, s: Order)
    requires
        b.quantity > 0,
        s.quantity > 0,
        b.price == s.price,
        b.price <= nbbo.ask,
        s.price >= nbbo.bid,
    ensures
        eligible(nbbo, b, s),
        match_scan(nbbo, seq![b], seq![s]) == seq![rec_at(seq![b], seq![s], 0, 0)],
{
    let bs = seq![b];
    let ss = seq![s];
    let q = min_u32(b.quantity, s.quantity);
    let bs2 = bs.update(0, dec_qty(b, q));
    let ss2 = ss.update(0, dec_qty(s, q));
    assert(scan_from(nbbo, bs2, ss2, 1, 0).len() == 0);
    assert(scan_from(nbbo, bs2, ss2, 0, 1) == scan_from(nbbo, bs2, ss2, 1, 0));
    assert(scan_from(nbbo, bs, ss, 0, 0) == seq![rec_at(bs, ss, 0, 0)] + scan_from(
        nbbo,
        bs2,
        ss2,
        0,
        1,
    ));
    assert(seq![rec_at(bs, ss, 0, 0)] + Seq::<MatchRec>::empty() =~= seq![
        rec_at(bs, ss, 0, 0),
    ]);
    assert(scan_from(nbbo, bs2, ss2, 0, 1) =~= Seq::<MatchRec>::empty());
}

} // verus!
