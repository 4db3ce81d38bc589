//! The pairwise matching scan shared by both pricing policies.
//!
//! `scan_from` is the specification: a buy-priority outer scan over a
//! sell-priority inner scan that records each eligible pair, trades the
//! smaller remaining quantity, and decrements both sides. The executable
//! `collect_matches` is proved to return exactly that sequence.

use vstd::prelude::*;

use crate::order::{eligible, Nbbo, Order, Trade};

verus! {

/// One recorded match: the positions of the two orders in their sorted
/// lists, their ids, the traded quantity, and the two limit prices that
/// were in force when the pair matched.
#[derive(Clone, Copy, Debug, PartialEq, Eq, Structural)]
pub struct MatchRec {
    pub buy_idx: usize,
    pub sell_idx: usize,
    pub buy_id: u32,
    pub sell_id: u32,
    pub quantity: u32,
    pub buy_price: u64,
    pub sell_price: u64,
}

/// The smaller of two quantities.
pub open spec fn min_u32(a: u32, b: u32) -> u32 {
    if a <= b {
        a
    } else {
        b
    }
}

/// `o` with `q` units removed (`q <= o.quantity` wherever this is used).
pub open spec fn dec_qty(o: Order, q: u32) -> Order {
    Order { id: o.id, side: o.side, price: o.price, quantity: (o.quantity - q) as u32 }
}

/// The match recorded when `bs[i]` and `ss[j]` trade.
pub open spec fn rec_at(bs: Seq<Order>, ss: Seq<Order>, i: int, j: int) -> MatchRec {
    MatchRec {
        buy_idx: i as usize,
        sell_idx: j as usize,
        buy_id: bs[i].id,
        sell_id: ss[j].id,
        quantity: min_u32(bs[i].quantity, ss[j].quantity),
        buy_price: bs[i].price,
        sell_price: ss[j].price,
    }
}

/// The matches emitted by the double scan from position (i, j) onward:
/// for each buy in turn, every sell is tried in order; an eligible pair
/// trades the smaller remaining quantity and both orders are decremented
/// before the scan continues.
pub open spec fn scan_from(nbbo: Nbbo, bs: Seq<Order>, ss: Seq<Order>, i: int, j: int) -> Seq<
    MatchRec,
>
    decreases bs.len() - i, ss.len() - j,
{
    if i < 0 || j < 0 || i >= bs.len() {
        Seq::empty()
    } else if j >= ss.len() {
        scan_from(nbbo, bs, ss, i + 1, 0)
    } else if eligible(nbbo, bs[i], ss[j]) {
        let q = min_u32(bs[i].quantity, ss[j].quantity);
        seq![rec_at(bs, ss, i, j)] + scan_from(
            nbbo,
            bs.update(i, dec_qty(bs[i], q)),
            ss.update(j, dec_qty(ss[j], q)),
            i,
            j + 1,
        )
    } else {
        scan_from(nbbo, bs, ss, i, j + 1)
    }
}

/// The whole scan over two (already sorted) order lists.
pub open spec fn match_scan(nbbo: Nbbo, bs: Seq<Order>, ss: Seq<Order>) -> Seq<MatchRec> {
    scan_from(nbbo, bs, ss, 0, 0)
}

/// Run the double scan on owned working copies and return every match,
/// in discovery order. The callers' lists are untouched: `bs0` and `ss0`
/// are already private copies.
pub fn collect_matches(nbbo: Nbbo, bs0: Vec<Order>, ss0: Vec<Order>) -> (ms: Vec<MatchRec>)
    ensures
        ms@ == match_scan(nbbo, bs0@, ss0@),
{
    let mut bs = bs0;
    let mut ss = ss0;
    let ghost obs = bs@;
    let ghost oss = ss@;
    let mut ms: Vec<MatchRec> = Vec::new();
    let mut i: usize = 0;
    while i < bs.len()
        invariant
            i <= bs@.len(),
            bs@.len() == obs.len(),
            ss@.len() == oss.len(),
            ms@ + scan_from(nbbo, bs@, ss@, i as int, 0) == scan_from(nbbo, obs, oss, 0, 0),
        decreases bs@.len() - i,
    {
        let mut j: usize = 0;
        while j < ss.len()
            invariant
                i < bs@.len(),
                j <= ss@.len(),
                bs@.len() == obs.len(),
                ss@.len() == oss.len(),
                ms@ + scan_from(nbbo, bs@, ss@, i as int, j as int) == scan_from(
                    nbbo,
                    obs,
                    oss,
                    0,
                    0,
                ),
            decreases ss@.len() - j,
        {
            let bq = bs[i].quantity;
            let sq = ss[j].quantity;
            let bp = bs[i].price;
            let sp = ss[j].price;
            if bq > 0 && sq > 0 && bp >= sp && bp <= nbbo.ask && sp >= nbbo.bid {
                let q = if bq <= sq {
                    bq
                } else {
                    sq
                };
                let rec = MatchRec {
                    buy_idx: i,
                    sell_idx: j,
                    buy_id: bs[i].id,
                    sell_id: ss[j].id,
                    quantity: q,
                    buy_price: bp,
                    sell_price: sp,
                };
                let ghost bs_pre = bs@;
                let ghost ss_pre = ss@;
                let ghost ms_pre = ms@;
                let mut b = bs[i];
                b.quantity = bq - q;
                bs.set(i, b);
                let mut s = ss[j];
                s.quantity = sq - q;
                ss.set(j, s);
                ms.push(rec);
                proof {
                    assert(eligible(nbbo, bs_pre[i as int], ss_pre[j as int]));
                    assert(rec == rec_at(bs_pre, ss_pre, i as int, j as int));
                    assert(bs@ =~= bs_pre.update(i as int, dec_qty(bs_pre[i as int], q)));
                    assert(ss@ =~= ss_pre.update(j as int, dec_qty(ss_pre[j as int], q)));
                    assert(scan_from(nbbo, bs_pre, ss_pre, i as int, j as int) == seq![rec]
                        + scan_from(nbbo, bs@, ss@, i as int, j as int + 1));
                    assert(ms@ + scan_from(nbbo, bs@, ss@, i as int, j as int + 1) =~= ms_pre
                        + scan_from(nbbo, bs_pre, ss_pre, i as int, j as int));
                }
            } else {
                proof {
                    assert(!eligible(nbbo, bs@[i as int], ss@[j as int]));
                    assert(scan_from(nbbo, bs@, ss@, i as int, j as int) == scan_from(
                        nbbo,
                        bs@,
                        ss@,
                        i as int,
                        j as int + 1,
                    ));
                }
            }
            j = j + 1;
        }
        proof {
            assert(scan_from(nbbo, bs@, ss@, i as int, j as int) == scan_from(
                nbbo,
                bs@,
                ss@,
                i as int + 1,
                0,
            ));
        }
        i = i + 1;
    }
    proof {
        assert(scan_from(nbbo, bs@, ss@, i as int, 0) =~= Seq::<MatchRec>::empty());
        assert(ms@ + Seq::<MatchRec>::empty() =~= ms@);
    }
    ms
}

/// A greedy trade: the pair's own midpoint, kept exact by doubling.
pub open spec fn trade_at_pair_price(m: MatchRec) -> Trade {
    Trade {
        buy_order_id: m.buy_id,
        sell_order_id: m.sell_id,
        quantity: m.quantity,
        clearing_price_twice: (m.buy_price + m.sell_price) as u128,
    }
}

/// A trade priced at a given (doubled) uniform clearing price.
pub open spec fn trade_at_uniform_price(m: MatchRec, price_twice: u128) -> Trade {
    Trade {
        buy_order_id: m.buy_id,
        sell_order_id: m.sell_id,
        quantity: m.quantity,
        clearing_price_twice: price_twice,
    }
}

/// Twice the uniform clearing price of a round: the mean of the marginal
/// buy and sell prices, which are those of the last recorded match.
pub open spec fn uniform_price_twice(ms: Seq<MatchRec>) -> u128 {
    (ms.last().buy_price + ms.last().sell_price) as u128
}

} // verus!
