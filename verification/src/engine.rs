//! The auction engine: side validation, the two matching operations, and
//! the full specification of what each returns.

use vstd::prelude::*;

use crate::matching::{
    collect_matches, match_scan, trade_at_pair_price, trade_at_uniform_price, uniform_price_twice,
    MatchRec,
};
use crate::order::{first_bad_from, side_error, AuctionError, Nbbo, Order, Side, Trade};
use crate::sorting::{sort_asc, sort_buys, sort_desc, sort_sells};

verus! {

/// The trades of a greedy round: the matches of the priority-sorted scan,
/// each priced at its own pair's midpoint.
pub open spec fn greedy_trades(nbbo: Nbbo, buys: Seq<Order>, sells: Seq<Order>) -> Seq<Trade> {
    match_scan(nbbo, sort_desc(buys), sort_asc(sells)).map(
        |k: int, m: MatchRec| trade_at_pair_price(m),
    )
}

/// The trades of a combinatorial round: the same matches, all priced at
/// the single uniform clearing price taken from the last match scanned.
pub open spec fn combinatorial_trades(nbbo: Nbbo, buys: Seq<Order>, sells: Seq<Order>) -> Seq<
    Trade,
> {
    let ms = match_scan(nbbo, sort_desc(buys), sort_asc(sells));
    if ms.len() == 0 {
        Seq::empty()
    } else {
        ms.map(|k: int, m: MatchRec| trade_at_uniform_price(m, uniform_price_twice(ms)))
    }
}

/// Holds the reference NBBO band for the round; both matching operations
/// are pure functions of it and of the order lists they are given.
pub struct AuctionEngine {
    pub nbbo: Nbbo,
}

/// Report the first order routed to the wrong list, if any.
fn find_side_error(buy_orders: &Vec<Order>, sell_orders: &Vec<Order>) -> (r: Option<AuctionError>)
    ensures
        r == side_error(buy_orders@, sell_orders@),
{
    let mut k: usize = 0;
    while k < buy_orders.len()
        invariant
            k <= buy_orders@.len(),
            first_bad_from(buy_orders@, Side::Buy, 0) == first_bad_from(
                buy_orders@,
                Side::Buy,
                k as int,
            ),
        decreases buy_orders@.len() - k,
    {
        let o = buy_orders[k];
        if o.side != Side::Buy {
            return Some(
                AuctionError::SideMismatch { order_id: o.id, expected: Side::Buy, found: o.side },
            );
        }
        k = k + 1;
    }
    let mut k: usize = 0;
    while k < sell_orders.len()
        invariant
            k <= sell_orders@.len(),
            first_bad_from(buy_orders@, Side::Buy, 0) is None,
            first_bad_from(sell_orders@, Side::Sell, 0) == first_bad_from(
                sell_orders@,
                Side::Sell,
                k as int,
            ),
        decreases sell_orders@.len() - k,
    {
        let o = sell_orders[k];
        if o.side != Side::Sell {
            return Some(
                AuctionError::SideMismatch { order_id: o.id, expected: Side::Sell, found: o.side },
            );
        }
        k = k + 1;
    }
    None
}

impl AuctionEngine {
    /// A new engine around an NBBO snapshot. The band is not validated:
    /// an inverted band is accepted and simply never matches a pair.
    pub fn new(nbbo: Nbbo) -> (r: Self)
        ensures
            r.nbbo == nbbo,
    {
        AuctionEngine { nbbo }
    }

    /// Match with per-pair midpoint pricing. Returns the side-mismatch
    /// error for the first wrongly routed order, with no partial output;
    /// otherwise exactly the greedy trade sequence, in discovery order.
    /// The callers' lists are never mutated.
    pub fn run_greedy_auction(
        &self,
        buy_orders: &Vec<Order>,
        sell_orders: &Vec<Order>,
    ) -> (r: Result<Vec<Trade>, AuctionError>)
        ensures
            side_error(buy_orders@, sell_orders@) is None ==> r is Ok && r->Ok_0@
                == greedy_trades(self.nbbo, buy_orders@, sell_orders@),
            side_error(buy_orders@, sell_orders@) is Some ==> r is Err && r->Err_0 == side_error(
                buy_orders@,
                sell_orders@,
            )->Some_0,
    {
        if let Some(e) = find_side_error(buy_orders, sell_orders) {
            return Err(e);
        }
        let bs = sort_buys(buy_orders);
        let ss = sort_sells(sell_orders);
        let ms = collect_matches(self.nbbo, bs, ss);
        let ghost full = match_scan(self.nbbo, sort_desc(buy_orders@), sort_asc(sell_orders@));
        let ghost goal = greedy_trades(self.nbbo, buy_orders@, sell_orders@);
        proof {
            assert(goal =~= full.map(|t: int, m: MatchRec| trade_at_pair_price(m)));
        }
        let mut trades: Vec<Trade> = Vec::new();
        let mut k: usize = 0;
        while k < ms.len()
            invariant
                k <= ms@.len(),
                ms@ == full,
                goal == full.map(|t: int, m: MatchRec| trade_at_pair_price(m)),
                trades@ == goal.take(k as int),
            decreases ms@.len() - k,
        {
            let m = ms[k];
            let price_twice = (m.buy_price as u128) + (m.sell_price as u128);
            trades.push(
                Trade {
                    buy_order_id: m.buy_id,
                    sell_order_id: m.sell_id,
                    quantity: m.quantity,
                    clearing_price_twice: price_twice,
                },
            );
            proof {
                assert(goal[k as int] == trade_at_pair_price(full[k as int]));
                assert(trades@ =~= goal.take(k as int + 1));
            }
            k = k + 1;
        }
        proof {
            assert(goal.take(goal.len() as int) =~= goal);
        }
        Ok(trades)
    }

    /// Match with a single uniform clearing price: the same matches as the
    /// greedy scan, but every trade is priced at the midpoint of the last
    /// scanned pair's buy and sell prices. Same error contract as the
    /// greedy operation; no matches yield an empty sequence.
    pub fn run_combinatorial_auction(
        &self,
        buy_orders: &Vec<Order>,
        sell_orders: &Vec<Order>,
    ) -> (r: Result<Vec<Trade>, AuctionError>)
        ensures
            side_error(buy_orders@, sell_orders@) is None ==> r is Ok && r->Ok_0@
                == combinatorial_trades(self.nbbo, buy_orders@, sell_orders@),
            side_error(buy_orders@, sell_orders@) is Some ==> r is Err && r->Err_0 == side_error(
                buy_orders@,
                sell_orders@,
            )->Some_0,
    {
        if let Some(e) = find_side_error(buy_orders, sell_orders) {
            return Err(e);
        }
        let bs = sort_buys(buy_orders);
        let ss = sort_sells(sell_orders);
        let ms = collect_matches(self.nbbo, bs, ss);
        let ghost full = match_scan(self.nbbo, sort_desc(buy_orders@), sort_asc(sell_orders@));
        let ghost goal = combinatorial_trades(self.nbbo, buy_orders@, sell_orders@);
        if ms.len() == 0 {
            let trades: Vec<Trade> = Vec::new();
            return Ok(trades);
        }
        let last = ms[ms.len() - 1];
        let price_twice = (last.buy_price as u128) + (last.sell_price as u128);
        proof {
            assert(full.last() == last);
            assert(price_twice == uniform_price_twice(full));
            assert(goal =~= full.map(
                |t: int, m: MatchRec| trade_at_uniform_price(m, price_twice),
            ));
        }
        let mut trades: Vec<Trade> = Vec::new();
        let mut k: usize = 0;
        while k < ms.len()
            invariant
                k <= ms@.len(),
                ms@.len() > 0,
                ms@ == full,
                price_twice == uniform_price_twice(full),
                goal == full.map(|t: int, m: MatchRec| trade_at_uniform_price(m, price_twice)),
                trades@ == goal.take(k as int),
            decreases ms@.len() - k,
        {
            let m = ms[k];
            trades.push(
                Trade {
                    buy_order_id: m.buy_id,
                    sell_order_id: m.sell_id,
                    quantity: m.quantity,
                    clearing_price_twice: price_twice,
                },
            );
            proof {
                assert(goal[k as int] == trade_at_uniform_price(full[k as int], price_twice));
                assert(trades@ =~= goal.take(k as int + 1));
            }
            k = k + 1;
        }
        proof {
            assert(goal.take(goal.len() as int) =~= goal);
        }
        Ok(trades)
    }

    /// The single-policy entry point: matching with the default policy,
    /// which is greedy per-pair pricing.
    pub fn run_auction(
        &self,
        buy_orders: &Vec<Order>,
        sell_orders: &Vec<Order>,
    ) -> (r: Result<Vec<Trade>, AuctionError>)
        ensures
            side_error(buy_orders@, sell_orders@) is None ==> r is Ok && r->Ok_0@
                == greedy_trades(self.nbbo, buy_orders@, sell_orders@),
            side_error(buy_orders@, sell_orders@) is Some ==> r is Err && r->Err_0 == side_error(
                buy_orders@,
                sell_orders@,
            )->Some_0,
    {
        self.run_greedy_auction(buy_orders, sell_orders)
    }
}

} // verus!
