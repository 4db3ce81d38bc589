//! Core data types: orders, the NBBO band, trades, and the matching error,
//! together with the specification of side validation and pair eligibility.

use vstd::prelude::*;

verus! {

/// Which side of the book an order rests on.
#[derive(Clone, Copy, Debug, PartialEq, Eq, Structural)]
pub enum Side {
    Buy,
    Sell,
}

/// One resting order. `price` is a limit price in integer ticks;
/// `quantity` is the remaining tradable quantity.
#[derive(Clone, Copy, Debug, PartialEq, Eq, Structural)]
pub struct Order {
    pub id: u32,
    pub side: Side,
    pub price: u64,
    pub quantity: u32,
}

/// The reference band for the round: sells must respect `bid` from below,
/// buys must respect `ask` from above. Not validated at construction;
/// `bid > ask` simply makes no pair eligible.
#[derive(Clone, Copy, Debug, PartialEq, Eq, Structural)]
pub struct Nbbo {
    pub bid: u64,
    pub ask: u64,
}

/// One match result. `clearing_price_twice` is twice the clearing price in
/// price ticks: the midpoint of two integer prices is a half-integer, so the
/// doubled value represents it exactly.
#[derive(Clone, Copy, Debug, PartialEq, Eq, Structural)]
pub struct Trade {
    pub buy_order_id: u32,
    pub sell_order_id: u32,
    pub quantity: u32,
    pub clearing_price_twice: u128,
}

/// The one fatal condition: an order routed to the wrong list.
/// Carries the offending order's id and its actual side.
#[derive(Clone, Copy, Debug, PartialEq, Eq, Structural)]
pub enum AuctionError {
    SideMismatch { order_id: u32, expected: Side, found: Side },
}

/// A buy/sell pair may trade when both have quantity left, the buy price
/// crosses the sell price (`>=`, so equal prices are eligible), and both
/// prices sit inside or at the NBBO band.
pub open spec fn eligible(nbbo: Nbbo, b: Order, s: Order) -> bool {
    &&& b.quantity > 0
    &&& s.quantity > 0
    &&& b.price >= s.price
    &&& b.price <= nbbo.ask
    &&& s.price >= nbbo.bid
}

/// The first order at position `k` or later whose side is not `want`.
pub open spec fn first_bad_from(s: Seq<Order>, want: Side, k: int) -> Option<Order>
    decreases s.len() - k,
{
    if k < 0 || k >= s.len() {
        None
    } else if s[k].side != want {
        Some(s[k])
    } else {
        first_bad_from(s, want, k + 1)
    }
}

/// The error side validation reports: the first buy-list entry that is not
/// a Buy, else the first sell-list entry that is not a Sell, else nothing.
pub open spec fn side_error(buys: Seq<Order>, sells: Seq<Order>) -> Option<AuctionError> {
    match first_bad_from(buys, Side::Buy, 0) {
        Some(o) => Some(
            AuctionError::SideMismatch { order_id: o.id, expected: Side::Buy, found: o.side },
        ),
        None => match first_bad_from(sells, Side::Sell, 0) {
            Some(o) => Some(
                AuctionError::SideMismatch { order_id: o.id, expected: Side::Sell, found: o.side },
            ),
            None => None,
        },
    }
}

/// Every order in the list carries the expected side.
pub open spec fn all_sides(s: Seq<Order>, want: Side) -> bool {
    forall|k: int| 0 <= k < s.len() ==> s[k].side == want
}

} // verus!
