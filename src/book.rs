use std::collections::BTreeMap;
use vstd::prelude::*;

use crate::order::{Order, Side};

verus! {

/// The quantity resting at `price` in `levels`: zero where no level stands.
pub open spec fn quantity(levels: Map<u64, u64>, price: u64) -> nat {
    if levels.contains_key(price) {
        levels[price] as nat
    } else {
        0
    }
}

/// Every price level present in `levels` holds a positive quantity.
pub open spec fn levels_positive(levels: Map<u64, u64>) -> bool {
    forall|p: u64| #[trigger] levels.contains_key(p) ==> levels[p] > 0
}

/// `levels` after `size` more comes to rest at `price`. A zero size leaves the
/// levels as they are, so that no empty level is ever created.
pub open spec fn add_level(levels: Map<u64, u64>, price: u64, size: u64) -> Map<u64, u64> {
    if size == 0 {
        levels
    } else {
        levels.insert(price, (quantity(levels, price) + size) as u64)
    }
}

/// `p` is the best price of `levels` resting on `side`: the highest bid, or
/// the lowest ask.
pub open spec fn is_best(levels: Map<u64, u64>, side: Side, p: u64) -> bool {
    &&& levels.contains_key(p)
    &&& forall|q: u64| #[trigger]
        levels.contains_key(q) ==> match side {
            Side::Bid => q <= p,
            Side::Ask => p <= q,
        }
}

/// Whether `incoming` may trade at the resting price `best`: a bid must be
/// willing to pay at least that much, an ask to take at most that much.
pub open spec fn crosses(incoming: Order, best: u64) -> bool {
    match incoming.side {
        Side::Bid => incoming.price >= best,
        Side::Ask => incoming.price <= best,
    }
}

/// The trade that `incoming` makes against `resting`, the levels of the
/// opposite side: at the best resting price, for the smaller of the two
/// quantities, provided the order crosses that price; none otherwise.
pub open spec fn trade_for(resting: Map<u64, u64>, incoming: Order) -> Option<(u64, u64)> {
    let side = incoming.side.opposite();
    if exists|p: u64| is_best(resting, side, p) {
        let p = choose|p: u64| is_best(resting, side, p);
        if crosses(incoming, p) {
            Some((p, if incoming.size <= resting[p] { incoming.size } else { resting[p] }))
        } else {
            None
        }
    } else {
        None
    }
}

/// `levels` after `qty` has traded at `price`: the level shrinks by `qty`, and
/// is removed when nothing is left of it.
pub open spec fn fill_level(levels: Map<u64, u64>, price: u64, qty: u64) -> Map<u64, u64> {
    if quantity(levels, price) == qty {
        levels.remove(price)
    } else {
        levels.insert(price, (levels[price] - qty) as u64)
    }
}

/// The total size of `orders`.
pub open spec fn total_size(orders: Seq<Order>) -> nat
    decreases orders.len(),
{
    if orders.len() == 0 {
        0
    } else {
        total_size(orders.drop_last()) + orders.last().size as nat
    }
}

/// The levels of one side after each of `orders`, all of that side, has come
/// to rest there in turn.
pub open spec fn add_all(levels: Map<u64, u64>, orders: Seq<Order>) -> Map<u64, u64>
    decreases orders.len(),
{
    if orders.len() == 0 {
        levels
    } else {
        let o = orders.last();
        add_level(add_all(levels, orders.drop_last()), o.price, o.size)
    }
}

/// Orders that come to rest at one price on one side aggregate: the level at
/// that price ends up holding what it held before plus the sum of their sizes.
pub proof fn lemma_aggregation(levels: Map<u64, u64>, orders: Seq<Order>, price: u64)
    requires
        forall|i: int| 0 <= i < orders.len() ==> (#[trigger] orders[i]).price == price,
        quantity(levels, price) + total_size(orders) <= u64::MAX,
    ensures
        quantity(add_all(levels, orders), price) == quantity(levels, price) + total_size(orders),
    decreases orders.len(),
{
    if orders.len() > 0 {
        let rest = orders.drop_last();
        assert forall|i: int| 0 <= i < rest.len() implies (#[trigger] rest[i]).price == price by {
            assert(rest[i] == orders[i]);
        }
        lemma_aggregation(levels, rest, price);
        assert(orders.last() == orders[orders.len() - 1]);
    }
}

/// Relies on `BTreeMap::first_key_value`: the entry with the least key, or
/// `None` when the map is empty.
#[verifier::external_body]
fn lowest_level(m: &BTreeMap<u64, u64>) -> (r: Option<(u64, u64)>)
    ensures
        r is None ==> forall|k: u64| !(#[trigger] m@.contains_key(k)),
        r matches Some((p, q)) ==> m@.contains_key(p) && m@[p] == q
            && forall|k: u64| #[trigger] m@.contains_key(k) ==> p <= k,
{
    m.first_key_value().map(|(p, q)| (*p, *q))
}

/// Relies on `BTreeMap::last_key_value`: the entry with the greatest key, or
/// `None` when the map is empty.
#[verifier::external_body]
fn highest_level(m: &BTreeMap<u64, u64>) -> (r: Option<(u64, u64)>)
    ensures
        r is None ==> forall|k: u64| !(#[trigger] m@.contains_key(k)),
        r matches Some((p, q)) ==> m@.contains_key(p) && m@[p] == q
            && forall|k: u64| #[trigger] m@.contains_key(k) ==> k <= p,
{
    m.last_key_value().map(|(p, q)| (*p, *q))
}

/// The resting liquidity of one instrument: for each side, a map from price
/// to the aggregated quantity resting there.
pub struct OrderBook {
    bids: BTreeMap<u64, u64>,
    asks: BTreeMap<u64, u64>,
}

impl OrderBook {
    /// The price levels resting on `side`.
    pub closed spec fn levels(&self, side: Side) -> Map<u64, u64> {
        match side {
            Side::Bid => self.bids@,
            Side::Ask => self.asks@,
        }
    }

    /// No price level on either side is empty.
    pub open spec fn well_formed(&self) -> bool {
        &&& levels_positive(self.levels(Side::Bid))
        &&& levels_positive(self.levels(Side::Ask))
    }

    /// An empty book.
    pub fn new() -> (r: Self)
        ensures
            r.well_formed(),
            r.levels(Side::Bid) == Map::<u64, u64>::empty(),
            r.levels(Side::Ask) == Map::<u64, u64>::empty(),
    {
        OrderBook { bids: BTreeMap::new(), asks: BTreeMap::new() }
    }

    /// The quantity resting at `price` on `side`, if a level stands there.
    pub fn level(&self, side: Side, price: u64) -> (r: Option<u64>)
        ensures
            r == (if self.levels(side).contains_key(price) {
                Some(self.levels(side)[price])
            } else {
                None
            }),
    {
        let levels = match side {
            Side::Bid => &self.bids,
            Side::Ask => &self.asks,
        };
        match levels.get(&price) {
            Some(q) => Some(*q),
            None => None,
        }
    }

    /// The number of price levels resting on `side`.
    pub fn level_count(&self, side: Side) -> (r: usize)
        ensures
            r == self.levels(side).len(),
    {
        match side {
            Side::Bid => self.bids.len(),
            Side::Ask => self.asks.len(),
        }
    }

    /// Rests `order` in the book: its size joins the level at its price on
    /// its side, which is created if absent. An order of size zero leaves the
    /// book unchanged.
    pub fn add_order(&mut self, order: &Order)
        requires
            old(self).well_formed(),
            quantity(old(self).levels(order.side), order.price) + order.size <= u64::MAX,
        ensures
            final(self).well_formed(),
            final(self).levels(order.side) == add_level(
                old(self).levels(order.side),
                order.price,
                order.size,
            ),
            final(self).levels(order.side.opposite()) == old(self).levels(order.side.opposite()),
    {
        if order.size == 0 {
            return;
        }
        let levels = match order.side {
            Side::Bid => &mut self.bids,
            Side::Ask => &mut self.asks,
        };
        let resting = match levels.get(&order.price) {
            Some(q) => *q,
            None => 0,
        };
        levels.insert(order.price, resting + order.size);
    }

    /// Matches `incoming` against the best level of the opposite side, which
    /// is the only level consulted. When the order crosses that level's price,
    /// the smaller of the two quantities trades at the resting price and the
    /// level shrinks by it, and goes when it is used up; the result is
    /// `(price, size)` of that trade. `incoming` itself never rests here.
    pub fn match_order(&mut self, incoming: &Order) -> (r: Option<(u64, u64)>)
        requires
            old(self).well_formed(),
        ensures
            final(self).well_formed(),
            r == trade_for(old(self).levels(incoming.side.opposite()), *incoming),
            final(self).levels(incoming.side) == old(self).levels(incoming.side),
            r is None ==> final(self).levels(incoming.side.opposite()) == old(self).levels(
                incoming.side.opposite(),
            ),
            r matches Some((p, q)) ==> final(self).levels(incoming.side.opposite()) == fill_level(
                old(self).levels(incoming.side.opposite()),
                p,
                q,
            ),
            // The trade happens at a resting price, for no more than either side holds.
            r matches Some((p, q)) ==> old(self).levels(incoming.side.opposite()).contains_key(p)
                && q <= incoming.size && q <= old(self).levels(incoming.side.opposite())[p],
            // A level that the trade uses up is gone.
            r matches Some((p, q)) ==> (q == old(self).levels(incoming.side.opposite())[p]
                ==> !final(self).levels(incoming.side.opposite()).contains_key(p)),
            // Against an empty side nothing trades.
            (forall|p: u64| !(#[trigger] old(self).levels(incoming.side.opposite()).contains_key(p)))
                ==> r is None,
    {
        let ghost resting_side = incoming.side.opposite();
        let ghost before = old(self).levels(resting_side);
        let (levels, best) = match incoming.side {
            Side::Bid => {
                let best = lowest_level(&self.asks);
                (&mut self.asks, best)
            },
            Side::Ask => {
                let best = highest_level(&self.bids);
                (&mut self.bids, best)
            },
        };
        match best {
            None => None,
            Some((price, resting)) => {
                assert(is_best(before, resting_side, price));
                let crossing = match incoming.side {
                    Side::Bid => incoming.price >= price,
                    Side::Ask => incoming.price <= price,
                };
                if !crossing {
                    return None;
                }
                let trade = if incoming.size <= resting {
                    incoming.size
                } else {
                    resting
                };
                if trade == resting {
                    levels.remove(&price);
                } else {
                    levels.insert(price, resting - trade);
                }
                Some((price, trade))
            },
        }
    }
}

impl Default for OrderBook {
    /// An empty book, as `new` makes it.
    fn default() -> (r: Self)
        ensures
            r.well_formed(),
            r.levels(Side::Bid) == Map::<u64, u64>::empty(),
            r.levels(Side::Ask) == Map::<u64, u64>::empty(),
    {
        OrderBook::new()
    }
}

} // verus!
