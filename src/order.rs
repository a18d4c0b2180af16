use vstd::prelude::*;

verus! {

/// The side of the book an order trades on.
#[derive(Clone, Copy, Debug, PartialEq, Eq, Structural)]
pub enum Side {
    Bid,
    Ask,
}

impl Side {
    /// The side whose resting liquidity an incoming order on `self` trades against.
    pub open spec fn opposite(self) -> Side {
        match self {
            Side::Bid => Side::Ask,
            Side::Ask => Side::Bid,
        }
    }
}

/// An order event: an identifier carried for traceability, the side it trades
/// on, its limit price in ticks and its quantity.
#[derive(Clone, Copy, Debug, PartialEq, Eq, Structural)]
pub struct Order {
    pub id: u64,
    pub side: Side,
    pub price: u64,
    pub size: u64,
}

} // verus!
