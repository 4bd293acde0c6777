//! The two sides of an order.

use vstd::prelude::*;

verus! {

/// A bid offers to buy, an ask offers to sell.
#[derive(Debug, Clone, Copy, PartialEq, Eq, Structural)]
pub enum OrderSide {
    Bid,
    Ask,
}

/// The side's name on the wire and in the database.
pub open spec fn side_name(s: OrderSide) -> Seq<char> {
    match s {
        OrderSide::Bid => "bid"@,
        OrderSide::Ask => "ask"@,
    }
}

impl OrderSide {
    pub fn as_str(self) -> (r: &'static str)
        ensures
            r@ == side_name(self),
    {
        match self {
            OrderSide::Bid => "bid",
            OrderSide::Ask => "ask",
        }
    }
}

} // verus!
