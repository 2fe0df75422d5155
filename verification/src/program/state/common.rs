//! Enumerations shared by order-handling state.
use vstd::prelude::*;

verus! {

/// Order side for limit/market orders.
#[derive(Clone, Copy, PartialEq, Eq, Structural)]
pub enum OrderSide {
    Bid,
    Ask,
}

impl OrderSide {
    /// The one-byte wire code: 0 for a bid, 1 for an ask.
    pub fn code(&self) -> (r: u8)
        ensures
            r == (if *self is Bid { 0u8 } else { 1u8 }),
    {
        match self {
            OrderSide::Bid => 0,
            OrderSide::Ask => 1,
        }
    }
}

/// Order type for instruction args and ledger entries.
#[derive(Clone, Copy, PartialEq, Eq, Structural)]
pub enum OrderType {
    Limit,
    Market,
}

impl OrderType {
    /// The one-byte wire code: 0 for a limit order, 1 for a market order.
    pub fn code(&self) -> (r: u8)
        ensures
            r == (if *self is Limit { 0u8 } else { 1u8 }),
    {
        match self {
            OrderType::Limit => 0,
            OrderType::Market => 1,
        }
    }
}

/// Generic account version used across state layouts.
pub const ACCOUNT_VERSION: u8 = 0;

} // verus!
