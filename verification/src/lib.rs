//! Decision logic of the live scraper's item module: which orders to post, update or
//! delete, as pure functions over plain values.
use vstd::prelude::*;

pub mod knapsack;
pub mod model;
pub mod orders;
pub mod buying;
pub mod selling;
pub mod overlap;
pub mod stock;

verus! {

} // verus!
