//! The plain values that the item module reads: settings, my own orders, the live orders
//! of an item, inventory rows and price averages.
use vstd::prelude::*;

verus! {

/// Which side of the market the scraper trades on.
#[derive(Clone, Copy, PartialEq, Eq, Structural)]
pub enum OrderMode {
    Buy,
    Sell,
    Both,
}

/// The `order_type` of a market row: a buy or sell order, or a closed (traded) statistic.
#[derive(Clone, Copy, PartialEq, Eq, Structural)]
pub enum OrderType {
    Buy,
    Sell,
    Closed,
    Other,
}

/// The settings of the stock-item scraper.
pub struct StockItemSettings {
    pub order_mode: OrderMode,
    /// Items that are never bought and whose orders are never deleted in bulk.
    pub blacklist: Vec<String>,
    /// Items that are always considered.
    pub whitelist: Vec<String>,
    /// When set, only whitelisted items count as popular.
    pub strict_whitelist: bool,
    /// Highest price at which a buy order is posted.
    pub avg_price_cap: i64,
    /// Budget that all buy orders together may not exceed.
    pub max_total_price_cap: i64,
    pub volume_threshold: i64,
    pub range_threshold: i64,
    pub price_shift_threshold: i64,
}

/// The item module: the settings it trades by and the in-game name of the trader,
/// whose own orders are left out of the live market.
pub struct ItemModule {
    pub settings: StockItemSettings,
    pub ingame_name: String,
}

/// One of my own orders on the market.
pub struct MyOrder {
    pub id: String,
    pub url_name: String,
    pub visible: bool,
    pub platinum: i64,
    /// For a buy order: the closed average of the item less the price, truncated.
    pub potential_profit: i64,
}

/// One live order of some user for the item under consideration.
pub struct LiveOrder {
    pub username: String,
    pub order_type: OrderType,
    pub platinum: i64,
}

/// One row of the inventory: how many of an item are owned.
pub struct InventoryItem {
    pub item_url: String,
    pub owned: i32,
}

/// A price average that is not a whole number in general: it lies strictly between
/// `whole` and `whole + 1` when `fractional` is set, and equals `whole` otherwise; when
/// `is_number` is not set it is no number at all (an average over nothing), which compares
/// false with everything and truncates to 0. Comparing it with whole numbers and truncating
/// its difference with them depends on nothing more.
#[derive(Clone, Copy)]
pub struct AveragePrice {
    pub whole: i64,
    pub fractional: bool,
    pub is_number: bool,
}

/// What my order for an item looks like: its id, whether it is visible, its price,
/// and whether there is such an order at all.
pub struct OrderInfo {
    pub id: Option<String>,
    pub visible: bool,
    pub price: i64,
    pub active: bool,
}

/// The live market of an item without my own orders: the other users' buy orders, best bid
/// first, their sell orders, cheapest ask first, and a summary of both.
pub struct LiveMarket {
    pub buy_orders: Vec<LiveOrder>,
    pub sell_orders: Vec<LiveOrder>,
    pub summary: LiveSummary,
}

/// The live market of an item, without my own orders, in numbers.
#[derive(Clone, Copy)]
pub struct LiveSummary {
    /// Number of buy orders of other users.
    pub buyers: i64,
    /// Number of sell orders of other users.
    pub sellers: i64,
    /// Highest price that another user bids, or 0 when nobody bids.
    pub highest_buy: i64,
    /// Lowest price that another user asks, or 0 when nobody sells.
    pub lowest_sell: i64,
    /// `lowest_sell - highest_buy`.
    pub range: i64,
}

} // verus!
