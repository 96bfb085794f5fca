use live_scraper::model::{
    AveragePrice, InventoryItem, ItemModule, LiveOrder, MyOrder, OrderMode, OrderType,
    StockItemSettings,
};

fn module(mode: OrderMode) -> ItemModule {
    ItemModule {
        settings: StockItemSettings {
            order_mode: mode,
            blacklist: vec!["forma_blueprint".to_string()],
            whitelist: vec!["ash_prime_set".to_string()],
            strict_whitelist: false,
            avg_price_cap: 600,
            max_total_price_cap: 100,
            volume_threshold: 15,
            range_threshold: 10,
            price_shift_threshold: -1,
        },
        ingame_name: "me".to_string(),
    }
}

fn live(user: &str, t: OrderType, p: i64) -> LiveOrder {
    LiveOrder { username: user.to_string(), order_type: t, platinum: p }
}

fn mine(id: &str, name: &str, p: i64, profit: i64) -> MyOrder {
    MyOrder {
        id: id.to_string(),
        url_name: name.to_string(),
        visible: true,
        platinum: p,
        potential_profit: profit,
    }
}

#[test]
fn blacklist_lookup() {
    let m = module(OrderMode::Both);
    assert!(m.is_item_blacklisted(&"forma_blueprint".to_string()));
    assert!(!m.is_item_blacklisted(&"ash_prime_set".to_string()));
}

#[test]
fn my_order_information_found_and_missing() {
    let m = module(OrderMode::Both);
    let orders = vec![mine("o1", "a", 10, 0), mine("o2", "b", 20, 0), mine("o3", "b", 30, 0)];
    let info = m.get_my_order_information(&"b".to_string(), &orders);
    assert!(info.active);
    assert_eq!(info.id, Some("o2".to_string()));
    assert_eq!(info.price, 20);
    assert!(info.visible);
    let none = m.get_my_order_information(&"c".to_string(), &orders);
    assert!(!none.active);
    assert_eq!(none.id, None);
    assert_eq!(none.price, 0);
    assert!(!none.visible);
}

#[test]
fn live_summary_leaves_out_my_orders() {
    let m = module(OrderMode::Both);
    let orders = vec![
        live("x", OrderType::Buy, 12),
        live("me", OrderType::Buy, 99),
        live("y", OrderType::Buy, 15),
        live("z", OrderType::Sell, 40),
        live("me", OrderType::Sell, 1),
        live("w", OrderType::Sell, 35),
    ];
    let s = m.restructure_live_orders(&orders).summary;
    assert_eq!(s.buyers, 2);
    assert_eq!(s.sellers, 2);
    assert_eq!(s.highest_buy, 15);
    assert_eq!(s.lowest_sell, 35);
    assert_eq!(s.range, 20);
}

#[test]
fn live_summary_empty_market() {
    let m = module(OrderMode::Both);
    let s = m.restructure_live_orders(&vec![]).summary;
    assert_eq!((s.buyers, s.sellers, s.highest_buy, s.lowest_sell, s.range), (0, 0, 0, 0, 0));
}

#[test]
fn average_price_inventory_types_are_plain() {
    let a = AveragePrice { whole: 25, fractional: true, is_number: true };
    let b = a;
    assert_eq!(b.whole, 25);
    let inv = InventoryItem { item_url: "x".to_string(), owned: 3 };
    assert_eq!(inv.owned, 3);
}

fn users(orders: &[LiveOrder]) -> Vec<(String, i64)> {
    orders.iter().map(|o| (o.username.clone(), o.platinum)).collect()
}

#[test]
fn live_market_lists_sorted_by_price() {
    let m = module(OrderMode::Both);
    let orders = vec![
        live("me", OrderType::Sell, 25),
        live("a", OrderType::Buy, 10),
        live("b", OrderType::Buy, 20),
        live("c", OrderType::Sell, 40),
        live("d", OrderType::Sell, 30),
    ];
    let market = m.restructure_live_orders(&orders);
    assert_eq!(users(&market.buy_orders), vec![("b".to_string(), 20), ("a".to_string(), 10)]);
    assert_eq!(users(&market.sell_orders), vec![("d".to_string(), 30), ("c".to_string(), 40)]);
    let s = market.summary;
    assert_eq!((s.buyers, s.sellers, s.range), (2, 2, 10));
}

#[test]
fn live_market_sellers_only() {
    let m = module(OrderMode::Both);
    let orders = vec![live("a", OrderType::Sell, 30), live("b", OrderType::Sell, 20)];
    let market = m.restructure_live_orders(&orders);
    assert!(market.buy_orders.is_empty());
    assert_eq!(users(&market.sell_orders), vec![("b".to_string(), 20), ("a".to_string(), 30)]);
    let s = market.summary;
    assert_eq!((s.buyers, s.sellers, s.range), (0, 2, 20));
    let summary = m.summarize_live_orders(&orders);
    assert_eq!((summary.lowest_sell, summary.highest_buy), (20, 0));
}
