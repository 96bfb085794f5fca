use live_scraper::buying::BuyAction;
use live_scraper::model::{
    AveragePrice, InventoryItem, ItemModule, LiveOrder, MyOrder, OrderMode, OrderType,
    StockItemSettings,
};
use live_scraper::selling::{SellEffect, StockItem, StockStatus};

fn trader() -> ItemModule {
    ItemModule {
        settings: StockItemSettings {
            order_mode: OrderMode::Both,
            blacklist: vec!["forma_blueprint".to_string()],
            whitelist: vec![],
            strict_whitelist: false,
            avg_price_cap: 600,
            max_total_price_cap: 100,
            volume_threshold: 15,
            range_threshold: 10,
            price_shift_threshold: -1,
        },
        ingame_name: "me".to_string(),
    }
}

fn ask(user: &str, p: i64) -> LiveOrder {
    LiveOrder { username: user.to_string(), order_type: OrderType::Sell, platinum: p }
}

fn bid(user: &str, p: i64) -> LiveOrder {
    LiveOrder { username: user.to_string(), order_type: OrderType::Buy, platinum: p }
}

fn my(id: &str, name: &str, p: i64, profit: i64) -> MyOrder {
    MyOrder {
        id: id.to_string(),
        url_name: name.to_string(),
        visible: false,
        platinum: p,
        potential_profit: profit,
    }
}

fn avg(whole: i64, fractional: bool) -> AveragePrice {
    AveragePrice { whole, fractional, is_number: true }
}

fn held(name: &str, owned: i32) -> Vec<InventoryItem> {
    vec![InventoryItem { item_url: name.to_string(), owned }]
}

fn s(x: &str) -> String {
    x.to_string()
}

#[test]
fn buy_blacklisted_item_is_left_alone() {
    let a = trader().compare_live_orders_when_buying(
        &s("forma_blueprint"),
        &vec![],
        &vec![ask("x", 50)],
        avg(60, false),
        &vec![],
    );
    assert!(matches!(a, BuyAction::Keep));
}

#[test]
fn buy_nothing_when_nobody_sells() {
    let a = trader().compare_live_orders_when_buying(&s("lex"), &vec![], &vec![bid("x", 20)], avg(60, false), &vec![]);
    assert!(matches!(a, BuyAction::Keep));
}

#[test]
fn buy_lone_bid_when_nobody_bids() {
    // spread 90: max(90 - 40, 90 / 3 - 1) = 50
    let a = trader().compare_live_orders_when_buying(&s("lex"), &vec![], &vec![ask("x", 90)], avg(30, false), &vec![]);
    match a {
        BuyAction::Create { platinum, delete_first, budgeted } => {
            assert!(!budgeted);
            assert_eq!(platinum, 50);
            assert!(delete_first.is_empty());
        },
        _ => panic!("expected a new order"),
    }
}

#[test]
fn buy_lone_bid_updates_my_order() {
    let cur = vec![my("o1", "lex", 10, 0)];
    let a = trader().compare_live_orders_when_buying(&s("lex"), &cur, &vec![ask("x", 90)], avg(30, false), &vec![]);
    match a {
        BuyAction::Update { order_id, price, visible, repriced } => {
            assert_eq!(order_id, "o1");
            assert_eq!(price, 50);
            assert!(!visible);
            assert!(repriced.is_none());
        },
        _ => panic!("expected an update"),
    }
}

#[test]
fn buy_lone_bid_needs_average_above_25() {
    let t = trader();
    let exact = t.compare_live_orders_when_buying(&s("lex"), &vec![], &vec![ask("x", 90)], avg(25, false), &vec![]);
    assert!(matches!(exact, BuyAction::Keep));
    let above = t.compare_live_orders_when_buying(&s("lex"), &vec![], &vec![ask("x", 90)], avg(25, true), &vec![]);
    assert!(matches!(above, BuyAction::Create { platinum: 50, .. }));
}

#[test]
fn buy_lone_bid_is_at_least_one() {
    // spread 3: max(-37, 3 / 3 - 1) = 0, raised to 1
    let a = trader().compare_live_orders_when_buying(&s("lex"), &vec![], &vec![ask("x", 3)], avg(30, false), &vec![]);
    assert!(matches!(a, BuyAction::Create { platinum: 1, .. }));
}

#[test]
fn buy_lone_bid_above_cap_is_skipped() {
    let a = trader().compare_live_orders_when_buying(&s("lex"), &vec![], &vec![ask("x", 1000)], avg(30, false), &vec![]);
    assert!(matches!(a, BuyAction::Keep));
}

#[test]
fn buy_wins_budget_and_deletes_loser() {
    // best bid 20, cheapest ask 50: spread 30; margin 60 - 20 = 40
    let cur = vec![my("o1", "a", 50, 5), my("o2", "b", 40, 2)];
    let market = vec![bid("x", 20), bid("y", 12), ask("z", 50)];
    let a = trader().compare_live_orders_when_buying(&s("lex"), &cur, &market, avg(60, false), &vec![]);
    match a {
        BuyAction::Create { platinum, delete_first, budgeted } => {
            assert!(budgeted);
            assert_eq!(platinum, 20);
            assert_eq!(delete_first, vec!["o2".to_string()]);
        },
        _ => panic!("expected a new order"),
    }
}

#[test]
fn buy_losing_the_budget_keeps_everything() {
    // margin 21 - 20 = 1: the new order earns nothing, so it is not chosen
    let cur = vec![my("o1", "a", 50, 5)];
    let market = vec![bid("x", 20), ask("z", 50)];
    let a = trader().compare_live_orders_when_buying(&s("lex"), &cur, &market, avg(21, false), &vec![]);
    assert!(matches!(a, BuyAction::Keep));
}

#[test]
fn buy_good_margin_reprices_my_order() {
    let cur = vec![my("o1", "ash", 5, 0), my("o7", "lex", 18, 0)];
    let market = vec![bid("x", 20), ask("z", 50)];
    let a = trader().compare_live_orders_when_buying(&s("lex"), &cur, &market, avg(60, false), &vec![]);
    match a {
        BuyAction::Update { order_id, price, repriced, .. } => {
            assert_eq!(order_id, "o7");
            assert_eq!(price, 20);
            let r = repriced.expect("the changed row");
            assert_eq!(r.rows, vec![1]);
            assert_eq!(r.platinum, 20);
            assert_eq!(r.potential_profit, 2);
        },
        _ => panic!("expected an update"),
    }
}

#[test]
fn buy_good_margin_same_price_reports_no_change() {
    let cur = vec![my("o7", "lex", 20, 0)];
    let market = vec![bid("x", 20), ask("z", 50)];
    let a = trader().compare_live_orders_when_buying(&s("lex"), &cur, &market, avg(60, false), &vec![]);
    match a {
        BuyAction::Update { price, repriced, .. } => {
            assert_eq!(price, 20);
            assert!(repriced.is_none());
        },
        _ => panic!("expected an update"),
    }
}

#[test]
fn buy_no_number_average_never_clears_the_bar() {
    // an average over nothing compares false: a lone bid is not placed
    let none = AveragePrice { whole: 0, fractional: false, is_number: false };
    let a = trader().compare_live_orders_when_buying(&s("lex"), &vec![], &vec![ask("x", 90)], none, &vec![]);
    assert!(matches!(a, BuyAction::Keep));
}

#[test]
fn buy_holding_too_many_deletes_my_order() {
    // margin 69.5 - 20 truncates to 49, under 25 per piece for 2 pieces
    let cur = vec![my("o7", "lex", 18, 0)];
    let market = vec![bid("x", 20), ask("z", 50)];
    let t = trader();
    let a = t.compare_live_orders_when_buying(&s("lex"), &cur, &market, avg(69, true), &held("lex", 2));
    assert!(matches!(a, BuyAction::Delete { .. }));
    // margin 50 is enough
    let b = t.compare_live_orders_when_buying(&s("lex"), &cur, &market, avg(70, false), &held("lex", 2));
    assert!(matches!(b, BuyAction::Update { price: 20, .. }));
    // without an order there is nothing to delete
    let c = t.compare_live_orders_when_buying(&s("lex"), &vec![], &market, avg(69, true), &held("lex", 2));
    assert!(matches!(c, BuyAction::Keep));
}

#[test]
fn buy_bad_time_deletes_my_order() {
    // spread 10, margin 10
    let cur = vec![my("o7", "lex", 18, 0)];
    let market = vec![bid("x", 20), ask("z", 30)];
    let t = trader();
    let a = t.compare_live_orders_when_buying(&s("lex"), &cur, &market, avg(30, false), &vec![]);
    match a {
        BuyAction::Delete { order_id } => assert_eq!(order_id, "o7"),
        _ => panic!("expected a deletion"),
    }
    let b = t.compare_live_orders_when_buying(&s("lex"), &vec![], &market, avg(30, false), &vec![]);
    assert!(matches!(b, BuyAction::Keep));
}

#[test]
fn buy_best_bid_above_cap_is_skipped() {
    let market = vec![bid("x", 700), ask("z", 800)];
    let a = trader().compare_live_orders_when_buying(&s("lex"), &vec![], &market, avg(900, false), &vec![]);
    assert!(matches!(a, BuyAction::Keep));
}

fn stock(bought: i64, owned: i32, min: Option<i32>, status: StockStatus) -> Option<StockItem> {
    Some(StockItem { bought_price: bought, owned, minimum_price: min, status })
}

#[test]
fn sell_nothing_without_stock_or_order() {
    let e = trader().compare_live_orders_when_selling(&s("lex"), &vec![], &vec![ask("x", 10)], &vec![], None);
    assert!(e.is_empty());
}

#[test]
fn sell_order_without_stock_is_deleted() {
    let cur = vec![my("s1", "lex", 40, 0)];
    let e = trader().compare_live_orders_when_selling(&s("lex"), &cur, &vec![], &vec![s("other")], None);
    assert_eq!(e.len(), 2);
    assert!(matches!(e[0], SellEffect::SetStock { price: None, status: StockStatus::ToLowProfit }));
    match &e[1] {
        SellEffect::DeleteOrder { order_id } => assert_eq!(order_id, "s1"),
        _ => panic!("expected a deletion"),
    }
}

#[test]
fn sell_without_competition_goes_thirty_above_cost() {
    let t = trader();
    let e = t.compare_live_orders_when_selling(&s("lex"), &vec![], &vec![bid("x", 10)], &vec![s("lex")], stock(100, 3, None, StockStatus::Live));
    assert_eq!(e.len(), 2);
    assert!(matches!(e[0], SellEffect::SetStock { price: Some(130), status: StockStatus::NoBuyers }));
    assert!(matches!(e[1], SellEffect::CreateOrder { platinum: 130, quantity: 3 }));
    // raised to the minimum, and an existing order is repriced
    let cur = vec![my("s1", "lex", 40, 0)];
    let f = t.compare_live_orders_when_selling(&s("lex"), &cur, &vec![], &vec![s("lex")], stock(100, 3, Some(150), StockStatus::Live));
    assert!(matches!(f[0], SellEffect::SetStock { price: Some(150), status: StockStatus::NoBuyers }));
    match &f[1] {
        SellEffect::UpdateOrder { order_id, price, quantity, visible } => {
            assert_eq!(order_id, "s1");
            assert_eq!((*price, *quantity, *visible), (150, 3, false));
        },
        _ => panic!("expected an update"),
    }
}

#[test]
fn sell_too_cheap_market_marks_low_profit() {
    let t = trader();
    let cur = vec![my("s1", "lex", 120, 0)];
    let e = t.compare_live_orders_when_selling(&s("lex"), &cur, &vec![ask("x", 80)], &vec![s("lex")], stock(100, 1, None, StockStatus::Live));
    assert_eq!(e.len(), 2);
    assert!(matches!(e[0], SellEffect::SetStock { price: Some(-1), status: StockStatus::ToLowProfit }));
    assert!(matches!(e[1], SellEffect::DeleteOrder { .. }));
    // already marked: only the order goes
    let f = t.compare_live_orders_when_selling(&s("lex"), &cur, &vec![ask("x", 90)], &vec![s("lex")], stock(100, 1, None, StockStatus::ToLowProfit));
    assert_eq!(f.len(), 1);
    assert!(matches!(f[0], SellEffect::DeleteOrder { .. }));
}

#[test]
fn sell_matches_cheapest_ask() {
    let t = trader();
    let market = vec![ask("x", 160), ask("y", 150), ask("me", 10)];
    // no order yet: post at the cheapest ask
    let e = t.compare_live_orders_when_selling(&s("lex"), &vec![], &market, &vec![s("lex")], stock(100, 2, None, StockStatus::Live));
    assert_eq!(e.len(), 2);
    assert!(matches!(e[0], SellEffect::CreateOrder { platinum: 150, quantity: 2 }));
    assert!(matches!(e[1], SellEffect::SetStock { price: Some(150), status: StockStatus::Live }));
    // my order already at that price: nothing to do
    let same = vec![my("s1", "lex", 150, 0)];
    assert!(t.compare_live_orders_when_selling(&s("lex"), &same, &market, &vec![s("lex")], stock(100, 2, None, StockStatus::Live)).is_empty());
    // my order at another price: reprice it
    let other = vec![my("s1", "lex", 140, 0)];
    let f = t.compare_live_orders_when_selling(&s("lex"), &other, &market, &vec![s("lex")], stock(100, 2, None, StockStatus::Live));
    assert!(matches!(f[0], SellEffect::UpdateOrder { price: 150, quantity: 2, .. }));
    assert!(matches!(f[1], SellEffect::SetStock { price: Some(150), status: StockStatus::Live }));
}

#[test]
fn sell_never_below_ten_over_cost() {
    // cheapest ask 95 is only 5 under cost: post at cost + 10
    let e = trader().compare_live_orders_when_selling(&s("lex"), &vec![], &vec![ask("x", 95)], &vec![s("lex")], stock(100, 1, None, StockStatus::Live));
    assert!(matches!(e[0], SellEffect::CreateOrder { platinum: 110, quantity: 1 }));
    let f = trader().compare_live_orders_when_selling(&s("lex"), &vec![], &vec![ask("x", 95)], &vec![s("lex")], stock(100, 1, Some(200), StockStatus::Live));
    assert!(matches!(f[0], SellEffect::CreateOrder { platinum: 200, quantity: 1 }));
}

#[test]
fn buy_orders_that_stay_fit_the_budget() {
    // budget 100: the new order (20) joins o1 (50); o2 (40) would push the total to 110
    let cur = vec![my("o1", "a", 50, 5), my("o2", "b", 40, 2)];
    let market = vec![bid("x", 20), ask("z", 50)];
    let a = trader().compare_live_orders_when_buying(&s("lex"), &cur, &market, avg(60, false), &vec![]);
    match a {
        BuyAction::Create { platinum, delete_first, .. } => {
            let kept: i64 = cur.iter().filter(|o| !delete_first.contains(&o.id)).map(|o| o.platinum).sum();
            assert!(kept + platinum <= 100);
        },
        _ => panic!("expected a new order"),
    }
}

#[test]
fn sell_touches_only_my_order_for_the_item() {
    let cur = vec![my("other", "zz", 5, 0), my("mine", "lex", 140, 0)];
    let e = trader().compare_live_orders_when_selling(&s("lex"), &cur, &vec![ask("x", 150)], &vec![s("lex")], stock(100, 2, None, StockStatus::Live));
    match &e[0] {
        SellEffect::UpdateOrder { order_id, .. } => assert_eq!(order_id, "mine"),
        _ => panic!("expected an update"),
    }
}

#[test]
fn buy_decision_defined_where_the_arithmetic_fits() {
    let t = trader();
    let market = vec![bid("x", 20), ask("z", 50)];
    assert!(t.buy_decision_defined(&s("lex"), &vec![my("o1", "a", 5, 3)], &market, avg(60, false), &vec![]));
    // the spread leaves i64
    let wild = vec![bid("x", -1), ask("z", i64::MAX)];
    assert!(!t.live_spread_fits(&wild));
    assert!(!t.buy_decision_defined(&s("lex"), &vec![], &wild, avg(60, false), &vec![]));
    // a blacklisted item is never looked at
    assert!(t.buy_decision_defined(&s("forma_blueprint"), &vec![], &wild, avg(60, false), &vec![]));
    // the budget table would overflow: a held order with the largest profit, room for both
    let rich = vec![my("o1", "a", 1, i64::MAX)];
    assert!(!t.buy_decision_defined(&s("lex"), &rich, &market, avg(60, false), &vec![]));
}

#[test]
fn sell_decision_defined_needs_a_stock_record() {
    let t = trader();
    let names = vec![s("lex")];
    let market = vec![ask("z", 50)];
    assert!(!t.sell_decision_defined(&s("lex"), &market, &names, None));
    assert!(t.sell_decision_defined(&s("lex"), &market, &names, stock(20, 1, None, StockStatus::Live)));
    assert!(t.sell_decision_defined(&s("other"), &market, &names, None));
    // nobody sells and the bought price plus 30 leaves i64
    assert!(!t.sell_decision_defined(&s("lex"), &vec![], &names, stock(i64::MAX - 10, 1, None, StockStatus::Live)));
}
