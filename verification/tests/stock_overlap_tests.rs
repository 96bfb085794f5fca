use live_scraper::model::{ItemModule, MyOrder, OrderMode, OrderType, StockItemSettings};
use live_scraper::overlap::{week_increase_rows, GroupRow, PriceRow};
use live_scraper::stock::{BulkStep, PlacedOrder, RunAction, RunEvent, RunPhase, StockRun};

fn scraper(mode: OrderMode, strict: bool) -> ItemModule {
    ItemModule {
        settings: StockItemSettings {
            order_mode: mode,
            blacklist: vec!["forma_blueprint".to_string()],
            whitelist: vec!["ash_prime_set".to_string()],
            strict_whitelist: strict,
            avg_price_cap: 600,
            max_total_price_cap: 100,
            volume_threshold: 15,
            range_threshold: 10,
            price_shift_threshold: -1,
        },
        ingame_name: "me".to_string(),
    }
}

fn names(xs: &[&str]) -> Vec<String> {
    xs.iter().map(|x| x.to_string()).collect()
}

fn sorted(mut v: Vec<String>) -> Vec<String> {
    v.sort();
    v
}

fn po(id: &str, n: &str) -> PlacedOrder {
    PlacedOrder { id: id.to_string(), url_name: Some(n.to_string()) }
}

fn my_row(id: &str, n: &str) -> MyOrder {
    MyOrder { id: id.to_string(), url_name: n.to_string(), visible: true, platinum: 1, potential_profit: 0 }
}

/// Runs a stock run to its end; `live` gives the number of live orders of each item and
/// `running` whether the scraper runs at each step.
fn drive(m: &ItemModule, run: &StockRun, live: &dyn Fn(&str) -> usize, running: &dyn Fn(usize) -> bool) -> Vec<RunAction> {
    let mut phase = RunPhase::Clearing { next: 0 };
    let mut last_live = 0;
    let mut actions = vec![];
    for step in 0..1000 {
        let event = RunEvent { running: running(step), live_orders: last_live };
        let (next, action) = m.check_stock_step(run, phase, event);
        if let RunAction::FetchLiveOrders { item } = action {
            last_live = live(&run.items[item]);
        }
        actions.push(action);
        if action == RunAction::Finished {
            break;
        }
        phase = next;
    }
    actions
}

#[test]
fn interesting_items_are_the_union_without_duplicates() {
    let stock = names(&["a", "b", "a"]);
    let popular = names(&["b", "c", "ash_prime_set"]);
    let none: Vec<PlacedOrder> = vec![];
    let rows: Vec<MyOrder> = vec![];
    let both = scraper(OrderMode::Both, false).check_stock(&none, &none, &rows, &stock, &popular);
    assert_eq!(sorted(both.items), names(&["a", "ash_prime_set", "b", "c"]));
    let buy = scraper(OrderMode::Buy, false).check_stock(&none, &none, &rows, &stock, &popular);
    assert_eq!(sorted(buy.items), names(&["ash_prime_set", "b", "c"]));
    let sell = scraper(OrderMode::Sell, false).check_stock(&none, &none, &rows, &stock, &popular);
    assert_eq!(sorted(sell.items), names(&["a", "ash_prime_set", "b"]));
    assert!(sell.popular.is_empty());
    assert_eq!(buy.popular, popular);
}

#[test]
fn side_cleared_before_a_check() {
    let buys = vec![po("b1", "x"), po("b2", "y")];
    let sells = vec![po("s1", "z")];
    let rows: Vec<MyOrder> = vec![];
    let e = names(&[]);
    let buy = scraper(OrderMode::Buy, false).check_stock(&buys, &sells, &rows, &e, &e);
    assert!(matches!(buy.clear_side, Some(OrderType::Sell)));
    assert_eq!(buy.clear_count, 1);
    let sell = scraper(OrderMode::Sell, false).check_stock(&buys, &sells, &rows, &e, &e);
    assert!(matches!(sell.clear_side, Some(OrderType::Buy)));
    assert_eq!(sell.clear_count, 2);
    let both = scraper(OrderMode::Both, false).check_stock(&buys, &sells, &rows, &e, &e);
    assert!(both.clear_side.is_none());
    assert_eq!(both.clear_count, 0);
}

#[test]
fn stock_run_clears_then_looks_at_each_item() {
    let m = scraper(OrderMode::Sell, false);
    let buys = vec![po("b1", "x"), po("b2", "y")];
    let rows: Vec<MyOrder> = vec![];
    let run = m.check_stock(&buys, &vec![], &rows, &names(&["a", "", "b"]), &names(&["p"]));
    let actions = drive(&m, &run, &|n| if n == "b" { 0 } else { 3 }, &|_| true);
    assert!(actions[0] == RunAction::DeleteOrder { side: OrderType::Buy, index: 0 });
    assert!(actions[1] == RunAction::DeleteOrder { side: OrderType::Buy, index: 1 });
    assert!(actions[2] == RunAction::Pass);
    let fetched: Vec<&str> = actions
        .iter()
        .filter_map(|a| match a {
            RunAction::FetchLiveOrders { item } => Some(run.items[*item].as_str()),
            _ => None,
        })
        .collect();
    // the empty name is never fetched; the others once each
    assert_eq!(sorted(fetched.iter().map(|x| x.to_string()).collect()), names(&["a", "ash_prime_set", "b"]));
    // selling only: every item with live orders goes to its sell decision; "b" has none
    let sold: Vec<String> = actions
        .iter()
        .filter_map(|a| match a {
            RunAction::SellOnly { item } => Some(run.items[*item].clone()),
            _ => None,
        })
        .collect();
    assert_eq!(sorted(sold), names(&["a", "ash_prime_set"]));
    assert!(!actions.iter().any(|a| matches!(a, RunAction::Compare { .. })));
    assert!(*actions.last().unwrap() == RunAction::Finished);
}

#[test]
fn stock_run_routes_popular_items_by_mode() {
    let rows: Vec<MyOrder> = vec![];
    let none: Vec<PlacedOrder> = vec![];
    for (mode, buy, sell) in [(OrderMode::Both, true, true), (OrderMode::Buy, true, false)] {
        let m = scraper(mode, false);
        let run = m.check_stock(&none, &none, &rows, &names(&[]), &names(&["p"]));
        let actions = drive(&m, &run, &|_| 2, &|_| true);
        let p = run.items.iter().position(|x| x == "p").unwrap();
        let w = run.items.iter().position(|x| x == "ash_prime_set").unwrap();
        assert!(actions.contains(&RunAction::Compare { item: p, buy, sell }));
        assert!(actions.contains(&RunAction::SellOnly { item: w }));
    }
}

#[test]
fn stock_run_looks_at_nothing_once_stopped() {
    let m = scraper(OrderMode::Buy, false);
    let sells = vec![po("s1", "z")];
    let rows: Vec<MyOrder> = vec![];
    let run = m.check_stock(&vec![], &sells, &rows, &names(&[]), &names(&["p", "q"]));
    let actions = drive(&m, &run, &|_| 5, &|_| false);
    // the clearing still happens; no item is fetched or decided
    assert!(actions[0] == RunAction::DeleteOrder { side: OrderType::Sell, index: 0 });
    assert!(actions[1..].iter().all(|a| *a == RunAction::Pass || *a == RunAction::Finished));
}

#[test]
fn stock_run_weighs_buy_orders_of_popular_items() {
    let rows = vec![my_row("1", "a"), my_row("2", "b"), my_row("3", "a"), my_row("4", "c")];
    let none: Vec<PlacedOrder> = vec![];
    let buy = scraper(OrderMode::Buy, false).check_stock(&none, &none, &rows, &names(&[]), &names(&["a", "c"]));
    assert_eq!(buy.buy_orders, vec![0, 2, 3]);
    let sell = scraper(OrderMode::Sell, false).check_stock(&none, &none, &rows, &names(&[]), &names(&["a", "c"]));
    assert_eq!(sell.buy_orders, vec![0, 1, 2, 3]);
}

#[test]
fn orders_kept_for_popular_items() {
    let m = scraper(OrderMode::Both, false);
    let orders = vec![my_row("1", "a"), my_row("2", "b"), my_row("3", "a"), my_row("4", "c")];
    assert_eq!(m.orders_for_items(&orders, &names(&["a", "c"])), vec![0, 2, 3]);
}

#[test]
fn bulk_deletion_leaves_blacklisted_orders() {
    let m = scraper(OrderMode::Both, false);
    let buys = vec![po("b1", "x"), po("b2", "forma_blueprint")];
    let sells = vec![po("s1", "z")];
    assert!(m.delete_all_orders(OrderMode::Both, &buys, &sells, 0, true) == BulkStep::Delete { side: OrderType::Buy, index: 0 });
    assert!(m.delete_all_orders(OrderMode::Both, &buys, &sells, 1, true) == BulkStep::Skip { side: OrderType::Buy, index: 1 });
    assert!(m.delete_all_orders(OrderMode::Both, &buys, &sells, 2, true) == BulkStep::Delete { side: OrderType::Sell, index: 0 });
    assert!(m.delete_all_orders(OrderMode::Both, &buys, &sells, 3, true) == BulkStep::Finished);
    assert!(m.delete_all_orders(OrderMode::Sell, &buys, &sells, 0, true) == BulkStep::Delete { side: OrderType::Sell, index: 0 });
    assert!(m.delete_all_orders(OrderMode::Sell, &buys, &sells, 1, true) == BulkStep::Finished);
    assert!(m.delete_all_orders(OrderMode::Buy, &buys, &sells, 2, true) == BulkStep::Finished);
}

#[test]
fn bulk_deletion_stops_when_the_scraper_stops() {
    let m = scraper(OrderMode::Both, false);
    let buys = vec![po("b1", "x")];
    assert!(m.delete_all_orders(OrderMode::Both, &buys, &vec![], 0, false) == BulkStep::Stop);
    assert!(m.delete_all_orders(OrderMode::Both, &buys, &vec![], 1, false) == BulkStep::Finished);
}

fn row(name: &str, t: OrderType, dt: i64) -> PriceRow {
    PriceRow { name: name.to_string(), order_type: t, datetime: dt }
}

#[test]
fn week_rows_newest_and_seventh_newest() {
    let mut rows = vec![];
    for day in [5i64, 1, 9, 3, 7, 2, 8, 4, 6] {
        rows.push(row("lex", OrderType::Closed, day));
        rows.push(row("lex", OrderType::Buy, day));
        rows.push(row("other", OrderType::Closed, day + 100));
    }
    let (a, b) = week_increase_rows(&rows, &"lex".to_string()).unwrap();
    assert_eq!(rows[a].datetime, 9);
    assert_eq!(rows[b].datetime, 3);
    assert!(rows[a].order_type == OrderType::Closed && rows[b].name == "lex");
}

#[test]
fn week_rows_need_seven_days() {
    let rows: Vec<PriceRow> = (0..6).map(|d| row("lex", OrderType::Closed, d)).collect();
    assert!(week_increase_rows(&rows, &"lex".to_string()).is_none());
}

fn group(name: &str, t: OrderType, liquid: bool, attractive: bool) -> GroupRow {
    GroupRow { name: name.to_string(), order_type: t, liquid, attractive }
}

#[test]
fn overlap_keeps_liquid_attractive_items_with_both_sides() {
    let groups = vec![
        group("a", OrderType::Closed, true, true),
        group("a", OrderType::Sell, false, false),
        group("a", OrderType::Buy, false, false),
        group("b", OrderType::Closed, true, false),
        group("b", OrderType::Sell, false, false),
        group("b", OrderType::Buy, false, false),
        group("c", OrderType::Closed, false, true),
        group("c", OrderType::Sell, false, false),
        group("c", OrderType::Buy, false, false),
        group("d", OrderType::Closed, true, true),
        group("d", OrderType::Sell, false, false),
        group("ash_prime_set", OrderType::Closed, true, false),
        group("ash_prime_set", OrderType::Buy, false, false),
        group("ash_prime_set", OrderType::Sell, false, false),
    ];
    let inv = names(&["c"]);
    let loose = scraper(OrderMode::Both, false).get_buy_sell_overlap(&groups, &inv);
    let picked: Vec<(usize, usize, usize)> = loose.iter().map(|r| (r.closed, r.sell, r.buy)).collect();
    // a: liquid and attractive; b: not attractive nor held nor whitelisted; c: held;
    // d: no buy row; ash: whitelisted
    assert_eq!(picked, vec![(0, 1, 2), (6, 7, 8), (11, 13, 12)]);
    let strict = scraper(OrderMode::Both, true).get_buy_sell_overlap(&groups, &inv);
    let picked: Vec<usize> = strict.iter().map(|r| r.closed).collect();
    assert_eq!(picked, vec![11]);
}

#[test]
fn overlap_of_empty_history_is_empty() {
    assert!(scraper(OrderMode::Both, false).get_buy_sell_overlap(&vec![], &vec![]).is_empty());
}
