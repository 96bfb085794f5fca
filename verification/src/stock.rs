//! The course of a stock check and of a bulk deletion: which orders go first, which items are
//! looked at, and where each item is sent.
use vstd::prelude::*;
use crate::model::{ItemModule, MyOrder, OrderMode, OrderType};
use crate::orders::has_name;
use crate::overlap::contains_name;

verus! {

/// No two names in `names` are the same.
pub open spec fn distinct_names(names: Seq<String>) -> bool {
    forall|i: int, j: int| 0 <= i < j < names.len() ==> names[i]@ != names[j]@
}

/// The mode trades on the buy side.
pub open spec fn buys(mode: OrderMode) -> bool {
    mode == OrderMode::Buy || mode == OrderMode::Both
}

/// The mode trades on the sell side.
pub open spec fn sells(mode: OrderMode) -> bool {
    mode == OrderMode::Sell || mode == OrderMode::Both
}

/// Where an item goes during a stock check.
#[derive(Clone, Copy, PartialEq, Eq, Structural)]
pub enum ItemRoute {
    /// Nothing to look at.
    Skip,
    /// Not a popular item: fetch its details and decide on its sell order only.
    SellOnly,
    /// A popular item: decide on the buy side, the sell side, or both.
    Compare { buy: bool, sell: bool },
}

/// One of my orders, as the market lists it: its id and, when the market names it,
/// the url name of its item.
pub struct PlacedOrder {
    pub id: String,
    pub url_name: Option<String>,
}

/// Appends to `out` the names of `src` that it does not hold yet.
fn add_new_names(out: &mut Vec<String>, src: &Vec<String>)
    requires
        distinct_names(old(out)@),
    ensures
        distinct_names(final(out)@),
        forall|x: Seq<char>|
            #[trigger] has_name(final(out)@, x) <==> has_name(old(out)@, x) || has_name(src@, x),
{
    let ghost start = out@;
    let mut i: usize = 0;
    while i < src.len()
        invariant
            i <= src@.len(),
            distinct_names(out@),
            forall|x: Seq<char>|
                has_name(out@, x) <==> has_name(start, x) || has_name(src@.subrange(0, i as int), x),
        decreases src@.len() - i,
    {
        let ghost before = out@;
        let ghost pre = src@.subrange(0, i as int);
        let ghost post = src@.subrange(0, i + 1);
        proof {
            assert(post == pre.push(src@[i as int]));
            assert forall|x: Seq<char>| has_name(post, x) <==> has_name(pre, x) || src@[i as int]@ == x by {
                if has_name(post, x) {
                    let j = choose|j: int| 0 <= j < post.len() && post[j]@ == x;
                    if j < i {
                        assert(pre[j] == post[j]);
                    }
                }
                if has_name(pre, x) {
                    let j = choose|j: int| 0 <= j < pre.len() && pre[j]@ == x;
                    assert(post[j] == pre[j]);
                }
                if src@[i as int]@ == x {
                    assert(post[i as int] == src@[i as int]);
                }
            }
        }
        if !contains_name(out, &src[i]) {
            out.push(src[i].clone());
            proof {
                assert forall|x: Seq<char>| has_name(out@, x) <==> has_name(before, x) || src@[i as int]@ == x by {
                    if has_name(out@, x) {
                        let j = choose|j: int| 0 <= j < out@.len() && out@[j]@ == x;
                        if j < before.len() {
                            assert(before[j] == out@[j]);
                        }
                    }
                    if has_name(before, x) {
                        let j = choose|j: int| 0 <= j < before.len() && before[j]@ == x;
                        assert(out@[j] == before[j]);
                    }
                    if src@[i as int]@ == x {
                        assert(out@[before.len() as int]@ == x);
                    }
                }
            }
        }
        proof {
            assert forall|x: Seq<char>| has_name(out@, x) <==> has_name(start, x) || has_name(post, x) by {
                if src@[i as int]@ == x {
                    assert(has_name(out@, x));
                }
            }
        }
        i = i + 1;
    }
    proof {
        assert(src@.subrange(0, src@.len() as int) == src@);
    }
}

/// The positions of my buy orders for popular items, in order.
pub open spec fn orders_for(orders: Seq<MyOrder>, names: Seq<String>) -> Seq<usize> {
    Seq::new(orders.len(), |i: int| i).filter(|i: int| has_name(names, orders[i].url_name@)).map_values(
        |i: int| i as usize,
    )
}

/// Everything a stock run settles before it looks at the items.
pub struct StockRun {
    /// The side whose orders are deleted first (the one the mode does not trade).
    pub clear_side: Option<OrderType>,
    /// How many of my orders that side holds.
    pub clear_count: usize,
    /// The items looked at, each once.
    pub items: Vec<String>,
    /// The popular items, as far as the mode buys (none otherwise).
    pub popular: Vec<String>,
    /// The positions of my buy orders that the buy decisions weigh: those for popular items
    /// when the mode buys, all of them otherwise.
    pub buy_orders: Vec<usize>,
}

/// Where a stock run stands.
#[derive(Clone, Copy, PartialEq, Eq, Structural)]
pub enum RunPhase {
    /// Deleting the orders of the side to clear, from position `next` on.
    Clearing { next: usize },
    /// About to look at the item at position `next`.
    Looking { next: usize },
    /// The live orders of the item at position `item` were fetched.
    Fetched { item: usize },
    /// All items were looked at.
    Done,
}

/// What the world tells a stock run at a step: whether the scraper still runs, and (after a
/// fetch) how many live orders the item has.
#[derive(Clone, Copy)]
pub struct RunEvent {
    pub running: bool,
    pub live_orders: usize,
}

/// What a stock run does at a step.
#[derive(Clone, Copy, PartialEq, Eq, Structural)]
pub enum RunAction {
    /// Delete my order at position `index` on side `side`.
    DeleteOrder { side: OrderType, index: usize },
    /// Fetch the live orders of the item at position `item`.
    FetchLiveOrders { item: usize },
    /// Nothing to do at this step.
    Pass,
    /// Fetch the details of the item at position `item` and make its sell decision only.
    SellOnly { item: usize },
    /// Make the buy and/or sell decisions of the item at position `item`.
    Compare { item: usize, buy: bool, sell: bool },
    /// The run is over.
    Finished,
}

/// Where an item with `live_orders` live orders goes: nowhere without live orders; to the sell
/// decision only when it is not popular; to the decisions of the sides the mode trades otherwise.
pub open spec fn item_route(
    mode: OrderMode,
    item: Seq<char>,
    popular: Seq<String>,
    live_orders: nat,
) -> ItemRoute {
    if live_orders == 0 {
        ItemRoute::Skip
    } else if !has_name(popular, item) {
        ItemRoute::SellOnly
    } else {
        ItemRoute::Compare { buy: buys(mode), sell: sells(mode) }
    }
}

/// One step of a stock run: first the orders of the side to clear are deleted one by one;
/// then each item is looked at in turn, but only while the scraper runs and only when it has a
/// name; its live orders are fetched, and an item with live orders goes to its decisions.
pub open spec fn run_step(m: ItemModule, run: StockRun, phase: RunPhase, event: RunEvent) -> (
    RunPhase,
    RunAction,
) {
    match phase {
        RunPhase::Clearing { next } => match run.clear_side {
            Some(side) => if next < run.clear_count {
                (RunPhase::Clearing { next: (next + 1) as usize }, RunAction::DeleteOrder { side, index: next })
            } else {
                (RunPhase::Looking { next: 0 }, RunAction::Pass)
            },
            None => (RunPhase::Looking { next: 0 }, RunAction::Pass),
        },
        RunPhase::Looking { next } => if next >= run.items@.len() {
            (RunPhase::Done, RunAction::Finished)
        } else if !(event.running && run.items@[next as int]@.len() != 0) {
            (RunPhase::Looking { next: (next + 1) as usize }, RunAction::Pass)
        } else {
            (RunPhase::Fetched { item: next }, RunAction::FetchLiveOrders { item: next })
        },
        RunPhase::Fetched { item } => if item >= run.items@.len() {
            (RunPhase::Done, RunAction::Finished)
        } else {
            let action = match item_route(
                m.settings.order_mode,
                run.items@[item as int]@,
                run.popular@,
                event.live_orders as nat,
            ) {
                ItemRoute::Skip => RunAction::Pass,
                ItemRoute::SellOnly => RunAction::SellOnly { item },
                ItemRoute::Compare { buy, sell } => RunAction::Compare { item, buy, sell },
            };
            (RunPhase::Looking { next: (item + 1) as usize }, action)
        },
        RunPhase::Done => (RunPhase::Done, RunAction::Finished),
    }
}

/// How far a run has come: every step that is not the last one moves it further.
pub open spec fn progress(run: StockRun, phase: RunPhase) -> int {
    match phase {
        RunPhase::Clearing { next } => next as int,
        RunPhase::Looking { next } => run.clear_count + 2 * next + 1,
        RunPhase::Fetched { item } => run.clear_count + 2 * item + 2,
        RunPhase::Done => run.clear_count + 2 * run.items@.len() + 3,
    }
}

/// The orders a bulk deletion in `mode` goes through: my buy orders when the mode buys, then
/// my sell orders when it sells.
pub open spec fn queue_len(mode: OrderMode, buy_len: nat, sell_len: nat) -> nat {
    (if buys(mode) {
        buy_len
    } else {
        0nat
    }) + (if sells(mode) {
        sell_len
    } else {
        0nat
    })
}

/// The side and position of the order at place `k` of the bulk deletion queue.
pub open spec fn queued(mode: OrderMode, buy_len: nat, k: int) -> (OrderType, int) {
    let first = if buys(mode) {
        buy_len as int
    } else {
        0
    };
    if k < first {
        (OrderType::Buy, k)
    } else {
        (OrderType::Sell, k - first)
    }
}

/// The order at place `k` of the bulk deletion queue.
pub open spec fn queued_order(
    mode: OrderMode,
    buy: Seq<PlacedOrder>,
    sell: Seq<PlacedOrder>,
    k: int,
) -> PlacedOrder {
    let (side, i) = queued(mode, buy.len(), k);
    if side == OrderType::Buy {
        buy[i]
    } else {
        sell[i]
    }
}

/// What a bulk deletion does at one place of its queue.
#[derive(Clone, Copy, PartialEq, Eq, Structural)]
pub enum BulkStep {
    /// Every queued order was gone through.
    Finished,
    /// The scraper was stopped: stop deleting.
    Stop,
    /// The order's item is blacklisted: leave it.
    Skip { side: OrderType, index: usize },
    /// Delete my order at position `index` on side `side`.
    Delete { side: OrderType, index: usize },
}

/// A bulk deletion at place `position` of its queue: once the queue is through it is finished;
/// once the scraper no longer runs it stops; orders of blacklisted items are left; the others
/// are deleted.
pub open spec fn bulk_step(
    m: ItemModule,
    mode: OrderMode,
    buy: Seq<PlacedOrder>,
    sell: Seq<PlacedOrder>,
    position: int,
    running: bool,
) -> BulkStep {
    if position >= queue_len(mode, buy.len(), sell.len()) {
        BulkStep::Finished
    } else if !running {
        BulkStep::Stop
    } else {
        let (side, i) = queued(mode, buy.len(), position);
        let o = queued_order(mode, buy, sell, position);
        if has_name(m.settings.blacklist@, o.url_name.unwrap()@) {
            BulkStep::Skip { side, index: i as usize }
        } else {
            BulkStep::Delete { side, index: i as usize }
        }
    }
}

fn copy_names(names: &Vec<String>) -> (res: Vec<String>)
    ensures
        res@ == names@,
{
    let mut out: Vec<String> = Vec::new();
    let mut i: usize = 0;
    while i < names.len()
        invariant
            i <= names@.len(),
            out@ == names@.subrange(0, i as int),
        decreases names@.len() - i,
    {
        out.push(names[i].clone());
        proof {
            assert(names@.subrange(0, i + 1) == names@.subrange(0, i as int).push(names@[i as int]));
        }
        i = i + 1;
    }
    proof {
        assert(names@.subrange(0, names@.len() as int) == names@);
    }
    out
}

impl ItemModule {
    /// The trading mode buys.
    pub fn trades_buy(&self) -> (res: bool)
        ensures
            res == buys(self.settings.order_mode),
    {
        matches!(self.settings.order_mode, OrderMode::Buy | OrderMode::Both)
    }

    /// The trading mode sells.
    pub fn trades_sell(&self) -> (res: bool)
        ensures
            res == sells(self.settings.order_mode),
    {
        matches!(self.settings.order_mode, OrderMode::Sell | OrderMode::Both)
    }

    /// The positions of `orders` whose item is one of `names`, in order.
    pub fn orders_for_items(&self, orders: &Vec<MyOrder>, names: &Vec<String>) -> (res: Vec<usize>)
        ensures
            res@ == orders_for(orders@, names@),
    {
        let ghost keep = |i: int| has_name(names@, orders@[i].url_name@);
        let mut out: Vec<usize> = Vec::new();
        let mut i: usize = 0;
        while i < orders.len()
            invariant
                i <= orders@.len(),
                keep == (|i: int| has_name(names@, orders@[i].url_name@)),
                out@ == Seq::new(i as nat, |j: int| j).filter(keep).map_values(|j: int| j as usize),
            decreases orders@.len() - i,
        {
            let ghost idx = Seq::new(i as nat, |j: int| j);
            let ghost idx2 = Seq::new((i + 1) as nat, |j: int| j);
            proof {
                assert(idx2 == idx.push(i as int));
                assert(idx2.drop_last() == idx);
                reveal_with_fuel(Seq::filter, 1);
            }
            if contains_name(names, &orders[i].url_name) {
                out.push(i);
                proof {
                    assert(idx2.filter(keep) == idx.filter(keep).push(i as int));
                    assert(out@ =~= idx2.filter(keep).map_values(|j: int| j as usize));
                }
            } else {
                proof {
                    assert(idx2.filter(keep) == idx.filter(keep));
                }
            }
            i = i + 1;
        }
        out
    }

    /// Settles a stock run from my placed buy and sell orders, my buy orders as the market
    /// lists them with prices, the items in stock and the popular items: the side to clear
    /// first, the items to look at (the items in stock when selling, the popular ones when
    /// buying, and the whitelisted ones, each once), the popular items, and the buy orders the
    /// buy decisions weigh. The run itself goes by `check_stock_step`.
    pub fn check_stock(
        &self,
        my_buy_orders: &Vec<PlacedOrder>,
        my_sell_orders: &Vec<PlacedOrder>,
        buy_order_rows: &Vec<MyOrder>,
        stock_names: &Vec<String>,
        popular_names: &Vec<String>,
    ) -> (res: StockRun)
        ensures
            res.clear_side == match self.settings.order_mode {
                OrderMode::Buy => Some(OrderType::Sell),
                OrderMode::Sell => Some(OrderType::Buy),
                OrderMode::Both => None::<OrderType>,
            },
            res.clear_count == match self.settings.order_mode {
                OrderMode::Buy => my_sell_orders@.len(),
                OrderMode::Sell => my_buy_orders@.len(),
                OrderMode::Both => 0,
            },
            distinct_names(res.items@),
            forall|x: Seq<char>|
                has_name(res.items@, x) <==> (sells(self.settings.order_mode) && has_name(
                    stock_names@,
                    x,
                )) || (buys(self.settings.order_mode) && has_name(popular_names@, x)) || has_name(
                    self.settings.whitelist@,
                    x,
                ),
            res.popular@ == if buys(self.settings.order_mode) {
                popular_names@
            } else {
                Seq::<String>::empty()
            },
            res.buy_orders@ == if buys(self.settings.order_mode) {
                orders_for(buy_order_rows@, popular_names@)
            } else {
                Seq::new(buy_order_rows@.len(), |i: int| i as usize)
            },
    {
        let (clear_side, clear_count) = match self.settings.order_mode {
            OrderMode::Buy => (Some(OrderType::Sell), my_sell_orders.len()),
            OrderMode::Sell => (Some(OrderType::Buy), my_buy_orders.len()),
            OrderMode::Both => (None, 0),
        };
        let no_names: Vec<String> = Vec::new();
        let held = if self.trades_sell() {
            stock_names
        } else {
            &no_names
        };
        let popular = if self.trades_buy() {
            popular_names
        } else {
            &no_names
        };
        proof {
            assert(no_names@.len() == 0);
        }
        let mut out: Vec<String> = Vec::new();
        let ghost o0 = out@;
        add_new_names(&mut out, held);
        let ghost o1 = out@;
        add_new_names(&mut out, popular);
        let ghost o2 = out@;
        add_new_names(&mut out, &self.settings.whitelist);
        proof {
            assert forall|x: Seq<char>|
                has_name(out@, x) <==> (sells(self.settings.order_mode) && has_name(
                    stock_names@,
                    x,
                )) || (buys(self.settings.order_mode) && has_name(popular_names@, x)) || has_name(
                    self.settings.whitelist@,
                    x,
                ) by {
                assert(!has_name(o0, x));
                assert(has_name(o1, x) <==> has_name(held@, x));
                assert(has_name(o2, x) <==> has_name(o1, x) || has_name(popular@, x));
                assert(has_name(out@, x) <==> has_name(o2, x) || has_name(self.settings.whitelist@, x));
                if !sells(self.settings.order_mode) {
                    assert(!has_name(held@, x));
                } else {
                    assert(held@ == stock_names@);
                }
                if !buys(self.settings.order_mode) {
                    assert(!has_name(popular@, x));
                } else {
                    assert(popular@ == popular_names@);
                }
            }
        }
        let buy_orders = if self.trades_buy() {
            self.orders_for_items(buy_order_rows, popular_names)
        } else {
            let mut all: Vec<usize> = Vec::new();
            let mut i: usize = 0;
            while i < buy_order_rows.len()
                invariant
                    i <= buy_order_rows@.len(),
                    all@ =~= Seq::new(i as nat, |j: int| j as usize),
                decreases buy_order_rows@.len() - i,
            {
                all.push(i);
                i = i + 1;
            }
            all
        };
        StockRun {
            clear_side,
            clear_count,
            items: out,
            popular: copy_names(popular),
            buy_orders,
        }
    }

    /// One step of a stock run (see `run_step`): from where the run stands and what the world
    /// tells, where it stands next and what it does.
    pub fn check_stock_step(&self, run: &StockRun, phase: RunPhase, event: RunEvent) -> (res: (
        RunPhase,
        RunAction,
    ))
        ensures
            res == run_step(*self, *run, phase, event),
    {
        match phase {
            RunPhase::Clearing { next } => match run.clear_side {
                Some(side) => if next < run.clear_count {
                    (RunPhase::Clearing { next: next + 1 }, RunAction::DeleteOrder { side, index: next })
                } else {
                    (RunPhase::Looking { next: 0 }, RunAction::Pass)
                },
                None => (RunPhase::Looking { next: 0 }, RunAction::Pass),
            },
            RunPhase::Looking { next } => if next >= run.items.len() {
                (RunPhase::Done, RunAction::Finished)
            } else if !(event.running && !run.items[next].as_str().is_empty()) {
                (RunPhase::Looking { next: next + 1 }, RunAction::Pass)
            } else {
                (RunPhase::Fetched { item: next }, RunAction::FetchLiveOrders { item: next })
            },
            RunPhase::Fetched { item } => if item >= run.items.len() {
                (RunPhase::Done, RunAction::Finished)
            } else {
                let action = if event.live_orders == 0 {
                    RunAction::Pass
                } else if !contains_name(&run.popular, &run.items[item]) {
                    RunAction::SellOnly { item }
                } else {
                    RunAction::Compare { item, buy: self.trades_buy(), sell: self.trades_sell() }
                };
                (RunPhase::Looking { next: item + 1 }, action)
            },
            RunPhase::Done => (RunPhase::Done, RunAction::Finished),
        }
    }

    /// One place of a bulk deletion of my orders on the sides `mode` names (see `bulk_step`):
    /// given my buy and sell orders, the place `position` in the queue and whether the scraper
    /// still runs, whether the deletion is over, stops, leaves the order or deletes it.
    pub fn delete_all_orders(
        &self,
        mode: OrderMode,
        buy_orders: &Vec<PlacedOrder>,
        sell_orders: &Vec<PlacedOrder>,
        position: usize,
        running: bool,
    ) -> (res: BulkStep)
        requires
            position < queue_len(mode, buy_orders@.len(), sell_orders@.len()) && running
                ==> queued_order(mode, buy_orders@, sell_orders@, position as int).url_name is Some,
        ensures
            res == bulk_step(*self, mode, buy_orders@, sell_orders@, position as int, running),
    {
        let first = if matches!(mode, OrderMode::Buy | OrderMode::Both) {
            buy_orders.len()
        } else {
            0
        };
        let second = if matches!(mode, OrderMode::Sell | OrderMode::Both) {
            sell_orders.len()
        } else {
            0
        };
        if position >= first && position - first >= second {
            return BulkStep::Finished;
        }
        if !running {
            return BulkStep::Stop;
        }
        let (side, index) = if position < first {
            (OrderType::Buy, position)
        } else {
            (OrderType::Sell, position - first)
        };
        let order = if position < first {
            &buy_orders[index]
        } else {
            &sell_orders[index]
        };
        match &order.url_name {
            Some(name) => if self.is_item_blacklisted(name) {
                BulkStep::Skip { side, index }
            } else {
                BulkStep::Delete { side, index }
            },
            None => BulkStep::Delete { side, index },
        }
    }
}

/// Law: a stock run deletes the orders of the side to clear, one after the other, before it
/// does anything else: from a clearing phase it only deletes such an order or moves on to the
/// items.
pub proof fn lemma_run_clears_first(m: ItemModule, run: StockRun, next: usize, event: RunEvent)
    ensures
        ((run.clear_side is Some) && next < run.clear_count) ==> run_step(
            m,
            run,
            (RunPhase::Clearing { next }),
            event,
        ) == ((RunPhase::Clearing { next: (next + 1) as usize }), (RunAction::DeleteOrder {
            side: run.clear_side.unwrap(),
            index: next,
        })),
        !((run.clear_side is Some) && next < run.clear_count) ==> run_step(
            m,
            run,
            (RunPhase::Clearing { next }),
            event,
        ) == ((RunPhase::Looking { next: 0 }), RunAction::Pass),
{
}

/// Law: a stock run fetches the live orders of an item only while the scraper runs, and never
/// for an empty name; an item without live orders gets no decision.
pub proof fn lemma_run_looks_only_while_running(
    m: ItemModule,
    run: StockRun,
    phase: RunPhase,
    event: RunEvent,
)
    ensures
        (run_step(m, run, phase, event).1 matches RunAction::FetchLiveOrders { item } ==> event.running
            && item < run.items@.len() && run.items@[item as int]@.len() != 0),
        ((phase is Fetched) && event.live_orders == 0) ==> ((run_step(m, run, phase, event).1 is Pass)
            || (run_step(m, run, phase, event).1 is Finished)),
        (!event.running && (phase is Looking)) ==> !(run_step(m, run, phase, event).1 is FetchLiveOrders),
{
}

/// Law: a stock run sends an item with live orders that is not popular to its sell decision
/// only, whatever the mode, and a popular one to the decisions of the sides the mode trades.
pub proof fn lemma_run_routes(m: ItemModule, run: StockRun, item: usize, event: RunEvent)
    requires
        item < run.items@.len(),
        event.live_orders > 0,
    ensures
        !has_name(run.popular@, run.items@[item as int]@) ==> run_step(
            m,
            run,
            (RunPhase::Fetched { item }),
            event,
        ).1 == (RunAction::SellOnly { item }),
        has_name(run.popular@, run.items@[item as int]@) ==> run_step(
            m,
            run,
            (RunPhase::Fetched { item }),
            event,
        ).1 == (RunAction::Compare {
            item,
            buy: buys(m.settings.order_mode),
            sell: sells(m.settings.order_mode),
        }),
{
}

/// Law: every step of a stock run but the last moves it further, so it looks at each item once
/// and comes to an end.
pub proof fn lemma_run_progresses(m: ItemModule, run: StockRun, phase: RunPhase, event: RunEvent)
    requires
        !(phase is Done),
        (phase matches RunPhase::Clearing { next } ==> next <= run.clear_count),
        (phase matches RunPhase::Looking { next } ==> next <= run.items@.len()),
        (phase matches RunPhase::Fetched { item } ==> item < run.items@.len()),
    ensures
        progress(run, run_step(m, run, phase, event).0) > progress(run, phase),
{
    assert(run.items@.len() == run.items.len());
    match phase {
        RunPhase::Looking { next } => {
            if next < run.items@.len() {
                assert(((next + 1) as usize) == next + 1);
            }
        },
        RunPhase::Fetched { item } => {
            assert(((item + 1) as usize) == item + 1);
        },
        _ => {},
    }
}

/// Law: a bulk deletion never deletes an order of a blacklisted item, deletes only while the
/// scraper runs, and stops as soon as it no longer runs.
pub proof fn lemma_bulk_deletion_respects_blacklist(
    m: ItemModule,
    mode: OrderMode,
    buy: Seq<PlacedOrder>,
    sell: Seq<PlacedOrder>,
    position: int,
    running: bool,
)
    requires
        0 <= position,
    ensures
        (bulk_step(m, mode, buy, sell, position, running) is Delete) ==> running && !has_name(
            m.settings.blacklist@,
            queued_order(mode, buy, sell, position).url_name.unwrap()@,
        ),
        !running ==> ((bulk_step(m, mode, buy, sell, position, running) is Stop) || (bulk_step(
            m,
            mode,
            buy,
            sell,
            position,
            running,
        ) is Finished)),
{
}

/// The actions of a stock run from `phase` on, when the world tells `events` in turn.
pub open spec fn run_trace(m: ItemModule, run: StockRun, phase: RunPhase, events: Seq<RunEvent>) -> Seq<
    RunAction,
>
    decreases events.len(),
{
    if events.len() == 0 {
        Seq::empty()
    } else {
        let (next, action) = run_step(m, run, phase, events[0]);
        seq![action] + run_trace(m, run, next, events.drop_first())
    }
}

proof fn lemma_trace_len(m: ItemModule, run: StockRun, phase: RunPhase, events: Seq<RunEvent>)
    ensures
        run_trace(m, run, phase, events).len() == events.len(),
    decreases events.len(),
{
    if events.len() > 0 {
        let (next, action) = run_step(m, run, phase, events[0]);
        lemma_trace_len(m, run, next, events.drop_first());
    }
}

proof fn lemma_trace_clearing(
    m: ItemModule,
    run: StockRun,
    n: usize,
    events: Seq<RunEvent>,
    k: int,
)
    requires
        run.clear_side is Some,
        n <= run.clear_count,
        0 <= k < events.len(),
        n + k < run.clear_count,
    ensures
        run_trace(m, run, (RunPhase::Clearing { next: n }), events)[k] == (RunAction::DeleteOrder {
            side: run.clear_side.unwrap(),
            index: (n + k) as usize,
        }),
    decreases k,
{
    let (next, action) = run_step(m, run, (RunPhase::Clearing { next: n }), events[0]);
    assert(next == (RunPhase::Clearing { next: (n + 1) as usize }));
    lemma_trace_len(m, run, next, events.drop_first());
    if k > 0 {
        lemma_trace_clearing(m, run, (n + 1) as usize, events.drop_first(), k - 1);
    }
}

/// Law: a stock run that starts at the beginning deletes the orders of the side to clear, in
/// order, before it does anything else, whatever the world tells it.
pub proof fn lemma_run_starts_by_clearing(m: ItemModule, run: StockRun, events: Seq<RunEvent>, k: int)
    requires
        run.clear_side is Some,
        0 <= k < events.len(),
        k < run.clear_count,
    ensures
        run_trace(m, run, (RunPhase::Clearing { next: 0 }), events)[k] == (RunAction::DeleteOrder {
            side: run.clear_side.unwrap(),
            index: k as usize,
        }),
{
    lemma_trace_clearing(m, run, 0, events, k);
}

/// Law: while the scraper does not run, a stock run fetches no live orders and makes no
/// decision on any item, from wherever it stands.
pub proof fn lemma_stopped_run_decides_nothing(
    m: ItemModule,
    run: StockRun,
    phase: RunPhase,
    events: Seq<RunEvent>,
    k: int,
)
    requires
        !(phase is Fetched),
        forall|j: int| 0 <= j < events.len() ==> !(#[trigger] events[j]).running,
        0 <= k < events.len(),
    ensures
        !(run_trace(m, run, phase, events)[k] is FetchLiveOrders),
        !(run_trace(m, run, phase, events)[k] is SellOnly),
        !(run_trace(m, run, phase, events)[k] is Compare),
    decreases k,
{
    let (next, action) = run_step(m, run, phase, events[0]);
    assert(!events[0].running);
    assert(!(next is Fetched));
    lemma_trace_len(m, run, next, events.drop_first());
    if k > 0 {
        assert forall|j: int| 0 <= j < events.drop_first().len() implies !(
        #[trigger] events.drop_first()[j]).running by {
            assert(events.drop_first()[j] == events[j + 1]);
        }
        lemma_stopped_run_decides_nothing(m, run, next, events.drop_first(), k - 1);
        assert(run_trace(m, run, phase, events)[k] == run_trace(m, run, next, events.drop_first())[k
            - 1]);
    }
}

/// Law: a bulk deletion goes through my buy orders when the mode is Buy or Both, then my sell
/// orders when it is Sell or Both, in order, and nothing more: while the scraper runs, each of
/// those orders is deleted, or left when its item is blacklisted, and past them it is over.
pub proof fn lemma_bulk_deletion_queue(
    m: ItemModule,
    mode: OrderMode,
    buy: Seq<PlacedOrder>,
    sell: Seq<PlacedOrder>,
    position: int,
)
    requires
        0 <= position,
        buy.len() + sell.len() <= usize::MAX,
    ensures
        ({
            let first = if mode == OrderMode::Buy || mode == OrderMode::Both {
                buy.len() as int
            } else {
                0
            };
            let total = first + if mode == OrderMode::Sell || mode == OrderMode::Both {
                sell.len() as int
            } else {
                0
            };
            let step = bulk_step(m, mode, buy, sell, position, true);
            &&& (step is Finished) <==> position >= total
            &&& position < first ==> step == if has_name(
                m.settings.blacklist@,
                buy[position].url_name.unwrap()@,
            ) {
                BulkStep::Skip { side: OrderType::Buy, index: position as usize }
            } else {
                BulkStep::Delete { side: OrderType::Buy, index: position as usize }
            }
            &&& first <= position < total ==> step == if has_name(
                m.settings.blacklist@,
                sell[position - first].url_name.unwrap()@,
            ) {
                BulkStep::Skip { side: OrderType::Sell, index: (position - first) as usize }
            } else {
                BulkStep::Delete { side: OrderType::Sell, index: (position - first) as usize }
            }
        }),
{
}

} // verus!
