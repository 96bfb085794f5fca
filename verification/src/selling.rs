//! What to do with my sell order for an item, given the live market and my stock.
use vstd::prelude::*;
use crate::model::{ItemModule, LiveOrder, MyOrder};
use crate::orders::{
    has_name,
    order_info,
    live_summary,
    spread_fits,
    has_order_for,
    first_order_for,
};
use crate::buying::unwrap_id;
use crate::overlap::contains_name;

verus! {

/// The status the stock of an item is kept under.
#[derive(Clone, Copy, PartialEq, Eq, Structural)]
pub enum StockStatus {
    Live,
    NoBuyers,
    ToLowProfit,
    Other,
}

/// What my stock of an item looks like.
#[derive(Clone, Copy)]
pub struct StockItem {
    /// What one piece cost me on average, in whole platinum.
    pub bought_price: i64,
    pub owned: i32,
    /// The lowest price I am willing to sell at, if I set one.
    pub minimum_price: Option<i32>,
    pub status: StockStatus,
}

/// One step of the sell decision, in the order it is carried out.
pub enum SellEffect {
    /// Record a listed price (or none) and a status for the stock of the item.
    SetStock { price: Option<i32>, status: StockStatus },
    /// Delete my sell order.
    DeleteOrder { order_id: String },
    /// Reprice my sell order, for the whole stock, keeping its visibility.
    UpdateOrder { order_id: String, price: i32, quantity: i32, visible: bool },
    /// Post a visible sell order for the whole stock.
    CreateOrder { platinum: i64, quantity: i64 },
}

/// `SellEffect` with the order id taken by its contents.
pub enum SellStep {
    SetStock { price: Option<i32>, status: StockStatus },
    DeleteOrder { order_id: Seq<char> },
    UpdateOrder { order_id: Seq<char>, price: i32, quantity: i32, visible: bool },
    CreateOrder { platinum: i64, quantity: i64 },
}

impl View for SellEffect {
    type V = SellStep;

    open spec fn view(&self) -> SellStep {
        match self {
            SellEffect::SetStock { price, status } => SellStep::SetStock {
                price: *price,
                status: *status,
            },
            SellEffect::DeleteOrder { order_id } => SellStep::DeleteOrder { order_id: order_id@ },
            SellEffect::UpdateOrder { order_id, price, quantity, visible } =>
                SellStep::UpdateOrder {
                order_id: order_id@,
                price: *price,
                quantity: *quantity,
                visible: *visible,
            },
            SellEffect::CreateOrder { platinum, quantity } => SellStep::CreateOrder {
                platinum: *platinum,
                quantity: *quantity,
            },
        }
    }
}

/// `p` raised to the minimum price, if there is one and `p` is below it.
pub open spec fn at_least_minimum(p: int, minimum: Option<i32>) -> int {
    match minimum {
        Some(m) => if p < m {
            m as int
        } else {
            p
        },
        None => p,
    }
}

/// The sell decision for `item`.
///
/// Without stock and without an order nothing happens; without stock but with an order the
/// stock is marked too-low-profit and the order deleted. When nobody else sells, the order goes
/// to 30 above the bought price (at least the minimum) and the stock is marked no-buyers. When
/// the cheapest ask is 10 or more below the bought price, the stock is marked too-low-profit
/// (unless it is already) and the order deleted. Otherwise the order goes to the cheapest ask,
/// but at least 10 above the bought price and at least the minimum; an existing order at that
/// price is left alone.
pub open spec fn sell_plan(
    m: ItemModule,
    item: Seq<char>,
    current: Seq<MyOrder>,
    live: Seq<LiveOrder>,
    inventory: Seq<String>,
    stock: Option<StockItem>,
) -> Seq<SellStep> {
    let (id, visible, price, active) = order_info(current, item);
    let in_stock = has_name(inventory, item);
    let st = stock.unwrap();
    let s = live_summary(live, m.ingame_name@);
    let qty = st.owned as i64;
    if !in_stock && !active {
        Seq::empty()
    } else if !in_stock {
        seq![
            SellStep::SetStock { price: None, status: StockStatus::ToLowProfit },
            SellStep::DeleteOrder { order_id: unwrap_id(id) },
        ]
    } else if s.sellers == 0 {
        let p = at_least_minimum(st.bought_price + 30, st.minimum_price);
        seq![SellStep::SetStock { price: Some(p as i32), status: StockStatus::NoBuyers }] + if active {
            seq![
                SellStep::UpdateOrder {
                    order_id: unwrap_id(id),
                    price: p as i32,
                    quantity: qty as i32,
                    visible,
                },
            ]
        } else {
            seq![SellStep::CreateOrder { platinum: p as i64, quantity: qty }]
        }
    } else if s.lowest_sell - st.bought_price <= -10 {
        (if st.status != StockStatus::ToLowProfit {
            seq![SellStep::SetStock { price: Some(-1i32), status: StockStatus::ToLowProfit }]
        } else {
            Seq::empty()
        }) + if active {
            seq![SellStep::DeleteOrder { order_id: unwrap_id(id) }]
        } else {
            Seq::empty()
        }
    } else {
        let floor = st.bought_price + 10;
        let p1 = if floor >= s.lowest_sell {
            floor
        } else {
            s.lowest_sell as int
        };
        let p = at_least_minimum(p1, st.minimum_price);
        if active {
            if price != p {
                seq![
                    SellStep::UpdateOrder {
                        order_id: unwrap_id(id),
                        price: p as i32,
                        quantity: qty as i32,
                        visible,
                    },
                    SellStep::SetStock { price: Some(p as i32), status: StockStatus::Live },
                ]
            } else {
                Seq::empty()
            }
        } else {
            seq![
                SellStep::CreateOrder { platinum: p as i64, quantity: qty },
                SellStep::SetStock { price: Some(p as i32), status: StockStatus::Live },
            ]
        }
    }
}

/// The inputs on which the sell decision is defined: an item in stock has a stock row, and
/// the prices that are computed stay within `i64`.
pub open spec fn sell_defined(
    m: ItemModule,
    item: Seq<char>,
    live: Seq<LiveOrder>,
    inventory: Seq<String>,
    stock: Option<StockItem>,
) -> bool {
    let st = stock.unwrap();
    let s = live_summary(live, m.ingame_name@);
    has_name(inventory, item) ==> {
        &&& stock is Some
        &&& spread_fits(live, m.ingame_name@)
        &&& s.sellers == 0 ==> st.bought_price + 30 <= i64::MAX
        &&& s.sellers != 0 ==> i64::MIN <= s.lowest_sell - st.bought_price <= i64::MAX
        &&& (s.sellers != 0 && s.lowest_sell - st.bought_price > -10) ==> (s.lowest_sell + 10
            <= i64::MAX && st.bought_price + 10 <= i64::MAX)
    }
}

fn raise_to_minimum(p: i64, minimum: Option<i32>) -> (res: i64)
    ensures
        res == at_least_minimum(p as int, minimum),
{
    match minimum {
        Some(m) => if p < m as i64 {
            m as i64
        } else {
            p
        },
        None => p,
    }
}

fn order_id_of(id: &Option<String>) -> (res: String)
    ensures
        res@ == unwrap_id(
            match id {
                Some(x) => Some(x@),
                None => None,
            },
        ),
{
    match id {
        Some(x) => x.clone(),
        None => String::new(),
    }
}

impl ItemModule {
    /// Whether the sell decision for `item_name` is defined on these inputs (see
    /// `sell_defined`): a held item has a stock record, and the spread and the prices the
    /// decision compares stay within `i64`.
    pub fn sell_decision_defined(
        &self,
        item_name: &String,
        live: &Vec<LiveOrder>,
        inventory_names: &Vec<String>,
        stock: Option<StockItem>,
    ) -> (res: bool)
        ensures
            res == sell_defined(*self, item_name@, live@, inventory_names@, stock),
    {
        if !contains_name(inventory_names, item_name) {
            return true;
        }
        let st = match stock {
            Some(st) => st,
            None => return false,
        };
        if !self.live_spread_fits(live) {
            return false;
        }
        let s = self.summarize_live_orders(live);
        let b = st.bought_price as i128;
        let low = s.lowest_sell as i128;
        let max = i64::MAX as i128;
        if s.sellers == 0 {
            b + 30 <= max
        } else {
            let profit = low - b;
            if profit < i64::MIN as i128 || profit > max {
                false
            } else if profit > -10 {
                low + 10 <= max && b + 10 <= max
            } else {
                true
            }
        }
    }
}

impl ItemModule {
    /// The sell decision for `item_name` (see `sell_plan`), from my current sell orders, the
    /// live orders of the item, the names of the items in stock and the stock row of the item.
    pub fn compare_live_orders_when_selling(
        &self,
        item_name: &String,
        current_orders: &Vec<MyOrder>,
        live: &Vec<LiveOrder>,
        inventory_names: &Vec<String>,
        stock: Option<StockItem>,
    ) -> (res: Vec<SellEffect>)
        requires
            sell_defined(*self, item_name@, live@, inventory_names@, stock),
        ensures
            res@.map_values(|e: SellEffect| e@) == sell_plan(
                *self,
                item_name@,
                current_orders@,
                live@,
                inventory_names@,
                stock,
            ),
    {
        let info = self.get_my_order_information(item_name, current_orders);
        let mut in_stock = false;
        let mut i: usize = 0;
        while i < inventory_names.len()
            invariant
                i <= inventory_names@.len(),
                in_stock <==> exists|j: int|
                    0 <= j < i && #[trigger] inventory_names@[j]@ == item_name@,
            decreases inventory_names@.len() - i,
        {
            if inventory_names[i] == *item_name {
                in_stock = true;
            }
            i = i + 1;
        }
        let mut effects: Vec<SellEffect> = Vec::new();
        if !in_stock && !info.active {
            proof {
                assert(effects@.map_values(|e: SellEffect| e@) =~= Seq::<SellStep>::empty());
            }
            return effects;
        }
        if !in_stock {
            effects.push(SellEffect::SetStock { price: None, status: StockStatus::ToLowProfit });
            effects.push(SellEffect::DeleteOrder { order_id: order_id_of(&info.id) });
            proof {
                assert(effects@.map_values(|e: SellEffect| e@) =~= sell_plan(
                    *self,
                    item_name@,
                    current_orders@,
                    live@,
                    inventory_names@,
                    stock,
                ));
            }
            return effects;
        }
        let st = match stock {
            Some(x) => x,
            None => {
                return effects;
            },
        };
        let s = self.restructure_live_orders(live).summary;
        let quantity = st.owned as i64;
        if s.sellers == 0 {
            let p = raise_to_minimum(st.bought_price + 30, st.minimum_price);
            effects.push(
                SellEffect::SetStock {
                    price: Some(#[verifier::truncate] (p as i32)),
                    status: StockStatus::NoBuyers,
                },
            );
            if info.active {
                effects.push(
                    SellEffect::UpdateOrder {
                        order_id: order_id_of(&info.id),
                        price: #[verifier::truncate] (p as i32),
                        quantity: #[verifier::truncate] (quantity as i32),
                        visible: info.visible,
                    },
                );
            } else {
                effects.push(SellEffect::CreateOrder { platinum: p, quantity });
            }
            proof {
                assert(effects@.map_values(|e: SellEffect| e@) =~= sell_plan(
                    *self,
                    item_name@,
                    current_orders@,
                    live@,
                    inventory_names@,
                    stock,
                ));
            }
            return effects;
        }
        let lowest = s.lowest_sell;
        let profit = lowest - st.bought_price;
        if profit <= -10 {
            if !matches!(st.status, StockStatus::ToLowProfit) {
                effects.push(
                    SellEffect::SetStock { price: Some(-1), status: StockStatus::ToLowProfit },
                );
            }
            if info.active {
                effects.push(SellEffect::DeleteOrder { order_id: order_id_of(&info.id) });
            }
            proof {
                assert(effects@.map_values(|e: SellEffect| e@) =~= sell_plan(
                    *self,
                    item_name@,
                    current_orders@,
                    live@,
                    inventory_names@,
                    stock,
                ));
            }
            return effects;
        }
        let floor = st.bought_price + 10;
        let p1 = if lowest + 10 > lowest && s.sellers >= 2 {
            if floor >= lowest {
                floor
            } else {
                lowest
            }
        } else {
            if floor >= lowest {
                floor
            } else {
                lowest
            }
        };
        let p = raise_to_minimum(p1, st.minimum_price);
        if info.active {
            if info.price != p {
                effects.push(
                    SellEffect::UpdateOrder {
                        order_id: order_id_of(&info.id),
                        price: #[verifier::truncate] (p as i32),
                        quantity: #[verifier::truncate] (quantity as i32),
                        visible: info.visible,
                    },
                );
                effects.push(
                    SellEffect::SetStock {
                        price: Some(#[verifier::truncate] (p as i32)),
                        status: StockStatus::Live,
                    },
                );
            }
        } else {
            effects.push(SellEffect::CreateOrder { platinum: p, quantity });
            effects.push(
                SellEffect::SetStock {
                    price: Some(#[verifier::truncate] (p as i32)),
                    status: StockStatus::Live,
                },
            );
        }
        proof {
            assert(effects@.map_values(|e: SellEffect| e@) =~= sell_plan(
                *self,
                item_name@,
                current_orders@,
                live@,
                inventory_names@,
                stock,
            ));
        }
        effects
    }
}

/// Law: an item that is not in stock never gets a sell order posted or repriced.
pub proof fn lemma_unstocked_not_listed(
    m: ItemModule,
    item: Seq<char>,
    current: Seq<MyOrder>,
    live: Seq<LiveOrder>,
    inventory: Seq<String>,
    stock: Option<StockItem>,
)
    requires
        !has_name(inventory, item),
    ensures
        forall|i: int|
            0 <= i < sell_plan(m, item, current, live, inventory, stock).len() ==> !(sell_plan(
                m,
                item,
                current,
                live,
                inventory,
                stock,
            )[i] is CreateOrder || sell_plan(m, item, current, live, inventory, stock)[i] is UpdateOrder),
{
}

/// Law: a sell order is never posted or repriced below the minimum price of the stock, nor
/// below ten over what a piece cost. (The repriced amount is an `i32`: the law holds where the
/// prices involved fit one.)
pub proof fn lemma_sell_price_floor(
    m: ItemModule,
    item: Seq<char>,
    current: Seq<MyOrder>,
    live: Seq<LiveOrder>,
    inventory: Seq<String>,
    st: StockItem,
)
    requires
        sell_defined(m, item, live, inventory, Some(st)),
        i32::MIN <= st.bought_price + 10,
        st.bought_price + 30 <= i32::MAX,
        forall|i: int| 0 <= i < live.len() ==> i32::MIN <= #[trigger] live[i].platinum <= i32::MAX,
    ensures
        forall|i: int|
            0 <= i < sell_plan(m, item, current, live, inventory, Some(st)).len() ==> {
                let step = #[trigger] sell_plan(m, item, current, live, inventory, Some(st))[i];
                &&& step matches SellStep::CreateOrder { platinum, .. } ==> platinum >= st.bought_price
                    + 10 && (st.minimum_price matches Some(min) ==> platinum >= min)
                &&& step matches SellStep::UpdateOrder { price, .. } ==> price >= st.bought_price
                    + 10 && (st.minimum_price matches Some(min) ==> price >= min)
            },
{
    let me = m.ingame_name@;
    crate::orders::lemma_lowest_sell_is_min(live, me);
    if let Some(l) = crate::orders::lowest_of(live, me, crate::model::OrderType::Sell) {
        let j = choose|i: int|
            0 <= i < live.len() && crate::orders::is_other(live[i], me, crate::model::OrderType::Sell)
                && live[i].platinum == l;
        assert(i32::MIN <= live[j].platinum <= i32::MAX);
    }
}

/// Law: the sell decision only ever reprices or deletes my own order for the item: every
/// order it names is my first order for that item.
pub proof fn lemma_sell_touches_own_order(
    m: ItemModule,
    item: Seq<char>,
    current: Seq<MyOrder>,
    live: Seq<LiveOrder>,
    inventory: Seq<String>,
    stock: Option<StockItem>,
)
    ensures
        forall|i: int|
            0 <= i < sell_plan(m, item, current, live, inventory, stock).len() ==> {
                let step = #[trigger] sell_plan(m, item, current, live, inventory, stock)[i];
                &&& step matches SellStep::UpdateOrder { order_id, .. } ==> has_order_for(
                    current,
                    item,
                ) && order_id == current[first_order_for(current, item)].id@
                &&& step matches SellStep::DeleteOrder { order_id } ==> has_order_for(current, item)
                    && order_id == current[first_order_for(current, item)].id@
            },
{
}

/// The price a listed item in stock is asked at: the cheapest ask of the others, but at least
/// ten over what a piece cost, and at least the minimum price when there is one.
pub open spec fn sell_target(bought_price: i64, cheapest_ask: i64, minimum: Option<i32>) -> int {
    let p = if bought_price + 10 >= cheapest_ask {
        bought_price + 10
    } else {
        cheapest_ask as int
    };
    match minimum {
        Some(mn) => if p < mn {
            mn as int
        } else {
            p
        },
        None => p,
    }
}

/// Law: when I hold the item, others sell it, their cheapest ask is less than ten under what a
/// piece cost me, and I have a sell order for it, my order is repriced to the target price
/// exactly when it is not already there, whether the target is above or below its price.
pub proof fn lemma_sell_order_follows_target(
    m: ItemModule,
    item: Seq<char>,
    current: Seq<MyOrder>,
    live: Seq<LiveOrder>,
    inventory: Seq<String>,
    st: StockItem,
)
    requires
        has_name(inventory, item),
        live_summary(live, m.ingame_name@).sellers > 0,
        live_summary(live, m.ingame_name@).lowest_sell - st.bought_price > -10,
        has_order_for(current, item),
        i32::MIN <= sell_target(
            st.bought_price,
            live_summary(live, m.ingame_name@).lowest_sell,
            st.minimum_price,
        ) <= i32::MAX,
    ensures
        current[first_order_for(current, item)].platinum != sell_target(
            st.bought_price,
            live_summary(live, m.ingame_name@).lowest_sell,
            st.minimum_price,
        ) ==> exists|i: int|
            0 <= i < sell_plan(m, item, current, live, inventory, Some(st)).len() && (#[trigger] sell_plan(
                m,
                item,
                current,
                live,
                inventory,
                Some(st),
            )[i] matches SellStep::UpdateOrder { price, .. } && price == sell_target(
                st.bought_price,
                live_summary(live, m.ingame_name@).lowest_sell,
                st.minimum_price,
            )),
        current[first_order_for(current, item)].platinum == sell_target(
            st.bought_price,
            live_summary(live, m.ingame_name@).lowest_sell,
            st.minimum_price,
        ) ==> forall|i: int|
            0 <= i < sell_plan(m, item, current, live, inventory, Some(st)).len() ==> !(
            #[trigger] sell_plan(m, item, current, live, inventory, Some(st))[i] is UpdateOrder),
{
    let plan = sell_plan(m, item, current, live, inventory, Some(st));
    let t = sell_target(st.bought_price, live_summary(live, m.ingame_name@).lowest_sell, st.minimum_price);
    if current[first_order_for(current, item)].platinum != t {
        assert(plan[0] matches SellStep::UpdateOrder { price, .. } && price == t);
    }
}

/// Law: when I hold the item and nobody else sells it, the stock is marked as having no
/// competing sellers at 30 over what a piece cost (at least the minimum), and my order for it
/// goes to that price with all pieces, or a new one is placed there.
pub proof fn lemma_sell_alone_at_thirty_over(
    m: ItemModule,
    item: Seq<char>,
    current: Seq<MyOrder>,
    live: Seq<LiveOrder>,
    inventory: Seq<String>,
    st: StockItem,
)
    requires
        has_name(inventory, item),
        live_summary(live, m.ingame_name@).sellers == 0,
        i32::MIN <= st.bought_price + 30 <= i32::MAX,
    ensures
        ({
            let q0 = st.bought_price + 30;
            let q = match st.minimum_price {
                Some(mn) => if q0 < mn {
                    mn as int
                } else {
                    q0
                },
                None => q0,
            };
            let plan = sell_plan(m, item, current, live, inventory, Some(st));
            &&& plan.len() == 2
            &&& plan[0] matches SellStep::SetStock { price, status } && status == StockStatus::NoBuyers
                && price == Some(q as i32)
            &&& has_order_for(current, item) ==> (plan[1] matches SellStep::UpdateOrder {
                price,
                quantity,
                ..
            } && price == q as i32 && quantity == st.owned)
            &&& !has_order_for(current, item) ==> (plan[1] matches SellStep::CreateOrder {
                platinum,
                quantity,
            } && platinum == q && quantity == st.owned)
        }),
{
}

/// Law: when I hold the item and the cheapest ask of the others is 10 or more under what a
/// piece cost me, no sell order is placed or repriced: my order for it is deleted, and the
/// stock is marked too-low-profit unless it already is.
pub proof fn lemma_sell_too_low_profit_withdraws(
    m: ItemModule,
    item: Seq<char>,
    current: Seq<MyOrder>,
    live: Seq<LiveOrder>,
    inventory: Seq<String>,
    st: StockItem,
)
    requires
        has_name(inventory, item),
        live_summary(live, m.ingame_name@).sellers > 0,
        live_summary(live, m.ingame_name@).lowest_sell - st.bought_price <= -10,
    ensures
        forall|i: int|
            0 <= i < sell_plan(m, item, current, live, inventory, Some(st)).len() ==> !((
            #[trigger] sell_plan(m, item, current, live, inventory, Some(st))[i] is CreateOrder)
                || (sell_plan(m, item, current, live, inventory, Some(st))[i] is UpdateOrder)),
        has_order_for(current, item) ==> sell_plan(
            m,
            item,
            current,
            live,
            inventory,
            Some(st),
        ).last() == (SellStep::DeleteOrder { order_id: current[first_order_for(current, item)].id@ }),
        st.status != StockStatus::ToLowProfit ==> sell_plan(
            m,
            item,
            current,
            live,
            inventory,
            Some(st),
        )[0] == (SellStep::SetStock { price: Some(-1i32), status: StockStatus::ToLowProfit }),
{
}

} // verus!
