//! What to do with my buy order for an item, given the live market and my other buy orders.
use vstd::prelude::*;
use crate::knapsack::{
    Candidate,
    chosen,
    picks,
    knapsack,
    knapsack_input_ok,
    knapsack_fits,
    knapsack_fits_within,
    total_weight,
    lemma_chosen_sums,
    lemma_picks_sums,
    lemma_picks_from_mask,
    sum_weights,
    lemma_knapsack_choice_within_budget,
};
use crate::model::{
    AveragePrice,
    InventoryItem,
    ItemModule,
    LiveOrder,
    LiveSummary,
    MyOrder,
    OrderInfo,
};
use crate::orders::{
    orders_named,
    positions_of,
    has_name,
    order_info,
    live_summary,
    spread_fits,
    has_order_for,
    first_order_for,
};

verus! {

/// The average lies above the whole number `k`.
pub open spec fn above(a: AveragePrice, k: int) -> bool {
    a.is_number && (a.whole > k || (a.whole == k && a.fractional))
}

/// The difference `a - p`, truncated toward zero (as a float-to-integer cast does; what is no
/// number casts to 0).
pub open spec fn trunc_diff(a: AveragePrice, p: int) -> int {
    if !a.is_number {
        0
    } else if a.whole - p >= 0 || !a.fractional {
        a.whole - p
    } else {
        a.whole - p + 1
    }
}

/// `x` clamped into the range of `i64` (as a float-to-integer cast does).
pub open spec fn saturate(x: int) -> i64 {
    if x > i64::MAX {
        i64::MAX
    } else if x < i64::MIN {
        i64::MIN
    } else {
        x as i64
    }
}

/// Integer division by three, rounding toward zero.
pub open spec fn div3(x: int) -> int {
    if x >= 0 {
        x / 3
    } else {
        -((-x) / 3)
    }
}

/// How many of `item` the inventory holds: the first row for it, if any.
pub open spec fn owned_of(inv: Seq<InventoryItem>, item: Seq<char>) -> Option<i32>
    decreases inv.len(),
{
    if inv.len() == 0 {
        None
    } else {
        match owned_of(inv.drop_last(), item) {
            Some(x) => Some(x),
            None => if inv.last().item_url@ == item {
                Some(inv.last().owned)
            } else {
                None
            },
        }
    }
}

/// The buy orders that compete for the budget: my current ones, tagged by their index,
/// and the new order for the item, tagged by the number of current orders.
pub open spec fn buy_candidates(current: Seq<MyOrder>, post: i64, profit: i64) -> Seq<
    Candidate<usize>,
> {
    Seq::new(
        current.len(),
        |k: int| (current[k].platinum, current[k].potential_profit, k as usize),
    ).push((post, profit, current.len() as usize))
}

/// The item that a candidate tag stands for.
pub open spec fn tag_name(current: Seq<MyOrder>, item: Seq<char>, t: usize) -> Seq<char> {
    if t < current.len() {
        current[t as int].url_name@
    } else {
        item
    }
}

/// The order id that a candidate tag stands for (the new order has none yet).
pub open spec fn tag_id(current: Seq<MyOrder>, t: usize) -> Seq<char> {
    if t < current.len() {
        current[t as int].id@
    } else {
        Seq::empty()
    }
}

/// My buy orders for the item, joined with its new price when a reprice changed it:
/// the positions of those orders among my current ones, the new price, and the new price
/// less the old one.
pub struct Repriced {
    pub rows: Vec<usize>,
    pub platinum: i64,
    pub potential_profit: i64,
}

/// What to do with the buy side of an item.
pub enum BuyAction {
    /// Leave everything as it is.
    Keep,
    /// Reprice my existing order (quantity 1, visibility kept); `repriced` is set when the
    /// price matched the best bid and changed.
    Update { order_id: String, price: i32, visible: bool, repriced: Option<Repriced> },
    /// Delete the listed orders of mine, then post a visible buy order for the item;
    /// `budgeted` tells an order that won the budget from a lone bid.
    Create { platinum: i64, delete_first: Vec<String>, budgeted: bool },
    /// Delete my existing order.
    Delete { order_id: String },
}

/// `BuyAction` with the strings taken by their contents.
pub enum BuyPlan {
    Keep,
    Update {
        order_id: Seq<char>,
        price: i32,
        visible: bool,
        repriced: Option<(Seq<usize>, i64, i64)>,
    },
    Create { platinum: i64, delete_first: Seq<Seq<char>>, budgeted: bool },
    Delete { order_id: Seq<char> },
}

impl View for BuyAction {
    type V = BuyPlan;

    open spec fn view(&self) -> BuyPlan {
        match self {
            BuyAction::Keep => BuyPlan::Keep,
            BuyAction::Update { order_id, price, visible, repriced } => BuyPlan::Update {
                order_id: order_id@,
                price: *price,
                visible: *visible,
                repriced: match repriced {
                    Some(r) => Some((r.rows@, r.platinum, r.potential_profit)),
                    None => None,
                },
            },
            BuyAction::Create { platinum, delete_first, budgeted } => BuyPlan::Create {
                platinum: *platinum,
                delete_first: delete_first@.map_values(|s: String| s@),
                budgeted: *budgeted,
            },
            BuyAction::Delete { order_id } => BuyPlan::Delete { order_id: order_id@ },
        }
    }
}

pub open spec fn unwrap_id(id: Option<Seq<char>>) -> Seq<char> {
    match id {
        Some(x) => x,
        None => Seq::empty(),
    }
}

/// The price to bid when nobody else bids: well below the cheapest ask.
pub open spec fn lone_bid(range: int) -> int {
    let a = range - 40;
    let b = div3(range) - 1;
    if a >= b {
        a
    } else {
        b
    }
}

/// The buy orders that win the budget, and the ones that lose it.
pub open spec fn budget_choice(
    m: ItemModule,
    current: Seq<MyOrder>,
    post: i64,
    avg: AveragePrice,
) -> (Seq<Candidate<usize>>, Seq<Candidate<usize>>) {
    let cands = buy_candidates(current, post, saturate(trunc_diff(avg, post + 1)));
    let mask = chosen(cands, cands.len(), m.settings.max_total_price_cap as int);
    (picks(cands, mask, true), picks(cands, mask, false))
}

/// The buy decision for `item`.
///
/// A blacklisted item, or one that nobody sells, is left alone. When nobody bids and the
/// average is above 25, my order goes to the lone bid (at least 1), unless that is above the
/// price cap. Otherwise I match the best bid, if it is within the cap: holding more than one
/// of the item while the margin is under 25 per piece deletes my order; a margin of 30 with a
/// spread of 15, or a spread of 21, keeps or places an order (a new one only when it wins the
/// budget against my other buy orders, whose losers are deleted); anything else deletes it.
pub open spec fn buy_plan(
    m: ItemModule,
    item: Seq<char>,
    current: Seq<MyOrder>,
    live: Seq<LiveOrder>,
    avg: AveragePrice,
    inv: Seq<InventoryItem>,
) -> BuyPlan {
    let (id, visible, price, active) = order_info(current, item);
    let s = live_summary(live, m.ingame_name@);
    let cap = m.settings.avg_price_cap;
    if has_name(m.settings.blacklist@, item) {
        BuyPlan::Keep
    } else if s.sellers == 0 {
        BuyPlan::Keep
    } else if s.buyers == 0 && above(avg, 25) {
        let p0 = lone_bid(s.range as int);
        if p0 > cap {
            BuyPlan::Keep
        } else {
            let p = if p0 < 1 {
                1
            } else {
                p0
            };
            if active {
                BuyPlan::Update { order_id: unwrap_id(id), price: p as i32, visible, repriced: None }
            } else {
                BuyPlan::Create { platinum: p as i64, delete_first: Seq::empty(), budgeted: false }
            }
        }
    } else if s.buyers == 0 {
        BuyPlan::Keep
    } else {
        let post = s.highest_buy;
        let metric = saturate(trunc_diff(avg, post as int));
        let owned = match owned_of(inv, item) {
            Some(x) => x,
            None => 0,
        };
        if post > cap {
            BuyPlan::Keep
        } else if owned > 1 && metric < 25 * owned {
            if active {
                BuyPlan::Delete { order_id: unwrap_id(id) }
            } else {
                BuyPlan::Keep
            }
        } else if (metric >= 30 && s.range >= 15) || s.range >= 21 {
            if active {
                BuyPlan::Update {
                    order_id: unwrap_id(id),
                    price: post as i32,
                    visible,
                    repriced: if price != post {
                        Some((orders_named(current, item), post, (post - price) as i64))
                    } else {
                        None
                    },
                }
            } else {
                let (sel, unsel) = budget_choice(m, current, post, avg);
                if exists|i: int| 0 <= i < sel.len() && tag_name(current, item, sel[i].2) == item {
                    BuyPlan::Create {
                        platinum: post,
                        delete_first: unsel.map_values(|c: Candidate<usize>| tag_id(current, c.2)),
                        budgeted: true,
                    }
                } else {
                    BuyPlan::Keep
                }
            }
        } else if active {
            BuyPlan::Delete { order_id: unwrap_id(id) }
        } else {
            BuyPlan::Keep
        }
    }
}

/// The inputs on which the decision is defined: the spread, the lone bid and the budget
/// choice stay within `i64` and the budget table can be built, wherever they are computed.
pub open spec fn buy_defined(
    m: ItemModule,
    item: Seq<char>,
    current: Seq<MyOrder>,
    live: Seq<LiveOrder>,
    avg: AveragePrice,
    inv: Seq<InventoryItem>,
) -> bool {
    let s = live_summary(live, m.ingame_name@);
    let (id, visible, price, active) = order_info(current, item);
    let post = s.highest_buy;
    let metric = saturate(trunc_diff(avg, post as int));
    let owned = match owned_of(inv, item) {
        Some(x) => x,
        None => 0,
    };
    let cands = buy_candidates(current, post, saturate(trunc_diff(avg, post + 1)));
    let cap = m.settings.max_total_price_cap;
    !has_name(m.settings.blacklist@, item) ==> {
        &&& spread_fits(live, m.ingame_name@)
        &&& (s.sellers != 0 && s.buyers == 0 && above(avg, 25)) ==> s.range >= i64::MIN + 40
        &&& (s.sellers != 0 && s.buyers != 0 && post <= m.settings.avg_price_cap && !(owned > 1
            && metric < 25 * owned) && ((metric >= 30 && s.range >= 15) || s.range >= 21)
            && !active) ==> knapsack_input_ok(cands, cap) && knapsack_fits(cands, cap)
        &&& (s.sellers != 0 && s.buyers != 0 && post <= m.settings.avg_price_cap && !(owned > 1
            && metric < 25 * owned) && ((metric >= 30 && s.range >= 15) || s.range >= 21)
            && active) ==> i64::MIN <= post - price <= i64::MAX
    }
}

fn avg_above(a: AveragePrice, k: i64) -> (res: bool)
    ensures
        res == above(a, k as int),
{
    a.is_number && (a.whole > k || (a.whole == k && a.fractional))
}

fn avg_trunc_diff(a: AveragePrice, p: i64) -> (res: i64)
    ensures
        res == saturate(trunc_diff(a, p as int)),
{
    let d: i128 = a.whole as i128 - p as i128;
    let t: i128 = if !a.is_number {
        0
    } else if d >= 0 || !a.fractional {
        d
    } else {
        d + 1
    };
    if t > i64::MAX as i128 {
        i64::MAX
    } else if t < i64::MIN as i128 {
        i64::MIN
    } else {
        t as i64
    }
}

fn avg_trunc_diff_plus_one(a: AveragePrice, p: i64) -> (res: i64)
    ensures
        res == saturate(trunc_diff(a, p + 1)),
{
    let d: i128 = a.whole as i128 - p as i128 - 1;
    let t: i128 = if !a.is_number {
        0
    } else if d >= 0 || !a.fractional {
        d
    } else {
        d + 1
    };
    if t > i64::MAX as i128 {
        i64::MAX
    } else if t < i64::MIN as i128 {
        i64::MIN
    } else {
        t as i64
    }
}

fn owned_in(inv: &Vec<InventoryItem>, item: &String) -> (res: i32)
    ensures
        res == match owned_of(inv@, item@) {
            Some(x) => x,
            None => 0,
        },
{
    let ghost g = inv@;
    let mut i: usize = 0;
    while i < inv.len()
        invariant
            g == inv@,
            i <= g.len(),
            owned_of(g.subrange(0, i as int), item@) is None,
        decreases g.len() - i,
    {
        proof {
            let post = g.subrange(0, i + 1);
            assert(post.drop_last() == g.subrange(0, i as int));
            assert(post.last() == g[i as int]);
        }
        if inv[i].item_url == *item {
            proof {
                lemma_owned_extend(g, item@, i as int + 1);
            }
            return inv[i].owned;
        }
        i = i + 1;
    }
    proof {
        assert(g.subrange(0, g.len() as int) == g);
    }
    0
}

/// Once a prefix holds a row for the item, the whole inventory answers the same.
proof fn lemma_owned_extend(g: Seq<InventoryItem>, item: Seq<char>, k: int)
    requires
        0 <= k <= g.len(),
        owned_of(g.subrange(0, k), item) is Some,
    ensures
        owned_of(g, item) == owned_of(g.subrange(0, k), item),
    decreases g.len() - k,
{
    if k < g.len() {
        let d = g.drop_last();
        assert(d.subrange(0, k) == g.subrange(0, k));
        lemma_owned_extend(d, item, k);
    } else {
        assert(g.subrange(0, k) == g);
    }
}

fn id_or_empty(id: Option<String>) -> (res: String)
    ensures
        res@ == unwrap_id(
            match id {
                Some(x) => Some(x@),
                None => None,
            },
        ),
{
    match id {
        Some(x) => x,
        None => String::new(),
    }
}

impl ItemModule {
    /// The buy decision for `item_name` (see `buy_plan`), from my current buy orders, the
    /// live orders of the item, its closed average price and the inventory.
    pub fn compare_live_orders_when_buying(
        &self,
        item_name: &String,
        current_orders: &Vec<MyOrder>,
        live: &Vec<LiveOrder>,
        closed_avg: AveragePrice,
        inventory: &Vec<InventoryItem>,
    ) -> (res: BuyAction)
        requires
            buy_defined(*self, item_name@, current_orders@, live@, closed_avg, inventory@),
        ensures
            res@ == buy_plan(*self, item_name@, current_orders@, live@, closed_avg, inventory@),
    {
        if self.is_item_blacklisted(item_name) {
            return BuyAction::Keep;
        }
        let info = self.get_my_order_information(item_name, current_orders);
        let s = self.restructure_live_orders(live).summary;
        if s.sellers == 0 {
            return BuyAction::Keep;
        }
        let cap = self.settings.avg_price_cap;
        if s.buyers == 0 && avg_above(closed_avg, 25) {
            let a = s.range - 40;
            let third = if s.range >= 0 {
                s.range / 3
            } else {
                -((-s.range) / 3)
            };
            let b = third - 1;
            let p0 = if a >= b {
                a
            } else {
                b
            };
            if p0 > cap {
                return BuyAction::Keep;
            }
            let p = if p0 < 1 {
                1
            } else {
                p0
            };
            if info.active {
                return BuyAction::Update {
                    order_id: id_or_empty(info.id),
                    price: #[verifier::truncate] (p as i32),
                    visible: info.visible,
                    repriced: None,
                };
            } else {
                let none: Vec<String> = Vec::new();
                proof {
                    assert(none@.map_values(|s: String| s@) =~= Seq::<Seq<char>>::empty());
                }
                return BuyAction::Create { platinum: p, delete_first: none, budgeted: false };
            }
        } else if s.buyers == 0 {
            return BuyAction::Keep;
        }
        let post = s.highest_buy;
        let metric = avg_trunc_diff(closed_avg, post);
        if post > cap {
            return BuyAction::Keep;
        }
        let owned = owned_in(inventory, item_name);
        if owned > 1 && metric < 25 * (owned as i64) {
            if info.active {
                return BuyAction::Delete { order_id: id_or_empty(info.id) };
            }
            return BuyAction::Keep;
        }
        if (metric >= 30 && s.range >= 15) || s.range >= 21 {
            if info.active {
                let repriced = if info.price != post {
                    Some(
                        Repriced {
                            rows: positions_of(current_orders, item_name),
                            platinum: post,
                            potential_profit: post - info.price,
                        },
                    )
                } else {
                    None
                };
                return BuyAction::Update {
                    order_id: id_or_empty(info.id),
                    price: #[verifier::truncate] (post as i32),
                    visible: info.visible,
                    repriced,
                };
            }
            let profit = avg_trunc_diff_plus_one(closed_avg, post);
            let ghost cur = current_orders@;
            let n = current_orders.len();
            let mut cands: Vec<Candidate<usize>> = Vec::new();
            let mut k: usize = 0;
            while k < n
                invariant
                    cur == current_orders@,
                    n == cur.len(),
                    k <= n,
                    cands@ =~= Seq::new(
                        k as nat,
                        |j: int| (cur[j].platinum, cur[j].potential_profit, j as usize),
                    ),
                decreases n - k,
            {
                cands.push((current_orders[k].platinum, current_orders[k].potential_profit, k));
                k = k + 1;
            }
            cands.push((post, profit, n));
            proof {
                assert(cands@ =~= buy_candidates(cur, post, profit));
            }
            let (_best, selected, unselected) = knapsack(cands, self.settings.max_total_price_cap);
            let ghost sel = selected@;
            let ghost unsel = unselected@;
            let mut found = false;
            let mut i: usize = 0;
            while i < selected.len()
                invariant
                    cur == current_orders@,
                    n == cur.len(),
                    sel == selected@,
                    i <= sel.len(),
                    found <==> exists|j: int|
                        0 <= j < i && tag_name(cur, item_name@, sel[j].2) == item_name@,
                decreases sel.len() - i,
            {
                let t = selected[i].2;
                let hit = if t < n {
                    current_orders[t].url_name == *item_name
                } else {
                    true
                };
                if hit {
                    found = true;
                }
                proof {
                    if hit {
                        assert(tag_name(cur, item_name@, sel[i as int].2) == item_name@);
                    }
                }
                i = i + 1;
            }
            if !found {
                return BuyAction::Keep;
            }
            let mut ids: Vec<String> = Vec::new();
            let mut j: usize = 0;
            while j < unselected.len()
                invariant
                    cur == current_orders@,
                    n == cur.len(),
                    unsel == unselected@,
                    j <= unsel.len(),
                    ids@.map_values(|s: String| s@) =~= unsel.subrange(0, j as int).map_values(
                        |c: Candidate<usize>| tag_id(cur, c.2),
                    ),
                decreases unsel.len() - j,
            {
                let t = unselected[j].2;
                let id = if t < n {
                    current_orders[t].id.clone()
                } else {
                    String::new()
                };
                let ghost old_ids = ids@;
                proof {
                    assert(id@ == tag_id(cur, unsel[j as int].2));
                }
                ids.push(id);
                proof {
                    assert(ids@ == old_ids.push(id));
                    assert(ids@.map_values(|s: String| s@) =~= old_ids.map_values(|s: String| s@).push(id@));
                    assert(unsel.subrange(0, j + 1) =~= unsel.subrange(0, j as int).push(unsel[j as int]));
                }
                j = j + 1;
            }
            proof {
                assert(unsel.subrange(0, unsel.len() as int) =~= unsel);
                let cands_s = buy_candidates(cur, post, profit);
                let mask = chosen(cands_s, cands_s.len(), self.settings.max_total_price_cap as int);
                assert(sel == picks(cands_s, mask, true));
                assert(unsel == picks(cands_s, mask, false));
                assert(ids@.map_values(|s: String| s@) == unsel.map_values(|c: Candidate<usize>| tag_id(cur, c.2)));
                let bc = budget_choice(*self, cur, post, closed_avg);
                assert(bc.0 == sel);
                assert(exists|jj: int| 0 <= jj < bc.0.len() && tag_name(cur, item_name@, bc.0[jj].2) == item_name@);
                assert(buy_plan(*self, item_name@, cur, live@, closed_avg, inventory@) == BuyPlan::Create { platinum: post, delete_first: unsel.map_values(|c: Candidate<usize>| tag_id(cur, c.2)), budgeted: true });
            }
            return BuyAction::Create { platinum: post, delete_first: ids, budgeted: true };
        } else if info.active {
            return BuyAction::Delete { order_id: id_or_empty(info.id) };
        }
        BuyAction::Keep
    }
}

impl ItemModule {
    /// Whether the buy decision for `item_name` is defined on these inputs (see `buy_defined`):
    /// the spread, the lone bid, the repriced amount and the budget table stay within `i64`,
    /// and the budget table can be built, wherever the decision computes them.
    pub fn buy_decision_defined(
        &self,
        item_name: &String,
        current_orders: &Vec<MyOrder>,
        live: &Vec<LiveOrder>,
        closed_avg: AveragePrice,
        inventory: &Vec<InventoryItem>,
    ) -> (res: bool)
        ensures
            res == buy_defined(*self, item_name@, current_orders@, live@, closed_avg, inventory@),
    {
        if self.is_item_blacklisted(item_name) {
            return true;
        }
        if !self.live_spread_fits(live) {
            return false;
        }
        let s = self.summarize_live_orders(live);
        let info = self.get_my_order_information(item_name, current_orders);
        if s.sellers != 0 && s.buyers == 0 && avg_above(closed_avg, 25) && s.range < i64::MIN + 40 {
            return false;
        }
        let post = s.highest_buy;
        let metric = avg_trunc_diff(closed_avg, post);
        let owned = owned_in(inventory, item_name);
        let branch = s.sellers != 0 && s.buyers != 0 && post <= self.settings.avg_price_cap && !(
        owned > 1 && metric < 25 * (owned as i64)) && ((metric >= 30 && s.range >= 15) || s.range
            >= 21);
        if branch && info.active {
            let d: i128 = post as i128 - info.price as i128;
            return i64::MIN as i128 <= d && d <= i64::MAX as i128;
        }
        if branch {
            let profit = avg_trunc_diff_plus_one(closed_avg, post);
            let ghost cur = current_orders@;
            let n = current_orders.len();
            let cap = self.settings.max_total_price_cap;
            let mut cands: Vec<Candidate<usize>> = Vec::new();
            let mut weights_ok = true;
            let mut k: usize = 0;
            while k < n
                invariant
                    cur == current_orders@,
                    n == cur.len(),
                    k <= n,
                    cands@ =~= Seq::new(
                        k as nat,
                        |j: int| (cur[j].platinum, cur[j].potential_profit, j as usize),
                    ),
                    weights_ok <==> forall|j: int| 0 <= j < k ==> (#[trigger] cur[j]).platinum >= 0,
                decreases n - k,
            {
                if current_orders[k].platinum < 0 {
                    weights_ok = false;
                }
                cands.push((current_orders[k].platinum, current_orders[k].potential_profit, k));
                k = k + 1;
            }
            cands.push((post, profit, n));
            let ghost cs = buy_candidates(cur, post, profit);
            proof {
                assert(cands@ =~= cs);
            }
            let input_ok = 0 <= cap && (cap as u128) + 1 <= usize::MAX as u128 && (cap < 1 || (
            weights_ok && post >= 0));
            if !input_ok {
                proof {
                    if 0 <= cap && (cap as u128) + 1 <= usize::MAX as u128 {
                        if post < 0 {
                            assert(cs[n as int].0 < 0);
                        } else {
                            let j = choose|j: int| 0 <= j < n && (#[trigger] cur[j]).platinum < 0;
                            assert(cs[j].0 < 0);
                        }
                    }
                }
                return false;
            }
            return knapsack_fits_within(&cands, cap);
        }
        true
    }
}

/// Law: a blacklisted item is never bought, and its buy order is left alone.
pub proof fn lemma_blacklisted_item_kept(
    m: ItemModule,
    item: Seq<char>,
    current: Seq<MyOrder>,
    live: Seq<LiveOrder>,
    avg: AveragePrice,
    inv: Seq<InventoryItem>,
)
    requires
        has_name(m.settings.blacklist@, item),
    ensures
        buy_plan(m, item, current, live, avg, inv) == BuyPlan::Keep,
{
}

/// Law: nothing is bought of an item that nobody else sells.
pub proof fn lemma_unsold_item_kept(
    m: ItemModule,
    item: Seq<char>,
    current: Seq<MyOrder>,
    live: Seq<LiveOrder>,
    avg: AveragePrice,
    inv: Seq<InventoryItem>,
)
    requires
        live_summary(live, m.ingame_name@).sellers == 0,
    ensures
        buy_plan(m, item, current, live, avg, inv) == BuyPlan::Keep,
{
}

/// Law: a buy order is never posted or repriced above the price cap. (The lone bid is raised
/// to 1, so the cap must be at least 1; the repriced amount is an `i32`, so the cap and the
/// bids must fit one.)
pub proof fn lemma_bid_within_cap(
    m: ItemModule,
    item: Seq<char>,
    current: Seq<MyOrder>,
    live: Seq<LiveOrder>,
    avg: AveragePrice,
    inv: Seq<InventoryItem>,
)
    requires
        1 <= m.settings.avg_price_cap <= i32::MAX,
        forall|i: int| 0 <= i < live.len() ==> live[i].platinum >= 0,
    ensures
        buy_plan(m, item, current, live, avg, inv) matches BuyPlan::Create { platinum, .. } ==> 0
            <= platinum <= m.settings.avg_price_cap,
        buy_plan(m, item, current, live, avg, inv) matches BuyPlan::Update { price, .. } ==> 0
            <= price <= m.settings.avg_price_cap,
{
    let s = live_summary(live, m.ingame_name@);
    crate::orders::lemma_highest_buy_is_max(live, m.ingame_name@);
    if let Some(h) = crate::orders::highest_of(live, m.ingame_name@, crate::model::OrderType::Buy) {
        let j = choose|i: int|
            0 <= i < live.len() && crate::orders::is_other(
                live[i],
                m.ingame_name@,
                crate::model::OrderType::Buy,
            ) && live[i].platinum == h;
        assert(h >= 0);
    }
    assert(s.highest_buy >= 0);
}

/// Law: when a new buy order wins the budget, the orders that stay (the new one and those of
/// my current ones that are not deleted) cost together no more than the total price cap.
pub proof fn lemma_budget_respected(
    m: ItemModule,
    current: Seq<MyOrder>,
    post: i64,
    avg: AveragePrice,
)
    requires
        m.settings.max_total_price_cap >= 0,
    ensures
        sum_weights(budget_choice(m, current, post, avg).0) <= m.settings.max_total_price_cap,
{
    let cands = buy_candidates(current, post, saturate(trunc_diff(avg, post + 1)));
    lemma_knapsack_choice_within_budget(cands, m.settings.max_total_price_cap);
}

/// Law: the buy decision only ever reprices or deletes my own order for the item: the order
/// it names is my first order for that item.
pub proof fn lemma_buy_touches_own_order(
    m: ItemModule,
    item: Seq<char>,
    current: Seq<MyOrder>,
    live: Seq<LiveOrder>,
    avg: AveragePrice,
    inv: Seq<InventoryItem>,
)
    ensures
        buy_plan(m, item, current, live, avg, inv) matches BuyPlan::Update { order_id, .. }
            ==> has_order_for(current, item) && order_id == current[first_order_for(
            current,
            item,
        )].id@,
        buy_plan(m, item, current, live, avg, inv) matches BuyPlan::Delete { order_id }
            ==> has_order_for(current, item) && order_id == current[first_order_for(
            current,
            item,
        )].id@,
{
}

/// Total price of my orders that `keep` marks as staying.
pub open spec fn kept_cost(current: Seq<MyOrder>, keep: Seq<bool>) -> int
    decreases keep.len(),
{
    if keep.len() == 0 {
        0
    } else {
        let k = keep.len() - 1;
        kept_cost(current, keep.drop_last()) + if keep[k] {
            current[k].platinum as int
        } else {
            0
        }
    }
}

/// The ids of my orders that `keep` does not mark as staying, from the last one down.
pub open spec fn dropped_ids(current: Seq<MyOrder>, keep: Seq<bool>) -> Seq<Seq<char>>
    decreases keep.len(),
{
    if keep.len() == 0 {
        Seq::empty()
    } else {
        let k = keep.len() - 1;
        let rest = dropped_ids(current, keep.drop_last());
        if keep[k] {
            rest
        } else {
            seq![current[k].id@] + rest
        }
    }
}

proof fn lemma_candidates_of_current(current: Seq<MyOrder>, post: i64, profit: i64, keep: Seq<bool>)
    requires
        keep.len() <= current.len() < usize::MAX,
    ensures
        total_weight(buy_candidates(current, post, profit), keep) == kept_cost(current, keep),
        picks(buy_candidates(current, post, profit), keep, false).map_values(
            |c: Candidate<usize>| tag_id(current, c.2),
        ) == dropped_ids(current, keep),
    decreases keep.len(),
{
    if keep.len() > 0 {
        let d = keep.drop_last();
        lemma_candidates_of_current(current, post, profit, d);
        let k = keep.len() - 1;
        let cands = buy_candidates(current, post, profit);
        assert(cands[k] == (current[k].platinum, current[k].potential_profit, k as usize));
        let r = picks(cands, d, false);
        if keep[k] {
            assert(picks(cands, keep, false) == r);
        } else {
            assert(picks(cands, keep, false) == seq![cands[k]] + r);
            assert(tag_id(current, k as usize) == current[k].id@);
            assert((seq![cands[k]] + r).map_values(|c: Candidate<usize>| tag_id(current, c.2))
                =~= seq![tag_id(current, k as usize)] + r.map_values(
                |c: Candidate<usize>| tag_id(current, c.2),
            ));
        }
    }
}

/// Law: a spread of 21 or more between the cheapest ask and the best bid, or a margin of 30 or
/// more (the closed average at least 30 over the best bid) with a spread of 15 or more, makes
/// it a good time to match the best bid: when others buy and sell, the best bid is within the
/// price cap and I hold at most one piece, my order for the item is repriced to the best bid,
/// and without an order one is placed or nothing happens, never a deletion.
pub proof fn lemma_good_time_matches_best_bid(
    m: ItemModule,
    item: Seq<char>,
    current: Seq<MyOrder>,
    live: Seq<LiveOrder>,
    avg: AveragePrice,
    inv: Seq<InventoryItem>,
)
    requires
        !has_name(m.settings.blacklist@, item),
        live_summary(live, m.ingame_name@).sellers > 0,
        live_summary(live, m.ingame_name@).buyers > 0,
        live_summary(live, m.ingame_name@).highest_buy <= m.settings.avg_price_cap,
        i32::MIN <= live_summary(live, m.ingame_name@).highest_buy <= i32::MAX,
        live_summary(live, m.ingame_name@).lowest_sell - live_summary(live, m.ingame_name@).highest_buy
            <= i64::MAX,
        ({
            let s = live_summary(live, m.ingame_name@);
            ||| s.lowest_sell - s.highest_buy >= 21
            ||| (avg.is_number && avg.whole >= s.highest_buy + 30 && s.lowest_sell - s.highest_buy
                >= 15)
        }),
        match owned_of(inv, item) {
            Some(x) => x <= 1,
            None => true,
        },
    ensures
        has_order_for(current, item) ==> (buy_plan(m, item, current, live, avg, inv) matches BuyPlan::Update {
            order_id,
            price,
            ..
        } && price == live_summary(live, m.ingame_name@).highest_buy && order_id == current[first_order_for(
            current,
            item,
        )].id@),
        !has_order_for(current, item) ==> ((buy_plan(m, item, current, live, avg, inv) is Create)
            || (buy_plan(m, item, current, live, avg, inv) is Keep)),
{
}

/// Law: when a new buy order wins the budget, the decision deletes exactly the orders of mine
/// that do not stay: there is a choice of my current orders to keep such that they and the new
/// order cost together at most the total price cap, and the orders to delete are precisely the
/// others (listed from the last one down).
pub proof fn lemma_budget_deletes_every_loser(
    m: ItemModule,
    item: Seq<char>,
    current: Seq<MyOrder>,
    live: Seq<LiveOrder>,
    avg: AveragePrice,
    inv: Seq<InventoryItem>,
)
    requires
        m.settings.max_total_price_cap >= 0,
        current.len() < usize::MAX,
    ensures
        ({
            let plan = buy_plan(m, item, current, live, avg, inv);
            ((plan is Create) && plan->budgeted) ==> exists|keep: Seq<bool>|
                #![trigger dropped_ids(current, keep)]
                keep.len() == current.len() && kept_cost(current, keep) + plan->platinum
                    <= m.settings.max_total_price_cap && plan->delete_first == dropped_ids(
                    current,
                    keep,
                )
        }),
{
    let plan = buy_plan(m, item, current, live, avg, inv);
    if plan matches BuyPlan::Create { budgeted, .. } && budgeted {
        let s = live_summary(live, m.ingame_name@);
        let post = s.highest_buy;
        let profit = saturate(trunc_diff(avg, post + 1));
        let cands = buy_candidates(current, post, profit);
        let cap = m.settings.max_total_price_cap;
        let mask = chosen(cands, cands.len(), cap as int);
        let n = current.len();
        lemma_chosen_sums(cands, cands.len(), cap as int);
        lemma_knapsack_choice_within_budget(cands, cap);
        lemma_picks_sums(cands, mask);
        assert(!has_order_for(current, item));
        let sel = picks(cands, mask, true);
        assert(budget_choice(m, current, post, avg).0 == sel);
        assert(exists|i: int| 0 <= i < sel.len() && tag_name(current, item, sel[i].2) == item);
        let i = choose|i: int| 0 <= i < sel.len() && tag_name(current, item, sel[i].2) == item;
        lemma_picks_from_mask(cands, mask, true, i);
        let k = choose|k: int| 0 <= k < mask.len() && mask[k] == true && sel[i] == cands[k];
        if k < n {
            assert(cands[k].2 == k as usize);
            assert(current[k].url_name@ == item);
            assert(false);
        }
        assert(mask[n as int]);
        let keep = mask.drop_last();
        lemma_candidates_of_current(current, post, profit, keep);
        assert(total_weight(cands, mask) == total_weight(cands, keep) + post);
        assert(picks(cands, mask, false) == picks(cands, keep, false));
        assert(keep.len() == current.len() && kept_cost(current, keep) + post <= cap
            && dropped_ids(current, keep) == budget_choice(m, current, post, avg).1.map_values(
            |c: Candidate<usize>| tag_id(current, c.2),
        ));
    }
}

/// Law: holding more than one piece while the margin (the closed average less the best bid)
/// is under 25 per piece deletes my order for the item, and without an order nothing is done;
/// this holds whenever others buy and sell and the best bid is within the price cap.
pub proof fn lemma_holding_too_many_deletes(
    m: ItemModule,
    item: Seq<char>,
    current: Seq<MyOrder>,
    live: Seq<LiveOrder>,
    avg: AveragePrice,
    inv: Seq<InventoryItem>,
    owned: i32,
)
    requires
        !has_name(m.settings.blacklist@, item),
        live_summary(live, m.ingame_name@).sellers > 0,
        live_summary(live, m.ingame_name@).buyers > 0,
        live_summary(live, m.ingame_name@).highest_buy <= m.settings.avg_price_cap,
        owned_of(inv, item) == Some(owned),
        owned > 1,
        !avg.is_number || avg.whole < live_summary(live, m.ingame_name@).highest_buy + 25 * owned,
    ensures
        has_order_for(current, item) ==> buy_plan(m, item, current, live, avg, inv) == (BuyPlan::Delete {
            order_id: current[first_order_for(current, item)].id@,
        }),
        !has_order_for(current, item) ==> buy_plan(m, item, current, live, avg, inv) == BuyPlan::Keep,
{
}

/// Law: when it is not a good time to match the best bid (a spread under 21, and either a
/// spread under 15 or a margin under 30), my order for the item is deleted, and without an
/// order nothing is done; this holds whenever others buy and sell, the best bid is within the
/// price cap and I hold at most one piece.
pub proof fn lemma_bad_time_deletes(
    m: ItemModule,
    item: Seq<char>,
    current: Seq<MyOrder>,
    live: Seq<LiveOrder>,
    avg: AveragePrice,
    inv: Seq<InventoryItem>,
)
    requires
        !has_name(m.settings.blacklist@, item),
        live_summary(live, m.ingame_name@).sellers > 0,
        live_summary(live, m.ingame_name@).buyers > 0,
        live_summary(live, m.ingame_name@).highest_buy <= m.settings.avg_price_cap,
        i64::MIN <= live_summary(live, m.ingame_name@).lowest_sell - live_summary(
            live,
            m.ingame_name@,
        ).highest_buy,
        ({
            let s = live_summary(live, m.ingame_name@);
            &&& s.lowest_sell - s.highest_buy < 21
            &&& (s.lowest_sell - s.highest_buy < 15 || !avg.is_number || avg.whole < s.highest_buy
                + 30)
        }),
        match owned_of(inv, item) {
            Some(x) => x <= 1,
            None => true,
        },
    ensures
        has_order_for(current, item) ==> buy_plan(m, item, current, live, avg, inv) == (BuyPlan::Delete {
            order_id: current[first_order_for(current, item)].id@,
        }),
        !has_order_for(current, item) ==> buy_plan(m, item, current, live, avg, inv) == BuyPlan::Keep,
{
}

/// Law: when others sell but nobody else bids and the closed average is above 25, my bid goes
/// to the larger of the cheapest ask less 40 and a third of it (rounded toward zero) less 1,
/// raised to at least 1: my order is repriced to it, or a new one is placed (outside the
/// budget choice, deleting nothing); a bid above the price cap is not made. With an average of
/// 25 or less (or none), nothing is done.
pub proof fn lemma_lone_bid(
    m: ItemModule,
    item: Seq<char>,
    current: Seq<MyOrder>,
    live: Seq<LiveOrder>,
    avg: AveragePrice,
    inv: Seq<InventoryItem>,
)
    requires
        !has_name(m.settings.blacklist@, item),
        live_summary(live, m.ingame_name@).sellers > 0,
        live_summary(live, m.ingame_name@).buyers == 0,
        live.len() <= i64::MAX,
    ensures
        ({
            let ask = live_summary(live, m.ingame_name@).lowest_sell as int;
            let third = if ask >= 0 {
                ask / 3
            } else {
                -((-ask) / 3)
            };
            let p0 = if ask - 40 >= third - 1 {
                ask - 40
            } else {
                third - 1
            };
            let p = if p0 < 1 {
                1
            } else {
                p0
            };
            let plan = buy_plan(m, item, current, live, avg, inv);
            let over_25 = avg.is_number && (avg.whole > 25 || (avg.whole == 25 && avg.fractional));
            &&& !over_25 ==> plan == BuyPlan::Keep
            &&& (over_25 && p0 > m.settings.avg_price_cap) ==> plan == BuyPlan::Keep
            &&& (over_25 && p0 <= m.settings.avg_price_cap && !has_order_for(current, item))
                ==> plan == (BuyPlan::Create {
                platinum: p as i64,
                delete_first: Seq::empty(),
                budgeted: false,
            })
            &&& (over_25 && p0 <= m.settings.avg_price_cap && has_order_for(current, item)
                && i32::MIN <= p <= i32::MAX) ==> (plan matches BuyPlan::Update { price, repriced, .. }
                && price == p && repriced is None)
        }),
{
    crate::orders::lemma_count_le_len(live, m.ingame_name@, crate::model::OrderType::Buy);
    crate::orders::lemma_highest_buy_is_max(live, m.ingame_name@);
}

} // verus!
