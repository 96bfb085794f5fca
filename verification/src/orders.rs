//! Reading my own orders and the live market of an item.
use vstd::prelude::*;
use crate::model::{ItemModule, LiveMarket, LiveOrder, LiveSummary, MyOrder, OrderInfo, OrderType};

verus! {

/// `item` is one of `names`.
pub open spec fn has_name(names: Seq<String>, item: Seq<char>) -> bool {
    exists|i: int| 0 <= i < names.len() && #[trigger] names[i]@ == item
}

/// Index `k` holds the first of my orders for `item`.
pub open spec fn is_first_order_for(orders: Seq<MyOrder>, item: Seq<char>, k: int) -> bool {
    &&& 0 <= k < orders.len()
    &&& orders[k].url_name@ == item
    &&& forall|j: int| 0 <= j < k ==> (#[trigger] orders[j]).url_name@ != item
}

/// There is an order of mine for `item`.
pub open spec fn has_order_for(orders: Seq<MyOrder>, item: Seq<char>) -> bool {
    exists|k: int| 0 <= k < orders.len() && (#[trigger] orders[k]).url_name@ == item
}

/// The index of my first order for `item` (meaningful when there is one).
pub open spec fn first_order_for(orders: Seq<MyOrder>, item: Seq<char>) -> int {
    choose|k: int| is_first_order_for(orders, item, k)
}

/// My order for `item` as the item module sees it: (id, visible, price, active).
/// Without an order: no id, not visible, price 0, not active.
pub open spec fn order_info(orders: Seq<MyOrder>, item: Seq<char>) -> (
    Option<Seq<char>>,
    bool,
    i64,
    bool,
) {
    if has_order_for(orders, item) {
        let o = orders[first_order_for(orders, item)];
        (Some(o.id@), o.visible, o.platinum, true)
    } else {
        (None, false, 0, false)
    }
}

proof fn lemma_first_order_unique(orders: Seq<MyOrder>, item: Seq<char>, k: int)
    requires
        is_first_order_for(orders, item, k),
    ensures
        has_order_for(orders, item),
        first_order_for(orders, item) == k,
{
    assert(orders[k].url_name@ == item);
    let c = first_order_for(orders, item);
    assert(is_first_order_for(orders, item, c));
    if c < k {
        assert(orders[c].url_name@ != item);
    } else if c > k {
        assert(orders[k].url_name@ != item);
    }
}

/// The positions of my orders for `item`, in order.
pub open spec fn orders_named(orders: Seq<MyOrder>, item: Seq<char>) -> Seq<usize> {
    Seq::new(orders.len(), |i: int| i).filter(|i: int| orders[i].url_name@ == item).map_values(
        |i: int| i as usize,
    )
}

/// The positions of my orders for `item`, in order (see `orders_named`).
pub fn positions_of(orders: &Vec<MyOrder>, item: &String) -> (res: Vec<usize>)
    ensures
        res@ == orders_named(orders@, item@),
{
    let ghost keep = |i: int| orders@[i].url_name@ == item@;
    let mut out: Vec<usize> = Vec::new();
    let mut i: usize = 0;
    while i < orders.len()
        invariant
            i <= orders@.len(),
            keep == (|i: int| orders@[i].url_name@ == item@),
            out@ == Seq::new(i as nat, |j: int| j).filter(keep).map_values(|j: int| j as usize),
        decreases orders@.len() - i,
    {
        let ghost idx = Seq::new(i as nat, |j: int| j);
        let ghost idx2 = Seq::new((i + 1) as nat, |j: int| j);
        proof {
            assert(idx2 == idx.push(i as int));
            assert(idx2.drop_last() == idx);
            reveal_with_fuel(Seq::filter, 1);
        }
        if orders[i].url_name == *item {
            out.push(i);
            proof {
                assert(idx2.filter(keep) == idx.filter(keep).push(i as int));
                assert(out@ =~= idx2.filter(keep).map_values(|j: int| j as usize));
            }
        } else {
            proof {
                assert(idx2.filter(keep) == idx.filter(keep));
            }
        }
        i = i + 1;
    }
    out
}

/// A live order of another user than `me` on side `t`.
pub open spec fn is_other(o: LiveOrder, me: Seq<char>, t: OrderType) -> bool {
    o.username@ != me && o.order_type == t
}

/// How many live orders of other users there are on side `t`.
pub open spec fn count_side(live: Seq<LiveOrder>, me: Seq<char>, t: OrderType) -> nat
    decreases live.len(),
{
    if live.len() == 0 {
        0
    } else {
        count_side(live.drop_last(), me, t) + if is_other(live.last(), me, t) {
            1nat
        } else {
            0nat
        }
    }
}

/// The highest price among the live orders of other users on side `t`.
pub open spec fn highest_of(live: Seq<LiveOrder>, me: Seq<char>, t: OrderType) -> Option<i64>
    decreases live.len(),
{
    if live.len() == 0 {
        None
    } else {
        let rest = highest_of(live.drop_last(), me, t);
        let p = live.last().platinum;
        if is_other(live.last(), me, t) {
            match rest {
                None => Some(p),
                Some(x) => Some(if x >= p { x } else { p }),
            }
        } else {
            rest
        }
    }
}

/// The lowest price among the live orders of other users on side `t`.
pub open spec fn lowest_of(live: Seq<LiveOrder>, me: Seq<char>, t: OrderType) -> Option<i64>
    decreases live.len(),
{
    if live.len() == 0 {
        None
    } else {
        let rest = lowest_of(live.drop_last(), me, t);
        let p = live.last().platinum;
        if is_other(live.last(), me, t) {
            match rest {
                None => Some(p),
                Some(x) => Some(if x <= p { x } else { p }),
            }
        } else {
            rest
        }
    }
}

pub open spec fn unwrap_or_zero(o: Option<i64>) -> i64 {
    match o {
        Some(x) => x,
        None => 0,
    }
}

/// The spread between the cheapest ask and the best bid (each 0 when absent).
pub open spec fn spread(live: Seq<LiveOrder>, me: Seq<char>) -> int {
    unwrap_or_zero(lowest_of(live, me, OrderType::Sell)) - unwrap_or_zero(
        highest_of(live, me, OrderType::Buy),
    )
}

/// The spread fits an `i64`, in which it is computed.
pub open spec fn spread_fits(live: Seq<LiveOrder>, me: Seq<char>) -> bool {
    i64::MIN <= spread(live, me) <= i64::MAX
}

pub open spec fn live_summary(live: Seq<LiveOrder>, me: Seq<char>) -> LiveSummary {
    LiveSummary {
        buyers: count_side(live, me, OrderType::Buy) as i64,
        sellers: count_side(live, me, OrderType::Sell) as i64,
        highest_buy: unwrap_or_zero(highest_of(live, me, OrderType::Buy)),
        lowest_sell: unwrap_or_zero(lowest_of(live, me, OrderType::Sell)),
        range: spread(live, me) as i64,
    }
}

pub proof fn lemma_count_le_len(live: Seq<LiveOrder>, me: Seq<char>, t: OrderType)
    ensures
        count_side(live, me, t) <= live.len(),
    decreases live.len(),
{
    if live.len() > 0 {
        lemma_count_le_len(live.drop_last(), me, t);
    }
}

/// Law: there is a best bid exactly when somebody else bids, and it is the highest bid:
/// every other user's buy order bids no more, and one of them bids exactly that.
pub proof fn lemma_highest_buy_is_max(live: Seq<LiveOrder>, me: Seq<char>)
    ensures
        highest_of(live, me, OrderType::Buy) is Some <==> count_side(live, me, OrderType::Buy) > 0,
        highest_of(live, me, OrderType::Buy) is None ==> forall|i: int|
            0 <= i < live.len() ==> !is_other(live[i], me, OrderType::Buy),
        highest_of(live, me, OrderType::Buy) matches Some(h) ==> {
            &&& forall|i: int|
                0 <= i < live.len() && is_other(live[i], me, OrderType::Buy) ==> live[i].platinum
                    <= h
            &&& exists|i: int|
                0 <= i < live.len() && is_other(live[i], me, OrderType::Buy) && live[i].platinum
                    == h
        },
    decreases live.len(),
{
    let t = OrderType::Buy;
    if live.len() > 0 {
        let rest = live.drop_last();
        lemma_highest_buy_is_max(rest, me);
        let n = live.len() - 1;
        let last = live[n];
        assert(last == live.last());
        assert forall|i: int| 0 <= i < n implies live[i] == rest[i] by {}
        if highest_of(live, me, t) is None {
            assert forall|i: int| 0 <= i < live.len() implies !is_other(live[i], me, t) by {
                if i < n {
                    assert(live[i] == rest[i]);
                }
            }
        }
        if let Some(h) = highest_of(live, me, t) {
            assert forall|i: int|
                0 <= i < live.len() && is_other(live[i], me, t) implies live[i].platinum <= h by {
                if i < n {
                    assert(live[i] == rest[i]);
                    assert(is_other(rest[i], me, t));
                }
            }
            if is_other(last, me, t) && (highest_of(rest, me, t) is None || last.platinum == h) {
                assert(0 <= n < live.len() && is_other(live[n], me, t) && live[n].platinum == h);
            } else {
                let hr = highest_of(rest, me, t).unwrap();
                assert(hr == h);
                let j = choose|i: int|
                    0 <= i < rest.len() && is_other(rest[i], me, t) && rest[i].platinum == hr;
                assert(live[j] == rest[j]);
                assert(0 <= j < live.len() && is_other(live[j], me, t) && live[j].platinum == h);
            }
        }
    }
}

/// Law: there is a cheapest ask exactly when somebody else sells, and it is the lowest ask:
/// every other user's sell order asks no less, and one of them asks exactly that.
pub proof fn lemma_lowest_sell_is_min(live: Seq<LiveOrder>, me: Seq<char>)
    ensures
        lowest_of(live, me, OrderType::Sell) is Some <==> count_side(live, me, OrderType::Sell) > 0,
        lowest_of(live, me, OrderType::Sell) is None ==> forall|i: int|
            0 <= i < live.len() ==> !is_other(live[i], me, OrderType::Sell),
        lowest_of(live, me, OrderType::Sell) matches Some(l) ==> {
            &&& forall|i: int|
                0 <= i < live.len() && is_other(live[i], me, OrderType::Sell) ==> l
                    <= live[i].platinum
            &&& exists|i: int|
                0 <= i < live.len() && is_other(live[i], me, OrderType::Sell) && live[i].platinum
                    == l
        },
    decreases live.len(),
{
    let t = OrderType::Sell;
    if live.len() > 0 {
        let rest = live.drop_last();
        lemma_lowest_sell_is_min(rest, me);
        let n = live.len() - 1;
        let last = live[n];
        assert(last == live.last());
        assert forall|i: int| 0 <= i < n implies live[i] == rest[i] by {}
        if lowest_of(live, me, t) is None {
            assert forall|i: int| 0 <= i < live.len() implies !is_other(live[i], me, t) by {
                if i < n {
                    assert(live[i] == rest[i]);
                }
            }
        }
        if let Some(l) = lowest_of(live, me, t) {
            assert forall|i: int|
                0 <= i < live.len() && is_other(live[i], me, t) implies l <= live[i].platinum by {
                if i < n {
                    assert(live[i] == rest[i]);
                    assert(is_other(rest[i], me, t));
                }
            }
            if is_other(last, me, t) && (lowest_of(rest, me, t) is None || last.platinum == l) {
                assert(0 <= n < live.len() && is_other(live[n], me, t) && live[n].platinum == l);
            } else {
                let lr = lowest_of(rest, me, t).unwrap();
                assert(lr == l);
                let j = choose|i: int|
                    0 <= i < rest.len() && is_other(rest[i], me, t) && rest[i].platinum == lr;
                assert(live[j] == rest[j]);
                assert(0 <= j < live.len() && is_other(live[j], me, t) && live[j].platinum == l);
            }
        }
    }
}

/// The live orders of other users than `me` on side `t`, in the order given.
pub open spec fn others_of(live: Seq<LiveOrder>, me: Seq<char>, t: OrderType) -> Seq<LiveOrder>
    decreases live.len(),
{
    if live.len() == 0 {
        Seq::empty()
    } else {
        others_of(live.drop_last(), me, t) + if is_other(live.last(), me, t) {
            seq![live.last()]
        } else {
            Seq::<LiveOrder>::empty()
        }
    }
}

/// Order `a` may come before order `b`: by price, highest first when `descending`,
/// lowest first otherwise.
pub open spec fn ranked(a: LiveOrder, b: LiveOrder, descending: bool) -> bool {
    if descending {
        a.platinum >= b.platinum
    } else {
        a.platinum <= b.platinum
    }
}

/// `s` is sorted by price, highest first when `descending`, lowest first otherwise.
pub open spec fn sorted_by_price(s: Seq<LiveOrder>, descending: bool) -> bool {
    forall|i: int, j: int| 0 <= i < j < s.len() ==> ranked(s[i], s[j], descending)
}

/// The price at the head of a side sorted that way: the best bid or the cheapest ask.
pub open spec fn head_price(live: Seq<LiveOrder>, me: Seq<char>, t: OrderType, descending: bool) -> Option<
    i64,
> {
    if descending {
        highest_of(live, me, t)
    } else {
        lowest_of(live, me, t)
    }
}

proof fn lemma_insert_multiset(s: Seq<LiveOrder>, p: int, x: LiveOrder)
    requires
        0 <= p <= s.len(),
    ensures
        s.insert(p, x).to_multiset() =~= s.to_multiset().insert(x),
{
    broadcast use vstd::multiset::group_multiset_axioms;

    let t = s.insert(p, x);
    s.insert_ensures(p, x);
    assert(t.remove(p) =~= s);
    t.to_multiset_ensures();
    assert(t[p] == x);
    assert(t.contains(x));
}

fn ranks_before(a: &LiveOrder, b: &LiveOrder, descending: bool) -> (res: bool)
    ensures
        res == ranked(*a, *b, descending),
{
    if descending {
        a.platinum >= b.platinum
    } else {
        a.platinum <= b.platinum
    }
}

fn copy_order(o: &LiveOrder) -> (res: LiveOrder)
    ensures
        res == *o,
{
    LiveOrder { username: o.username.clone(), order_type: o.order_type, platinum: o.platinum }
}

/// The live orders of other users than `me` on side `t`, sorted by price (highest first when
/// `descending`); orders at the same price keep their order.
fn sorted_side(live: &Vec<LiveOrder>, me: &String, t: OrderType, descending: bool) -> (res: Vec<
    LiveOrder,
>)
    ensures
        sorted_by_price(res@, descending),
        res@.to_multiset() == others_of(live@, me@, t).to_multiset(),
        res@.len() == count_side(live@, me@, t),
        res@.len() > 0 ==> head_price(live@, me@, t, descending) == Some(res@[0].platinum),
        res@.len() == 0 ==> head_price(live@, me@, t, descending) is None,
{
    let ghost g = live@;
    let mut v: Vec<LiveOrder> = Vec::new();
    let mut i: usize = 0;
    proof {
        assert(g.subrange(0, 0) =~= Seq::<LiveOrder>::empty());
        Seq::<LiveOrder>::empty().to_multiset_ensures();
        vstd::multiset::lemma_multiset_empty_len(Seq::<LiveOrder>::empty().to_multiset());
        vstd::multiset::lemma_multiset_empty_len(v@.to_multiset());
        v@.to_multiset_ensures();
    }
    while i < live.len()
        invariant
            g == live@,
            i <= g.len(),
            v@.len() <= i,
            sorted_by_price(v@, descending),
            v@.to_multiset() == others_of(g.subrange(0, i as int), me@, t).to_multiset(),
            v@.len() == count_side(g.subrange(0, i as int), me@, t),
            v@.len() > 0 ==> head_price(g.subrange(0, i as int), me@, t, descending) == Some(
                v@[0].platinum,
            ),
            v@.len() == 0 ==> head_price(g.subrange(0, i as int), me@, t, descending) is None,
        decreases g.len() - i,
    {
        let ghost pre = g.subrange(0, i as int);
        let ghost post = g.subrange(0, i + 1);
        proof {
            assert(post.drop_last() == pre);
            assert(post.last() == g[i as int]);
        }
        let o = &live[i];
        if !(o.username == *me) && o.order_type == t {
            let x = copy_order(o);
            let mut p: usize = 0;
            while p < v.len() && ranks_before(&v[p], &x, descending)
                invariant
                    p <= v@.len(),
                    forall|q: int| 0 <= q < p ==> ranked(v@[q], x, descending),
                decreases v@.len() - p,
            {
                p = p + 1;
            }
            let ghost old_v = v@;
            proof {
                if p < old_v.len() {
                    assert(!ranked(old_v[p as int], x, descending));
                }
            }
            v.insert(p, x);
            proof {
                old_v.insert_ensures(p as int, x);
                lemma_insert_multiset(old_v, p as int, x);
                assert(v@ == old_v.insert(p as int, x));
                assert forall|a: int, b: int| 0 <= a < b < v@.len() implies ranked(
                    v@[a],
                    v@[b],
                    descending,
                ) by {
                    if b < p {
                        assert(v@[a] == old_v[a] && v@[b] == old_v[b]);
                    } else if b == p {
                        assert(v@[a] == old_v[a]);
                    } else if a < p {
                        assert(v@[a] == old_v[a] && v@[b] == old_v[b - 1]);
                    } else if a == p {
                        assert(v@[b] == old_v[b - 1]);
                        if b - 1 > p {
                            assert(ranked(old_v[p as int], old_v[b - 1], descending));
                        }
                    } else {
                        assert(v@[a] == old_v[a - 1] && v@[b] == old_v[b - 1]);
                    }
                }
                assert(others_of(post, me@, t) == others_of(pre, me@, t) + seq![x]);
                assert(others_of(pre, me@, t) + seq![x] == others_of(pre, me@, t).push(x));
                others_of(pre, me@, t).to_multiset_ensures();
                if old_v.len() > 0 {
                    if p == 0 {
                        assert(v@[0] == x);
                    } else {
                        assert(v@[0] == old_v[0]);
                        assert(ranked(old_v[0], x, descending));
                    }
                } else {
                    assert(v@[0] == x);
                }
            }
        } else {
            proof {
                assert(others_of(post, me@, t) == others_of(pre, me@, t) + Seq::<LiveOrder>::empty());
                assert(others_of(pre, me@, t) + Seq::<LiveOrder>::empty() == others_of(pre, me@, t));
            }
        }
        i = i + 1;
    }
    proof {
        assert(g.subrange(0, g.len() as int) == g);
    }
    v
}

impl ItemModule {
    /// Whether `item_name` is on the blacklist of the settings.
    pub fn is_item_blacklisted(&self, item_name: &String) -> (res: bool)
        ensures
            res == has_name(self.settings.blacklist@, item_name@),
    {
        let blacklist = &self.settings.blacklist;
        let mut i: usize = 0;
        while i < blacklist.len()
            invariant
                blacklist@ == self.settings.blacklist@,
                i <= blacklist@.len(),
                forall|j: int| 0 <= j < i ==> blacklist@[j]@ != item_name@,
            decreases blacklist@.len() - i,
        {
            if blacklist[i] == *item_name {
                assert(self.settings.blacklist@[i as int]@ == item_name@);
                return true;
            }
            i = i + 1;
        }
        false
    }

    /// My order for `item_name` among `orders`: the first one with that url name.
    pub fn get_my_order_information(&self, item_name: &String, orders: &Vec<MyOrder>) -> (res:
        OrderInfo)
        ensures
            order_info(orders@, item_name@) == (
                match res.id {
                    Some(id) => Some(id@),
                    None => None,
                },
                res.visible,
                res.price,
                res.active,
            ),
    {
        let mut k: usize = 0;
        while k < orders.len()
            invariant
                k <= orders@.len(),
                forall|j: int| 0 <= j < k ==> (#[trigger] orders@[j]).url_name@ != item_name@,
            decreases orders@.len() - k,
        {
            if orders[k].url_name == *item_name {
                proof {
                    lemma_first_order_unique(orders@, item_name@, k as int);
                }
                let o = &orders[k];
                return OrderInfo {
                    id: Some(o.id.clone()),
                    visible: o.visible,
                    price: o.platinum,
                    active: true,
                };
            }
            k = k + 1;
        }
        OrderInfo { id: None, visible: false, price: 0, active: false }
    }

    /// The live market of an item without my own orders: the other users' buy orders, best
    /// bid first, their sell orders, cheapest ask first, and the summary of both.
    pub fn restructure_live_orders(&self, live: &Vec<LiveOrder>) -> (res: LiveMarket)
        requires
            spread_fits(live@, self.ingame_name@),
        ensures
            res.summary == live_summary(live@, self.ingame_name@),
            sorted_by_price(res.buy_orders@, true),
            res.buy_orders@.to_multiset() == others_of(live@, self.ingame_name@, OrderType::Buy).to_multiset(),
            sorted_by_price(res.sell_orders@, false),
            res.sell_orders@.to_multiset() == others_of(live@, self.ingame_name@, OrderType::Sell).to_multiset(),
            res.buy_orders@.len() == count_side(live@, self.ingame_name@, OrderType::Buy),
            res.sell_orders@.len() == count_side(live@, self.ingame_name@, OrderType::Sell),
            res.buy_orders@.len() > 0 ==> res.buy_orders@[0].platinum == res.summary.highest_buy,
            res.sell_orders@.len() > 0 ==> res.sell_orders@[0].platinum == res.summary.lowest_sell,
    {
        let buy_orders = sorted_side(live, &self.ingame_name, OrderType::Buy, true);
        let sell_orders = sorted_side(live, &self.ingame_name, OrderType::Sell, false);
        let summary = self.summarize_live_orders(live);
        LiveMarket { buy_orders, sell_orders, summary }
    }

    /// The summary of the live market of an item without my own orders: how many others bid
    /// and ask, the best bid, the cheapest ask, and the spread between them.
    pub fn summarize_live_orders(&self, live: &Vec<LiveOrder>) -> (res: LiveSummary)
        requires
            spread_fits(live@, self.ingame_name@),
        ensures
            res == live_summary(live@, self.ingame_name@),
    {
        let me = &self.ingame_name;
        let ghost g = live@;
        let mut buyers: usize = 0;
        let mut sellers: usize = 0;
        let mut highest: Option<i64> = None;
        let mut lowest: Option<i64> = None;
        let mut i: usize = 0;
        while i < live.len()
            invariant
                g == live@,
                i <= g.len(),
                buyers == count_side(g.subrange(0, i as int), me@, OrderType::Buy),
                sellers == count_side(g.subrange(0, i as int), me@, OrderType::Sell),
                highest == highest_of(g.subrange(0, i as int), me@, OrderType::Buy),
                lowest == lowest_of(g.subrange(0, i as int), me@, OrderType::Sell),
            decreases g.len() - i,
        {
            let o = &live[i];
            proof {
                let pre = g.subrange(0, i as int);
                let post = g.subrange(0, i + 1);
                assert(post.drop_last() == pre);
                assert(post.last() == g[i as int]);
                lemma_count_le_len(pre, me@, OrderType::Buy);
                lemma_count_le_len(pre, me@, OrderType::Sell);
            }
            let other = !(o.username == *me);
            if other && matches!(o.order_type, OrderType::Buy) {
                buyers = buyers + 1;
                highest = match highest {
                    None => Some(o.platinum),
                    Some(x) => Some(if x >= o.platinum { x } else { o.platinum }),
                };
            }
            if other && matches!(o.order_type, OrderType::Sell) {
                sellers = sellers + 1;
                lowest = match lowest {
                    None => Some(o.platinum),
                    Some(x) => Some(if x <= o.platinum { x } else { o.platinum }),
                };
            }
            i = i + 1;
        }
        proof {
            assert(g.subrange(0, g.len() as int) == g);
        }
        let highest_buy = match highest {
            Some(x) => x,
            None => 0,
        };
        let lowest_sell = match lowest {
            Some(x) => x,
            None => 0,
        };
        LiveSummary {
            buyers: buyers as i64,
            sellers: sellers as i64,
            highest_buy,
            lowest_sell,
            range: lowest_sell - highest_buy,
        }
    }
}

impl ItemModule {
    /// The best bid and the cheapest ask of the other users, if any.
    fn live_extremes(&self, live: &Vec<LiveOrder>) -> (res: (Option<i64>, Option<i64>))
        ensures
            res.0 == highest_of(live@, self.ingame_name@, OrderType::Buy),
            res.1 == lowest_of(live@, self.ingame_name@, OrderType::Sell),
    {
        let me = &self.ingame_name;
        let ghost g = live@;
        let mut highest: Option<i64> = None;
        let mut lowest: Option<i64> = None;
        let mut i: usize = 0;
        while i < live.len()
            invariant
                g == live@,
                i <= g.len(),
                highest == highest_of(g.subrange(0, i as int), me@, OrderType::Buy),
                lowest == lowest_of(g.subrange(0, i as int), me@, OrderType::Sell),
            decreases g.len() - i,
        {
            let o = &live[i];
            proof {
                let pre = g.subrange(0, i as int);
                let post = g.subrange(0, i + 1);
                assert(post.drop_last() == pre);
                assert(post.last() == g[i as int]);
            }
            let other = !(o.username == *me);
            if other && matches!(o.order_type, OrderType::Buy) {
                highest = match highest {
                    None => Some(o.platinum),
                    Some(x) => Some(if x >= o.platinum { x } else { o.platinum }),
                };
            }
            if other && matches!(o.order_type, OrderType::Sell) {
                lowest = match lowest {
                    None => Some(o.platinum),
                    Some(x) => Some(if x <= o.platinum { x } else { o.platinum }),
                };
            }
            i = i + 1;
        }
        proof {
            assert(g.subrange(0, g.len() as int) == g);
        }
        (highest, lowest)
    }

    /// Whether the spread of the live market (cheapest ask less best bid) fits an `i64`.
    pub fn live_spread_fits(&self, live: &Vec<LiveOrder>) -> (res: bool)
        ensures
            res == spread_fits(live@, self.ingame_name@),
    {
        let (highest, lowest) = self.live_extremes(live);
        let h: i128 = match highest {
            Some(x) => x as i128,
            None => 0,
        };
        let l: i128 = match lowest {
            Some(x) => x as i128,
            None => 0,
        };
        let d = l - h;
        i64::MIN as i128 <= d && d <= i64::MAX as i128
    }
}

} // verus!
