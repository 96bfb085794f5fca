//! Which items are popular enough to trade: the rows of the price history that qualify,
//! and the two rows of an item's history that its weekly price shift compares.
use vstd::prelude::*;
use crate::model::{ItemModule, OrderType};
use crate::orders::has_name;

verus! {

/// One row of the price history: the item, the kind of row, and when it was recorded.
/// (The prices of the row stay with the caller, found again by the row's index.)
pub struct PriceRow {
    pub name: String,
    pub order_type: OrderType,
    pub datetime: i64,
}

/// One row of the price history averaged per item and order type, with the two threshold
/// tests that the caller evaluated on its averages: `liquid` (volume and range above their
/// thresholds) and `attractive` (average price below the cap and weekly shift at least the
/// threshold).
pub struct GroupRow {
    pub name: String,
    pub order_type: OrderType,
    pub liquid: bool,
    pub attractive: bool,
}

/// A popular item: the indices of its closed, sell and buy rows among the groups.
#[derive(Clone, Copy)]
pub struct OverlapRow {
    pub closed: usize,
    pub sell: usize,
    pub buy: usize,
}

/// Row `r` is a closed-trade row of the item `name`.
pub open spec fn is_closed_of(r: PriceRow, name: Seq<char>) -> bool {
    r.order_type == OrderType::Closed && r.name@ == name
}

/// Row `a` comes before row `b` when the history is sorted newest first
/// (rows recorded at the same time keep their order).
pub open spec fn newer(rows: Seq<PriceRow>, a: int, b: int) -> bool {
    rows[a].datetime > rows[b].datetime || (rows[a].datetime == rows[b].datetime && a < b)
}

/// How many closed-trade rows the history holds for `name`.
pub open spec fn closed_count(rows: Seq<PriceRow>, name: Seq<char>) -> nat
    decreases rows.len(),
{
    if rows.len() == 0 {
        0
    } else {
        closed_count(rows.drop_last(), name) + if is_closed_of(rows.last(), name) {
            1nat
        } else {
            0nat
        }
    }
}

/// `s` lists the closed-trade rows of `name`, each once, newest first.
pub open spec fn newest_first(rows: Seq<PriceRow>, name: Seq<char>, s: Seq<usize>) -> bool {
    &&& s.len() == closed_count(rows, name)
    &&& forall|i: int| 0 <= i < s.len() ==> s[i] < rows.len()
    &&& forall|i: int, j: int| 0 <= i < j < s.len() ==> newer(rows, s[i] as int, s[j] as int)
    &&& forall|k: int|
        0 <= k < rows.len() ==> (is_closed_of(rows[k], name) <==> s.contains(k as usize))
}

proof fn lemma_closed_count_step(rows: Seq<PriceRow>, name: Seq<char>, k: int)
    requires
        0 <= k < rows.len(),
    ensures
        closed_count(rows.subrange(0, k + 1), name) == closed_count(rows.subrange(0, k), name)
            + if is_closed_of(rows[k], name) {
            1nat
        } else {
            0nat
        },
{
    let post = rows.subrange(0, k + 1);
    assert(post.drop_last() == rows.subrange(0, k));
    assert(post.last() == rows[k]);
}

/// The rows whose prices the weekly shift of `name` compares: the newest closed-trade row and
/// the seventh newest; none when the history holds fewer than seven of them.
pub fn week_increase_rows(rows: &Vec<PriceRow>, name: &String) -> (res: Option<(usize, usize)>)
    ensures
        match res {
            None => closed_count(rows@, name@) < 7,
            Some((a, b)) => closed_count(rows@, name@) >= 7 && exists|s: Seq<usize>|
                newest_first(rows@, name@, s) && s[0] == a && s[6] == b,
        },
        res is Some <==> closed_count(rows@, name@) >= 7,
{
    let ghost g = rows@;
    let mut sorted: Vec<usize> = Vec::new();
    let mut k: usize = 0;
    while k < rows.len()
        invariant
            g == rows@,
            k <= g.len(),
            sorted@.len() == closed_count(g.subrange(0, k as int), name@),
            forall|i: int| 0 <= i < sorted@.len() ==> sorted@[i] < k,
            forall|i: int, j: int|
                0 <= i < j < sorted@.len() ==> newer(g, sorted@[i] as int, sorted@[j] as int),
            forall|j: int| 0 <= j < k ==> (is_closed_of(g[j], name@) <==> sorted@.contains(j as usize)),
        decreases g.len() - k,
    {
        proof {
            lemma_closed_count_step(g, name@, k as int);
        }
        if matches!(rows[k].order_type, OrderType::Closed) && rows[k].name == *name {
            let dt = rows[k].datetime;
            let mut p: usize = 0;
            while p < sorted.len() && (rows[sorted[p]].datetime > dt || (rows[sorted[p]].datetime
                == dt && sorted[p] < k))
                invariant
                    g == rows@,
                    k < g.len(),
                    dt == g[k as int].datetime,
                    p <= sorted@.len(),
                    forall|i: int| 0 <= i < sorted@.len() ==> sorted@[i] < k,
                    forall|q: int| 0 <= q < p ==> newer(g, sorted@[q] as int, k as int),
                decreases sorted@.len() - p,
            {
                p = p + 1;
            }
            let ghost old_sorted = sorted@;
            proof {
                assert forall|q: int| p <= q < old_sorted.len() implies newer(
                    g,
                    k as int,
                    old_sorted[q] as int,
                ) by {
                    if q > p {
                        assert(newer(g, old_sorted[p as int] as int, old_sorted[q] as int));
                    }
                }
            }
            sorted.insert(p, k);
            proof {
                old_sorted.insert_ensures(p as int, k);
                assert forall|j: int| 0 <= j < k + 1 implies (is_closed_of(g[j], name@)
                    <==> sorted@.contains(j as usize)) by {
                    if j < k {
                        if old_sorted.contains(j as usize) {
                            let q = choose|q: int|
                                0 <= q < old_sorted.len() && old_sorted[q] == j as usize;
                            if q < p {
                                assert(sorted@[q] == j as usize);
                            } else {
                                assert(sorted@[q + 1] == j as usize);
                            }
                        }
                        if sorted@.contains(j as usize) {
                            let q = choose|q: int| 0 <= q < sorted@.len() && sorted@[q] == j as usize;
                            if q < p {
                                assert(old_sorted[q] == j as usize);
                            } else if q > p {
                                assert(old_sorted[q - 1] == j as usize);
                            }
                        }
                    } else {
                        assert(sorted@[p as int] == k);
                    }
                }
            }
        } else {
            proof {
                assert forall|j: int| 0 <= j < k + 1 implies (is_closed_of(g[j], name@)
                    <==> sorted@.contains(j as usize)) by {
                    if j == k {
                        if sorted@.contains(j as usize) {
                            let q = choose|q: int| 0 <= q < sorted@.len() && sorted@[q] == j as usize;
                            assert(sorted@[q] < k);
                        }
                    }
                }
            }
        }
        k = k + 1;
    }
    proof {
        assert(g.subrange(0, g.len() as int) == g);
        assert(newest_first(g, name@, sorted@));
    }
    if sorted.len() >= 7 {
        Some((sorted[0], sorted[6]))
    } else {
        None
    }
}

/// The first of `rows` for item `name` with order type `t`, if any.
pub open spec fn first_group(rows: Seq<GroupRow>, name: Seq<char>, t: OrderType) -> Option<int>
    decreases rows.len(),
{
    if rows.len() == 0 {
        None
    } else {
        match first_group(rows.drop_last(), name, t) {
            Some(i) => Some(i),
            None => if rows.last().name@ == name && rows.last().order_type == t {
                Some(rows.len() - 1)
            } else {
                None
            },
        }
    }
}

/// Each item has at most one row per order type (as grouping the history guarantees).
pub open spec fn groups_unique(rows: Seq<GroupRow>) -> bool {
    forall|i: int, j: int|
        0 <= i < j < rows.len() ==> !(rows[i].name@ == rows[j].name@ && rows[i].order_type
            == rows[j].order_type)
}

/// Closed row `k` survives the first filter: its item trades enough, or I hold it.
pub open spec fn is_candidate(rows: Seq<GroupRow>, k: int, inventory: Seq<String>) -> bool {
    rows[k].order_type == OrderType::Closed && (rows[k].liquid || has_name(
        inventory,
        rows[k].name@,
    ))
}

/// Candidate row `k` survives the whitelist: with a strict whitelist only whitelisted items
/// do; otherwise attractive, held or whitelisted ones do.
pub open spec fn is_popular(
    m: ItemModule,
    rows: Seq<GroupRow>,
    k: int,
    inventory: Seq<String>,
) -> bool {
    let name = rows[k].name@;
    let wl = m.settings.whitelist@;
    is_candidate(rows, k, inventory) && if m.settings.strict_whitelist {
        has_name(wl, name)
    } else {
        rows[k].attractive || has_name(inventory, name) || has_name(wl, name)
    }
}

/// The popular items among the first `n` rows that are both sold and bought,
/// in the order of their closed rows.
pub open spec fn overlap_of(
    m: ItemModule,
    rows: Seq<GroupRow>,
    inventory: Seq<String>,
    n: nat,
) -> Seq<OverlapRow>
    decreases n,
{
    if n == 0 {
        Seq::empty()
    } else {
        let k = n - 1;
        let rest = overlap_of(m, rows, inventory, (n - 1) as nat);
        let name = rows[k].name@;
        let sell = first_group(rows, name, OrderType::Sell);
        let buy = first_group(rows, name, OrderType::Buy);
        if is_popular(m, rows, k, inventory) && sell is Some && buy is Some {
            rest.push(
                OverlapRow {
                    closed: k as usize,
                    sell: sell.unwrap() as usize,
                    buy: buy.unwrap() as usize,
                },
            )
        } else {
            rest
        }
    }
}

/// Whether `item` is one of `names`.
pub fn contains_name(names: &Vec<String>, item: &String) -> (res: bool)
    ensures
        res == has_name(names@, item@),
{
    let mut i: usize = 0;
    while i < names.len()
        invariant
            i <= names@.len(),
            forall|j: int| 0 <= j < i ==> names@[j]@ != item@,
        decreases names@.len() - i,
    {
        if names[i] == *item {
            assert(names@[i as int]@ == item@);
            return true;
        }
        i = i + 1;
    }
    false
}

proof fn lemma_first_group_extend(g: Seq<GroupRow>, name: Seq<char>, t: OrderType, k: int)
    requires
        0 <= k <= g.len(),
        first_group(g.subrange(0, k), name, t) is Some,
    ensures
        first_group(g, name, t) == first_group(g.subrange(0, k), name, t),
    decreases g.len() - k,
{
    if k < g.len() {
        let d = g.drop_last();
        assert(d.subrange(0, k) == g.subrange(0, k));
        lemma_first_group_extend(d, name, t, k);
    } else {
        assert(g.subrange(0, k) == g);
    }
}

proof fn lemma_first_group_bounds(g: Seq<GroupRow>, name: Seq<char>, t: OrderType)
    ensures
        first_group(g, name, t) matches Some(i) ==> 0 <= i < g.len() && g[i].name@ == name
            && g[i].order_type == t,
    decreases g.len(),
{
    if g.len() > 0 {
        let d = g.drop_last();
        lemma_first_group_bounds(d, name, t);
        if let Some(i) = first_group(d, name, t) {
            assert(g[i] == d[i]);
        }
    }
}

fn find_group(rows: &Vec<GroupRow>, name: &String, t: OrderType) -> (res: Option<usize>)
    ensures
        match res {
            Some(i) => first_group(rows@, name@, t) == Some(i as int),
            None => first_group(rows@, name@, t) is None,
        },
{
    let ghost g = rows@;
    let mut i: usize = 0;
    while i < rows.len()
        invariant
            g == rows@,
            i <= g.len(),
            first_group(g.subrange(0, i as int), name@, t) is None,
        decreases g.len() - i,
    {
        proof {
            let post = g.subrange(0, i + 1);
            assert(post.drop_last() == g.subrange(0, i as int));
            assert(post.last() == g[i as int]);
        }
        if rows[i].name == *name && rows[i].order_type == t {
            proof {
                lemma_first_group_extend(g, name@, t, i as int + 1);
            }
            return Some(i);
        }
        i = i + 1;
    }
    proof {
        assert(g.subrange(0, g.len() as int) == g);
    }
    None
}

impl ItemModule {
    /// The popular items among the averaged price history `groups`: closed rows of items that
    /// trade enough or are in stock, filtered by the whitelist, for which the history also
    /// holds a sell and a buy row. `inventory_names` are the items in stock.
    pub fn get_buy_sell_overlap(&self, groups: &Vec<GroupRow>, inventory_names: &Vec<String>) -> (res:
        Vec<OverlapRow>)
        requires
            groups_unique(groups@),
        ensures
            res@ == overlap_of(*self, groups@, inventory_names@, groups@.len()),
    {
        let ghost g = groups@;
        let mut out: Vec<OverlapRow> = Vec::new();
        let mut k: usize = 0;
        while k < groups.len()
            invariant
                g == groups@,
                k <= g.len(),
                out@ == overlap_of(*self, g, inventory_names@, k as nat),
            decreases g.len() - k,
        {
            let row = &groups[k];
            let candidate = matches!(row.order_type, OrderType::Closed) && (row.liquid
                || contains_name(inventory_names, &row.name));
            let popular = candidate && if self.settings.strict_whitelist {
                contains_name(&self.settings.whitelist, &row.name)
            } else {
                row.attractive || contains_name(inventory_names, &row.name) || contains_name(
                    &self.settings.whitelist,
                    &row.name,
                )
            };
            if popular {
                let sell = find_group(groups, &row.name, OrderType::Sell);
                let buy = find_group(groups, &row.name, OrderType::Buy);
                match (sell, buy) {
                    (Some(s), Some(b)) => {
                        out.push(OverlapRow { closed: k, sell: s, buy: b });
                    },
                    _ => {},
                }
            }
            k = k + 1;
        }
        out
    }
}

proof fn lemma_newer_strict(rows: Seq<PriceRow>, a: int, b: int)
    ensures
        !newer(rows, a, a),
        newer(rows, a, b) ==> !newer(rows, b, a),
{
}

proof fn lemma_newest_first_prefix(
    rows: Seq<PriceRow>,
    name: Seq<char>,
    s: Seq<usize>,
    t: Seq<usize>,
    i: int,
)
    requires
        newest_first(rows, name, s),
        newest_first(rows, name, t),
        0 <= i <= s.len(),
    ensures
        forall|l: int| 0 <= l < i ==> s[l] == t[l],
    decreases i,
{
    if i > 0 {
        let k = i - 1;
        lemma_newest_first_prefix(rows, name, s, t, k);
        let x = s[k];
        assert(is_closed_of(rows[x as int], name)) by {
            assert(s.contains(x));
        }
        assert(t.contains(x));
        let j = choose|j: int| 0 <= j < t.len() && t[j] == x;
        let y = t[k];
        assert(is_closed_of(rows[y as int], name)) by {
            assert(t.contains(y));
        }
        assert(s.contains(y));
        let q = choose|q: int| 0 <= q < s.len() && s[q] == y;
        lemma_newer_strict(rows, x as int, y as int);
        if j < k {
            assert(t[j] == s[j]);
            assert(newer(rows, s[j] as int, s[k] as int));
            lemma_newer_strict(rows, x as int, x as int);
        } else if j > k {
            assert(newer(rows, y as int, x as int));
            if q < k {
                assert(s[q] == t[q]);
                assert(newer(rows, t[q] as int, t[k] as int));
                lemma_newer_strict(rows, y as int, y as int);
            } else if q > k {
                assert(newer(rows, x as int, y as int));
            }
        }
    }
}

/// Law: the newest-first listing of an item's closed-trade rows is determined by the
/// history: any two such listings are the same, so the rows that the weekly shift compares
/// are determined too.
pub proof fn lemma_newest_first_unique(
    rows: Seq<PriceRow>,
    name: Seq<char>,
    s: Seq<usize>,
    t: Seq<usize>,
)
    requires
        newest_first(rows, name, s),
        newest_first(rows, name, t),
    ensures
        s == t,
{
    lemma_newest_first_prefix(rows, name, s, t, s.len() as int);
    assert(s =~= t);
}

/// Law: with a strict whitelist, every popular item is whitelisted.
pub proof fn lemma_strict_whitelist_only(
    m: ItemModule,
    rows: Seq<GroupRow>,
    inventory: Seq<String>,
    n: nat,
)
    requires
        m.settings.strict_whitelist,
        n <= rows.len(),
        rows.len() <= usize::MAX,
    ensures
        forall|i: int|
            0 <= i < overlap_of(m, rows, inventory, n).len() ==> has_name(
                m.settings.whitelist@,
                rows[(#[trigger] overlap_of(m, rows, inventory, n)[i]).closed as int].name@,
            ),
    decreases n,
{
    if n > 0 {
        let k = n - 1;
        lemma_strict_whitelist_only(m, rows, inventory, k as nat);
        let rest = overlap_of(m, rows, inventory, k as nat);
        let all = overlap_of(m, rows, inventory, n);
        assert forall|i: int| 0 <= i < all.len() implies has_name(
            m.settings.whitelist@,
            rows[(#[trigger] all[i]).closed as int].name@,
        ) by {
            if i < rest.len() {
                assert(all[i] == rest[i]);
            } else {
                assert(all[i].closed == k);
            }
        }
    }
}

/// Law: every popular item comes with a closed row that passed the filters, and with a sell
/// and a buy row, all three of that same item; and every item is listed once at most.
pub proof fn lemma_overlap_consistent(
    m: ItemModule,
    rows: Seq<GroupRow>,
    inventory: Seq<String>,
    n: nat,
)
    requires
        n <= rows.len(),
        rows.len() <= usize::MAX,
        groups_unique(rows),
    ensures
        forall|i: int|
            0 <= i < overlap_of(m, rows, inventory, n).len() ==> {
                let r = #[trigger] overlap_of(m, rows, inventory, n)[i];
                &&& r.closed < n
                &&& r.sell < rows.len()
                &&& r.buy < rows.len()
                &&& is_popular(m, rows, r.closed as int, inventory)
                &&& rows[r.sell as int].order_type == OrderType::Sell
                &&& rows[r.buy as int].order_type == OrderType::Buy
                &&& rows[r.sell as int].name@ == rows[r.closed as int].name@
                &&& rows[r.buy as int].name@ == rows[r.closed as int].name@
            },
        forall|i: int, j: int|
            0 <= i < j < overlap_of(m, rows, inventory, n).len() ==> rows[overlap_of(
                m,
                rows,
                inventory,
                n,
            )[i].closed as int].name@ != rows[overlap_of(m, rows, inventory, n)[j].closed as int].name@,
    decreases n,
{
    if n > 0 {
        let k = n - 1;
        lemma_overlap_consistent(m, rows, inventory, (k) as nat);
        let name = rows[k].name@;
        lemma_first_group_bounds(rows, name, OrderType::Sell);
        lemma_first_group_bounds(rows, name, OrderType::Buy);
        let rest = overlap_of(m, rows, inventory, k as nat);
        let all = overlap_of(m, rows, inventory, n);
        assert forall|i: int| 0 <= i < rest.len() implies all[i] == rest[i] by {}
        if all.len() > rest.len() {
            assert(all.len() == rest.len() + 1);
            let r = all[rest.len() as int];
            assert(r.closed == k);
            assert forall|i: int| 0 <= i < rest.len() implies rows[rest[i].closed as int].name@
                != name by {
                let c = rest[i].closed as int;
                assert(is_popular(m, rows, c, inventory));
                assert(rows[c].order_type == OrderType::Closed);
                assert(is_popular(m, rows, k, inventory));
                assert(rows[k].order_type == OrderType::Closed);
                assert(c < k);
            }
        } else {
            assert(all == rest);
        }
        assert forall|i: int| 0 <= i < all.len() implies {
            let r = #[trigger] all[i];
            &&& r.closed < n
            &&& r.sell < rows.len()
            &&& r.buy < rows.len()
            &&& is_popular(m, rows, r.closed as int, inventory)
            &&& rows[r.sell as int].order_type == OrderType::Sell
            &&& rows[r.buy as int].order_type == OrderType::Buy
            &&& rows[r.sell as int].name@ == rows[r.closed as int].name@
            &&& rows[r.buy as int].name@ == rows[r.closed as int].name@
        } by {
            if i < rest.len() {
                assert(all[i] == rest[i]);
            }
        }
        assert forall|i: int, j: int| 0 <= i < j < all.len() implies rows[all[i].closed as int].name@
            != rows[all[j].closed as int].name@ by {
            if j < rest.len() {
                assert(all[i] == rest[i]);
                assert(all[j] == rest[j]);
            } else {
                assert(all[i] == rest[i]);
            }
        }
    }
}

proof fn lemma_first_group_is(rows: Seq<GroupRow>, name: Seq<char>, t: OrderType, s: int)
    requires
        groups_unique(rows),
        0 <= s < rows.len(),
        rows[s].name@ == name,
        rows[s].order_type == t,
    ensures
        first_group(rows, name, t) == Some(s),
    decreases rows.len(),
{
    let d = rows.drop_last();
    assert(groups_unique(d)) by {
        assert forall|i: int, j: int| 0 <= i < j < d.len() implies !(d[i].name@ == d[j].name@
            && d[i].order_type == d[j].order_type) by {
            assert(d[i] == rows[i] && d[j] == rows[j]);
        }
    }
    if s < rows.len() - 1 {
        assert(d[s] == rows[s]);
        lemma_first_group_is(d, name, t, s);
    } else {
        lemma_first_group_bounds(d, name, t);
        if let Some(j) = first_group(d, name, t) {
            assert(d[j] == rows[j]);
            assert(false);
        }
    }
}

proof fn lemma_overlap_prefix(
    m: ItemModule,
    rows: Seq<GroupRow>,
    inventory: Seq<String>,
    n1: nat,
    n2: nat,
    i: int,
)
    requires
        n1 <= n2,
        0 <= i < overlap_of(m, rows, inventory, n1).len(),
    ensures
        i < overlap_of(m, rows, inventory, n2).len(),
        overlap_of(m, rows, inventory, n2)[i] == overlap_of(m, rows, inventory, n1)[i],
    decreases n2,
{
    if n2 > n1 {
        lemma_overlap_prefix(m, rows, inventory, n1, (n2 - 1) as nat, i);
    }
}

/// Law: without a strict whitelist nothing that passes both filters is lost: a closed row of
/// an item that trades enough or that I hold, and that is attractive, held or whitelisted,
/// appears among the popular items, with the sell and the buy row of the same item, whenever
/// the history holds both.
pub proof fn lemma_overlap_complete(
    m: ItemModule,
    rows: Seq<GroupRow>,
    inventory: Seq<String>,
    k: int,
    s: int,
    b: int,
)
    requires
        !m.settings.strict_whitelist,
        groups_unique(rows),
        rows.len() <= usize::MAX,
        0 <= k < rows.len(),
        0 <= s < rows.len(),
        0 <= b < rows.len(),
        rows[k].order_type == OrderType::Closed,
        rows[k].liquid || has_name(inventory, rows[k].name@),
        rows[k].attractive || has_name(inventory, rows[k].name@) || has_name(
            m.settings.whitelist@,
            rows[k].name@,
        ),
        rows[s].order_type == OrderType::Sell,
        rows[s].name@ == rows[k].name@,
        rows[b].order_type == OrderType::Buy,
        rows[b].name@ == rows[k].name@,
    ensures
        exists|i: int|
            0 <= i < overlap_of(m, rows, inventory, rows.len()).len() && #[trigger] overlap_of(
                m,
                rows,
                inventory,
                rows.len(),
            )[i] == (OverlapRow { closed: k as usize, sell: s as usize, buy: b as usize }),
{
    let name = rows[k].name@;
    lemma_first_group_is(rows, name, OrderType::Sell, s);
    lemma_first_group_is(rows, name, OrderType::Buy, b);
    let n = (k + 1) as nat;
    let rest = overlap_of(m, rows, inventory, k as nat);
    assert(overlap_of(m, rows, inventory, n) == rest.push(
        OverlapRow { closed: k as usize, sell: s as usize, buy: b as usize },
    ));
    let i = rest.len() as int;
    lemma_overlap_prefix(m, rows, inventory, n, rows.len(), i);
}

/// Law: every popular item passed both filters: its closed row is of an item that trades
/// enough or that I hold, and, with a strict whitelist, the item is whitelisted; without one,
/// it is attractive, held or whitelisted.
pub proof fn lemma_overlap_sound(m: ItemModule, rows: Seq<GroupRow>, inventory: Seq<String>, i: int)
    requires
        groups_unique(rows),
        rows.len() <= usize::MAX,
        0 <= i < overlap_of(m, rows, inventory, rows.len()).len(),
    ensures
        ({
            let r = rows[overlap_of(m, rows, inventory, rows.len())[i].closed as int];
            let held = has_name(inventory, r.name@);
            let listed = has_name(m.settings.whitelist@, r.name@);
            &&& r.order_type == OrderType::Closed
            &&& r.liquid || held
            &&& m.settings.strict_whitelist ==> listed
            &&& !m.settings.strict_whitelist ==> r.attractive || held || listed
        }),
{
    lemma_overlap_consistent(m, rows, inventory, rows.len());
    let o = overlap_of(m, rows, inventory, rows.len())[i];
    assert(is_popular(m, rows, o.closed as int, inventory));
}

} // verus!
