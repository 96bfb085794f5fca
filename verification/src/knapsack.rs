//! Budgeted choice of buy orders: a 0/1 knapsack over (price, profit) pairs.
use vstd::prelude::*;
use vstd::multiset::Multiset;

verus! {

/// One candidate buy order: (price, profit, tag). The price is the weight that counts
/// against the budget, the profit the value; the tag names the order and is carried along.
pub type Candidate<T> = (i64, i64, T);

pub open spec fn max_int(a: int, b: int) -> int {
    if a >= b { a } else { b }
}

/// The best profit that the first `i` candidates can reach within capacity `w`,
/// as the table of the dynamic program has it: capacity zero (or less) is worth nothing,
/// and otherwise the `i`-th candidate is either left out or taken on top of the best
/// choice for the capacity that remains.
pub open spec fn best<T>(items: Seq<Candidate<T>>, i: nat, w: int) -> int
    decreases i,
{
    if i == 0 || w <= 0 {
        0
    } else {
        let wt = items[i - 1].0 as int;
        let v = items[i - 1].1 as int;
        if wt <= w {
            max_int(best(items, (i - 1) as nat, w), best(items, (i - 1) as nat, w - wt) + v)
        } else {
            best(items, (i - 1) as nat, w)
        }
    }
}

/// Which of the first `i` candidates the walk back through the table takes, for capacity `w`:
/// candidate `i - 1` is taken exactly when it changes the best profit.
pub open spec fn chosen<T>(items: Seq<Candidate<T>>, i: nat, w: int) -> Seq<bool>
    decreases i,
{
    if i == 0 {
        Seq::empty()
    } else if best(items, i, w) != best(items, (i - 1) as nat, w) {
        chosen(items, (i - 1) as nat, w - items[i - 1].0).push(true)
    } else {
        chosen(items, (i - 1) as nat, w).push(false)
    }
}

/// The candidates whose mark in `mask` equals `flag`, from the last index down to the first.
pub open spec fn picks<T>(items: Seq<Candidate<T>>, mask: Seq<bool>, flag: bool) -> Seq<Candidate<T>>
    decreases mask.len(),
{
    if mask.len() == 0 {
        Seq::empty()
    } else {
        let k = mask.len() - 1;
        let rest = picks(items, mask.drop_last(), flag);
        if mask[k] == flag {
            seq![items[k]] + rest
        } else {
            rest
        }
    }
}

/// Total price of the candidates marked in `mask`.
pub open spec fn total_weight<T>(items: Seq<Candidate<T>>, mask: Seq<bool>) -> int
    decreases mask.len(),
{
    if mask.len() == 0 {
        0
    } else {
        let k = mask.len() - 1;
        total_weight(items, mask.drop_last()) + if mask[k] { items[k].0 as int } else { 0 }
    }
}

/// Total profit of the candidates marked in `mask`.
pub open spec fn total_value<T>(items: Seq<Candidate<T>>, mask: Seq<bool>) -> int
    decreases mask.len(),
{
    if mask.len() == 0 {
        0
    } else {
        let k = mask.len() - 1;
        total_value(items, mask.drop_last()) + if mask[k] { items[k].1 as int } else { 0 }
    }
}

/// The inputs on which the table can be built: a budget that is not negative and fits an index,
/// and, where there is any capacity to fill, no negative prices.
pub open spec fn knapsack_input_ok<T>(items: Seq<Candidate<T>>, max_weight: i64) -> bool {
    &&& 0 <= max_weight
    &&& max_weight as int + 1 <= usize::MAX as int
    &&& max_weight >= 1 ==> forall|k: int| 0 <= k < items.len() ==> items[k].0 >= 0
}

/// No sum that the table forms leaves the range of `i64`.
pub open spec fn knapsack_fits<T>(items: Seq<Candidate<T>>, max_weight: i64) -> bool {
    forall|i: int, w: int|
        0 <= i < items.len() && 1 <= w <= max_weight && items[i].0 <= w ==> #[trigger] best(
            items,
            i as nat,
            w - items[i].0,
        ) + items[i].1 <= i64::MAX
}

proof fn lemma_best_nonneg<T>(items: Seq<Candidate<T>>, i: nat, w: int)
    ensures
        best(items, i, w) >= 0,
    decreases i,
{
    if i > 0 {
        lemma_best_nonneg(items, (i - 1) as nat, w);
    }
}

proof fn lemma_best_bounded<T>(items: Seq<Candidate<T>>, i: nat, w: int, max_weight: i64)
    requires
        i <= items.len(),
        w <= max_weight,
        knapsack_input_ok(items, max_weight),
        knapsack_fits(items, max_weight),
    ensures
        0 <= best(items, i, w) <= i64::MAX,
    decreases i,
{
    lemma_best_nonneg(items, i, w);
    if i > 0 && w > 0 {
        lemma_best_bounded(items, (i - 1) as nat, w, max_weight);
        let wt = items[i - 1].0 as int;
        if wt <= w {
            assert(best(items, (i - 1) as nat, w - wt) + items[i - 1].1 <= i64::MAX);
        }
    }
}

/// Walking back from `best(i, w)` along `chosen` collects exactly that profit,
/// and never more price than the capacity.
pub proof fn lemma_chosen_sums<T>(items: Seq<Candidate<T>>, i: nat, w: int)
    requires
        i <= items.len(),
    ensures
        chosen(items, i, w).len() == i,
        total_value(items, chosen(items, i, w)) == best(items, i, w),
        w >= 0 ==> total_weight(items, chosen(items, i, w)) <= w,
    decreases i,
{
    if i > 0 {
        let m = chosen(items, i, w);
        let wt = items[i - 1].0 as int;
        if best(items, i, w) != best(items, (i - 1) as nat, w) {
            lemma_chosen_sums(items, (i - 1) as nat, w - wt);
            assert(w > 0 && wt <= w);
            assert(m.drop_last() == chosen(items, (i - 1) as nat, w - wt));
        } else {
            lemma_chosen_sums(items, (i - 1) as nat, w);
            assert(m.drop_last() == chosen(items, (i - 1) as nat, w));
        }
    }
}

proof fn lemma_weight_nonneg<T>(items: Seq<Candidate<T>>, mask: Seq<bool>)
    requires
        mask.len() <= items.len(),
        forall|k: int| 0 <= k < items.len() ==> items[k].0 >= 0,
    ensures
        total_weight(items, mask) >= 0,
    decreases mask.len(),
{
    if mask.len() > 0 {
        lemma_weight_nonneg(items, mask.drop_last());
    }
}

proof fn lemma_free_value<T>(items: Seq<Candidate<T>>, mask: Seq<bool>)
    requires
        mask.len() <= items.len(),
        forall|k: int| 0 <= k < items.len() ==> items[k].0 >= 0,
        forall|k: int| 0 <= k < items.len() && items[k].0 == 0 ==> items[k].1 <= 0,
        total_weight(items, mask) <= 0,
    ensures
        total_value(items, mask) <= 0,
    decreases mask.len(),
{
    if mask.len() > 0 {
        lemma_weight_nonneg(items, mask.drop_last());
        lemma_free_value(items, mask.drop_last());
    }
}

proof fn lemma_best_is_optimal<T>(items: Seq<Candidate<T>>, mask: Seq<bool>, w: int)
    requires
        mask.len() <= items.len(),
        w >= 0,
        forall|k: int| 0 <= k < items.len() ==> items[k].0 >= 0,
        forall|k: int| 0 <= k < items.len() && items[k].0 == 0 ==> items[k].1 <= 0,
        total_weight(items, mask) <= w,
    ensures
        total_value(items, mask) <= best(items, mask.len(), w),
    decreases mask.len(),
{
    let i = mask.len();
    if i == 0 {
    } else if w == 0 {
        lemma_free_value(items, mask);
    } else {
        let rest = mask.drop_last();
        let wt = items[i - 1].0 as int;
        lemma_weight_nonneg(items, rest);
        if mask[i - 1] {
            lemma_best_is_optimal(items, rest, w - wt);
        } else {
            lemma_best_is_optimal(items, rest, w);
        }
    }
}

/// The chosen candidates, walked back from the last to the first: `picks` of the
/// first `i` marks equals `picks` of the whole mask restricted accordingly.
proof fn lemma_picks_push<T>(items: Seq<Candidate<T>>, mask: Seq<bool>, b: bool, flag: bool)
    requires
        mask.len() < items.len(),
    ensures
        picks(items, mask.push(b), flag) == (if b == flag {
            seq![items[mask.len() as int]] + picks(items, mask, flag)
        } else {
            picks(items, mask, flag)
        }),
{
    assert(mask.push(b).drop_last() == mask);
}

/// Fills the table of best profits and walks back through it: returns the best profit
/// within `max_weight`, the chosen candidates and the others, both from the last index down.
pub fn knapsack<T: Copy>(items: Vec<Candidate<T>>, max_weight: i64) -> (res: (i64, Vec<Candidate<T>>, Vec<Candidate<T>>))
    requires
        knapsack_input_ok(items@, max_weight),
        knapsack_fits(items@, max_weight),
    ensures
        res.0 == best(items@, items@.len(), max_weight as int),
        res.1@ == picks(items@, chosen(items@, items@.len(), max_weight as int), true),
        res.2@ == picks(items@, chosen(items@, items@.len(), max_weight as int), false),
{
    let n = items.len();
    let cap = max_weight as usize;
    let ghost s = items@;
    // dp[i][w] is the best profit of the first i candidates within capacity w
    let mut dp: Vec<Vec<i64>> = Vec::new();
    let mut row0: Vec<i64> = Vec::new();
    let mut w0: usize = 0;
    while w0 <= cap
        invariant
            cap == max_weight as int,
            cap + 1 <= usize::MAX,
            w0 <= cap + 1,
            row0@.len() == w0,
            forall|w: int| 0 <= w < w0 ==> row0@[w] == 0,
        decreases cap + 1 - w0,
    {
        row0.push(0);
        w0 = w0 + 1;
    }
    dp.push(row0);
    let mut i: usize = 0;
    while i < n
        invariant
            s == items@,
            n == s.len(),
            cap == max_weight as int,
            knapsack_input_ok(s, max_weight),
            knapsack_fits(s, max_weight),
            0 <= i <= n,
            dp@.len() == i + 1,
            forall|k: int| 0 <= k <= i ==> (#[trigger] dp@[k])@.len() == cap + 1,
            forall|k: int, w: int|
                0 <= k <= i && 0 <= w <= cap ==> #[trigger] dp@[k]@[w] == best(s, k as nat, w),
        decreases n - i,
    {
        let (weight, value) = (items[i].0, items[i].1);
        let mut row: Vec<i64> = Vec::new();
        row.push(0);
        let mut wu: usize = 1;
        while wu <= cap
            invariant
                s == items@,
                n == s.len(),
                cap == max_weight as int,
                knapsack_input_ok(s, max_weight),
                knapsack_fits(s, max_weight),
                0 <= i < n,
                dp@.len() == i + 1,
                forall|k: int| 0 <= k <= i ==> (#[trigger] dp@[k])@.len() == cap + 1,
                forall|k: int, w2: int|
                    0 <= k <= i && 0 <= w2 <= cap ==> #[trigger] dp@[k]@[w2] == best(
                        s,
                        k as nat,
                        w2,
                    ),
                weight == s[i as int].0,
                value == s[i as int].1,
                1 <= wu <= cap + 1,
                row@.len() == wu,
                forall|w2: int| 0 <= w2 < wu ==> row@[w2] == best(s, (i + 1) as nat, w2),
            decreases cap + 1 - wu,
        {
            let w = wu as i64;
            let prev = &dp[i];
            proof {
                lemma_best_bounded(s, i as nat, w as int, max_weight);
                if weight <= w {
                    lemma_best_bounded(s, i as nat, (w - weight) as int, max_weight);
                }
            }
            if weight <= w {
                proof {
                    assert(weight >= 0);
                    let ii: int = i as int;
                    let ww: int = w as int;
                    assert(best(s, ii as nat, ww - s[ii].0) + s[ii].1 <= i64::MAX);
                    lemma_best_nonneg(s, i as nat, w - weight);
                }
                let keep = prev[wu];
                let take = prev[(w - weight) as usize] + value;
                let v = if keep >= take { keep } else { take };
                row.push(v);
            } else {
                row.push(prev[wu]);
            }
            wu = wu + 1;
        }
        dp.push(row);
        proof {
            assert forall|k: int, w2: int|
                0 <= k <= i + 1 && 0 <= w2 <= cap implies #[trigger] dp@[k]@[w2] == best(
                s,
                k as nat,
                w2,
            ) by {
                if k == i + 1 {
                    assert(dp@[k] == row);
                }
            }
        }
        i = i + 1;
    }
    let mut selected: Vec<Candidate<T>> = Vec::new();
    let mut unselected: Vec<Candidate<T>> = Vec::new();
    let mut w: i64 = max_weight;
    let mut k: usize = n;
    while k > 0
        invariant
            s == items@,
            n == s.len(),
            cap == max_weight as int,
            knapsack_input_ok(s, max_weight),
            dp@.len() == n + 1,
            forall|j: int| 0 <= j <= n ==> (#[trigger] dp@[j])@.len() == cap + 1,
            forall|j: int, w2: int|
                0 <= j <= n && 0 <= w2 <= cap ==> #[trigger] dp@[j]@[w2] == best(
                    s,
                    j as nat,
                    w2,
                ),
            k <= n,
            0 <= w <= max_weight,
            picks(s, chosen(s, n as nat, max_weight as int), true) == selected@ + picks(
                s,
                chosen(s, k as nat, w as int),
                true,
            ),
            picks(s, chosen(s, n as nat, max_weight as int), false) == unselected@ + picks(
                s,
                chosen(s, k as nat, w as int),
                false,
            ),
        decreases k,
    {
        let ghost m = chosen(s, (k - 1) as nat, w as int);
        let ghost m2 = chosen(s, (k - 1) as nat, (w - s[k - 1].0) as int);
        proof {
            lemma_chosen_sums(s, (k - 1) as nat, w as int);
            lemma_chosen_sums(s, (k - 1) as nat, (w - s[k - 1].0) as int);
        }
        let it = items[k - 1];
        if dp[k][w as usize] != dp[k - 1][w as usize] {
            proof {
                assert(w > 0 && s[k - 1].0 <= w);
                lemma_picks_push(s, m2, true, true);
                lemma_picks_push(s, m2, true, false);
                assert(chosen(s, k as nat, w as int) == m2.push(true));
            }
            selected.push(it);
            w = w - it.0;
            proof {
                assert(selected@ + picks(s, m2, true) == (selected@.drop_last() + seq![
                    s[k - 1],
                ] + picks(s, m2, true)));
                assert(selected@.drop_last() + (seq![s[k - 1]] + picks(s, m2, true))
                    == selected@.drop_last() + seq![s[k - 1]] + picks(s, m2, true));
            }
        } else {
            proof {
                lemma_picks_push(s, m, false, true);
                lemma_picks_push(s, m, false, false);
                assert(chosen(s, k as nat, w as int) == m.push(false));
            }
            unselected.push(it);
            proof {
                assert(unselected@.drop_last() + (seq![s[k - 1]] + picks(s, m, false))
                    == unselected@.drop_last() + seq![s[k - 1]] + picks(s, m, false));
            }
        }
        k = k - 1;
    }
    proof {
        assert(chosen(s, 0, w as int) == Seq::<bool>::empty());
        assert(selected@ + Seq::<Candidate<T>>::empty() == selected@);
        assert(unselected@ + Seq::<Candidate<T>>::empty() == unselected@);
    }
    (dp[n][cap], selected, unselected)
}


/// The sums that the table forms for the first `n` candidates stay within `i64`.
pub open spec fn fits_below<T>(items: Seq<Candidate<T>>, max_weight: i64, n: int) -> bool {
    forall|i: int, w: int|
        0 <= i < n && 1 <= w <= max_weight && items[i].0 <= w ==> #[trigger] best(
            items,
            i as nat,
            w - items[i].0,
        ) + items[i].1 <= i64::MAX
}

proof fn lemma_best_bounded_below<T>(items: Seq<Candidate<T>>, i: nat, w: int, max_weight: i64)
    requires
        i <= items.len(),
        w <= max_weight,
        knapsack_input_ok(items, max_weight),
        fits_below(items, max_weight, i as int),
    ensures
        0 <= best(items, i, w) <= i64::MAX,
    decreases i,
{
    lemma_best_nonneg(items, i, w);
    if i > 0 && w > 0 {
        lemma_best_bounded_below(items, (i - 1) as nat, w, max_weight);
        let wt = items[i - 1].0 as int;
        if wt <= w {
            lemma_best_bounded_below(items, (i - 1) as nat, w - wt, max_weight);
            assert(best(items, (i - 1) as nat, w - wt) + items[i - 1].1 <= i64::MAX);
        }
    }
}

/// Whether the table of the budget choice can be built in `i64` (see `knapsack_fits`): it
/// builds the table row by row and stops at the first sum that would leave the range.
pub fn knapsack_fits_within<T>(items: &Vec<Candidate<T>>, max_weight: i64) -> (res: bool)
    requires
        knapsack_input_ok(items@, max_weight),
    ensures
        res == knapsack_fits(items@, max_weight),
{
    let n = items.len();
    let cap = max_weight as usize;
    let ghost s = items@;
    let mut prev: Vec<i64> = Vec::new();
    let mut w0: usize = 0;
    while w0 <= cap
        invariant
            cap == max_weight as int,
            cap + 1 <= usize::MAX,
            w0 <= cap + 1,
            prev@.len() == w0,
            forall|w: int| 0 <= w < w0 ==> prev@[w] == 0,
        decreases cap + 1 - w0,
    {
        prev.push(0);
        w0 = w0 + 1;
    }
    let mut i: usize = 0;
    while i < n
        invariant
            s == items@,
            n == s.len(),
            cap == max_weight as int,
            knapsack_input_ok(s, max_weight),
            0 <= i <= n,
            fits_below(s, max_weight, i as int),
            prev@.len() == cap + 1,
            forall|w: int| 0 <= w <= cap ==> #[trigger] prev@[w] == best(s, i as nat, w),
        decreases n - i,
    {
        let (weight, value) = (items[i].0, items[i].1);
        let mut row: Vec<i64> = Vec::new();
        row.push(0);
        let mut wu: usize = 1;
        while wu <= cap
            invariant
                s == items@,
                n == s.len(),
                cap == max_weight as int,
                knapsack_input_ok(s, max_weight),
                0 <= i < n,
                fits_below(s, max_weight, i as int),
                prev@.len() == cap + 1,
                forall|w: int| 0 <= w <= cap ==> #[trigger] prev@[w] == best(s, i as nat, w),
                weight == s[i as int].0,
                value == s[i as int].1,
                1 <= wu <= cap + 1,
                row@.len() == wu,
                forall|w2: int| 0 <= w2 < wu ==> row@[w2] == best(s, (i + 1) as nat, w2),
                forall|w2: int|
                    1 <= w2 < wu && weight <= w2 ==> #[trigger] best(s, i as nat, w2 - weight) + value
                        <= i64::MAX,
            decreases cap + 1 - wu,
        {
            let w = wu as i64;
            proof {
                lemma_best_bounded_below(s, i as nat, w as int, max_weight);
            }
            if weight <= w {
                proof {
                    assert(weight >= 0);
                    lemma_best_bounded_below(s, i as nat, (w - weight) as int, max_weight);
                }
                let keep = prev[wu];
                let before = prev[(w - weight) as usize];
                if value > 0 && before > i64::MAX - value {
                    proof {
                        let ii: int = i as int;
                        let ww: int = w as int;
                        assert(best(s, ii as nat, ww - s[ii].0) + s[ii].1 > i64::MAX);
                    }
                    return false;
                }
                let take = before + value;
                let v = if keep >= take {
                    keep
                } else {
                    take
                };
                row.push(v);
            } else {
                row.push(prev[wu]);
            }
            wu = wu + 1;
        }
        proof {
            assert forall|ii: int, w: int|
                0 <= ii < i + 1 && 1 <= w <= max_weight && s[ii].0 <= w implies #[trigger] best(
                s,
                ii as nat,
                w - s[ii].0,
            ) + s[ii].1 <= i64::MAX by {
                if ii == i {
                    assert(best(s, i as nat, w - weight) + value <= i64::MAX);
                }
            }
        }
        prev = row;
        i = i + 1;
    }
    true
}


/// Sum of the profits of a list of candidates.
pub open spec fn sum_values<T>(s: Seq<Candidate<T>>) -> int
    decreases s.len(),
{
    if s.len() == 0 {
        0
    } else {
        s[0].1 + sum_values(s.drop_first())
    }
}

/// Sum of the prices of a list of candidates.
pub open spec fn sum_weights<T>(s: Seq<Candidate<T>>) -> int
    decreases s.len(),
{
    if s.len() == 0 {
        0
    } else {
        s[0].0 + sum_weights(s.drop_first())
    }
}

pub proof fn lemma_picks_sums<T>(items: Seq<Candidate<T>>, mask: Seq<bool>)
    requires
        mask.len() <= items.len(),
    ensures
        sum_values(picks(items, mask, true)) == total_value(items, mask),
        sum_weights(picks(items, mask, true)) == total_weight(items, mask),
    decreases mask.len(),
{
    if mask.len() > 0 {
        let k = mask.len() - 1;
        lemma_picks_sums(items, mask.drop_last());
        if mask[k] {
            let p = seq![items[k]] + picks(items, mask.drop_last(), true);
            assert(p.drop_first() == picks(items, mask.drop_last(), true));
        }
    }
}

proof fn lemma_picks_multiset<T>(items: Seq<Candidate<T>>, mask: Seq<bool>)
    requires
        mask.len() <= items.len(),
    ensures
        picks(items, mask, true).to_multiset().add(picks(items, mask, false).to_multiset())
            == items.subrange(0, mask.len() as int).to_multiset(),
    decreases mask.len(),
{
    broadcast use vstd::multiset::group_multiset_axioms;
    broadcast use vstd::seq_lib::lemma_multiset_commutative;

    let k = mask.len() as int;
    if k == 0 {
        assert(items.subrange(0, 0) == Seq::<Candidate<T>>::empty());
        picks(items, mask, true).to_multiset_ensures();
        picks(items, mask, false).to_multiset_ensures();
        items.subrange(0, 0).to_multiset_ensures();
        vstd::multiset::lemma_multiset_empty_len(picks(items, mask, true).to_multiset());
        vstd::multiset::lemma_multiset_empty_len(picks(items, mask, false).to_multiset());
        vstd::multiset::lemma_multiset_empty_len(items.subrange(0, 0).to_multiset());
        assert(Multiset::<Candidate<T>>::empty().add(Multiset::<Candidate<T>>::empty())
            =~= Multiset::<Candidate<T>>::empty());
    } else {
        let rest = mask.drop_last();
        lemma_picks_multiset(items, rest);
        let x = items[k - 1];
        assert(items.subrange(0, k) == items.subrange(0, k - 1).push(x));
        items.subrange(0, k - 1).to_multiset_ensures();
        let one = seq![x];
        assert(one.to_multiset() =~= Multiset::<Candidate<T>>::empty().insert(x)) by {
            Seq::<Candidate<T>>::empty().to_multiset_ensures();
            assert(Seq::<Candidate<T>>::empty().push(x) == one);
            Seq::<Candidate<T>>::empty().to_multiset_ensures();
            vstd::multiset::lemma_multiset_empty_len(Seq::<Candidate<T>>::empty().to_multiset());
        }
        let pt = picks(items, rest, true);
        let pf = picks(items, rest, false);
        if mask[k - 1] {
            vstd::seq_lib::lemma_multiset_commutative(one, pt);
            assert(picks(items, mask, true).to_multiset().add(pf.to_multiset()) =~= pt.to_multiset().add(
                pf.to_multiset(),
            ).insert(x));
        } else {
            vstd::seq_lib::lemma_multiset_commutative(one, pf);
            assert(pt.to_multiset().add(picks(items, mask, false).to_multiset()) =~= pt.to_multiset().add(
                pf.to_multiset(),
            ).insert(x));
        }
    }
}

/// Every candidate in a list of picks is one whose mark equals the flag.
pub proof fn lemma_picks_from_mask<T>(items: Seq<Candidate<T>>, mask: Seq<bool>, flag: bool, i: int)
    requires
        mask.len() <= items.len(),
        0 <= i < picks(items, mask, flag).len(),
    ensures
        exists|k: int|
            0 <= k < mask.len() && mask[k] == flag && picks(items, mask, flag)[i] == items[k],
    decreases mask.len(),
{
    let k = mask.len() - 1;
    let d = mask.drop_last();
    let rest = picks(items, d, flag);
    if mask[k] == flag && i == 0 {
        assert(picks(items, mask, flag)[0] == items[k]);
    } else {
        let j = if mask[k] == flag {
            i - 1
        } else {
            i
        };
        assert(picks(items, mask, flag)[i] == rest[j]);
        lemma_picks_from_mask(items, d, flag, j);
        let q = choose|q: int| 0 <= q < d.len() && d[q] == flag && rest[j] == items[q];
        assert(mask[q] == d[q]);
    }
}

/// Law: every candidate handed to the knapsack comes back in exactly one of its two lists,
/// the chosen ones or the others; together they hold the input, each candidate as often.
pub proof fn lemma_knapsack_partition<T>(items: Seq<Candidate<T>>, max_weight: i64)
    ensures
        picks(items, chosen(items, items.len(), max_weight as int), true).to_multiset().add(
            picks(items, chosen(items, items.len(), max_weight as int), false).to_multiset(),
        ) == items.to_multiset(),
        picks(items, chosen(items, items.len(), max_weight as int), true).len() + picks(
            items,
            chosen(items, items.len(), max_weight as int),
            false,
        ).len() == items.len(),
{
    lemma_chosen_sums(items, items.len(), max_weight as int);
    let m = chosen(items, items.len(), max_weight as int);
    lemma_picks_multiset(items, m);
    assert(items.subrange(0, items.len() as int) == items);
    broadcast use vstd::multiset::group_multiset_axioms;
    let pt = picks(items, m, true);
    let pf = picks(items, m, false);
    pt.to_multiset_ensures();
    pf.to_multiset_ensures();
    items.to_multiset_ensures();
}

/// Law: the chosen candidates earn exactly the profit that the knapsack reports,
/// and their prices together stay within the budget.
pub proof fn lemma_knapsack_choice_within_budget<T>(items: Seq<Candidate<T>>, max_weight: i64)
    requires
        max_weight >= 0,
    ensures
        sum_values(picks(items, chosen(items, items.len(), max_weight as int), true)) == best(
            items,
            items.len(),
            max_weight as int,
        ),
        sum_weights(picks(items, chosen(items, items.len(), max_weight as int), true))
            <= max_weight,
{
    lemma_chosen_sums(items, items.len(), max_weight as int);
    lemma_picks_sums(items, chosen(items, items.len(), max_weight as int));
}

/// Law: no choice of candidates within the budget earns more than the knapsack reports,
/// provided prices are not negative and no free (zero-priced) candidate has a positive profit.
/// (With a free profitable candidate the table, which gives capacity zero no worth, can
/// fall short: prices 0 and 1, profits 5 and 5, budget 1 give 5, not 10.)
pub proof fn lemma_knapsack_optimal<T>(items: Seq<Candidate<T>>, max_weight: i64, mask: Seq<bool>)
    requires
        max_weight >= 0,
        mask.len() == items.len(),
        forall|k: int| 0 <= k < items.len() ==> items[k].0 >= 0,
        forall|k: int| 0 <= k < items.len() && items[k].0 == 0 ==> items[k].1 <= 0,
        total_weight(items, mask) <= max_weight,
    ensures
        total_value(items, mask) <= best(items, items.len(), max_weight as int),
{
    lemma_best_is_optimal(items, mask, max_weight as int);
}

} // verus!
