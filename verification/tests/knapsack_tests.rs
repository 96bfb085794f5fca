use live_scraper::knapsack::{knapsack, knapsack_fits_within};

#[test]
fn knapsack_picks_best_pair_within_budget() {
    let items = vec![(10i64, 5i64, "a"), (20, 10, "b"), (30, 15, "c")];
    let (best, selected, unselected) = knapsack(items, 50);
    assert_eq!(best, 25);
    // chosen from the last index down
    assert_eq!(selected, vec![(30, 15, "c"), (20, 10, "b")]);
    assert_eq!(unselected, vec![(10, 5, "a")]);
}

#[test]
fn knapsack_zero_budget_takes_nothing() {
    let items = vec![(1i64, 7i64, 0usize), (2, 9, 1)];
    let (best, selected, unselected) = knapsack(items, 0);
    assert_eq!(best, 0);
    assert!(selected.is_empty());
    assert_eq!(unselected, vec![(2, 9, 1), (1, 7, 0)]);
}

#[test]
fn knapsack_empty_input() {
    let items: Vec<(i64, i64, usize)> = vec![];
    let (best, selected, unselected) = knapsack(items, 100);
    assert_eq!(best, 0);
    assert!(selected.is_empty());
    assert!(unselected.is_empty());
}

#[test]
fn knapsack_partition_covers_every_candidate() {
    let items = vec![(5i64, 3i64, 0usize), (4, 4, 1), (6, 5, 2), (3, 1, 3), (7, 8, 4)];
    let (best, selected, unselected) = knapsack(items.clone(), 12);
    assert_eq!(selected.len() + unselected.len(), items.len());
    let mut all: Vec<(i64, i64, usize)> = selected.iter().chain(unselected.iter()).cloned().collect();
    all.sort_by_key(|c| c.2);
    assert_eq!(all, items);
    // the chosen ones earn the reported profit within the budget
    let value: i64 = selected.iter().map(|c| c.1).sum();
    let weight: i64 = selected.iter().map(|c| c.0).sum();
    assert_eq!(value, best);
    assert!(weight <= 12);
    // and nothing else within the budget does better (all subsets)
    for mask in 0u32..(1 << items.len()) {
        let mut w = 0;
        let mut v = 0;
        for (k, it) in items.iter().enumerate() {
            if mask & (1 << k) != 0 {
                w += it.0;
                v += it.1;
            }
        }
        if w <= 12 {
            assert!(v <= best);
        }
    }
    assert_eq!(best, 12);
}

#[test]
fn knapsack_free_profitable_candidate_is_undercounted() {
    // capacity zero is worth nothing in the table, so a free candidate with a profit
    // cannot be combined with a paid one that fills the budget
    let items = vec![(0i64, 5i64, "free"), (1, 5, "paid")];
    let (best, selected, _unselected) = knapsack(items, 1);
    assert_eq!(best, 5);
    assert_eq!(selected.len(), 1);
}

#[test]
fn knapsack_negative_profit_is_left_out() {
    let items = vec![(1i64, -4i64, 'x'), (2, 6, 'y')];
    let (best, selected, unselected) = knapsack(items, 3);
    assert_eq!(best, 6);
    assert_eq!(selected, vec![(2, 6, 'y')]);
    assert_eq!(unselected, vec![(1, -4, 'x')]);
}

#[test]
fn knapsack_table_fits_or_not() {
    let small = vec![(1i64, 5i64, 0usize), (2, 7, 1)];
    assert!(knapsack_fits_within(&small, 3));
    // taking both profits together leaves i64
    let big = vec![(1i64, i64::MAX, 0usize), (1, 1, 1)];
    assert!(!knapsack_fits_within(&big, 2));
    // with room for one only, no sum is formed that overflows
    assert!(knapsack_fits_within(&big, 1));
}
