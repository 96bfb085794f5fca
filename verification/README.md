# live_scraper

The decision logic of a market scraper's item module, as a Verus library: which items to
look at, what to bid for an item, what to ask for stock, which buy orders win a budget, and
which orders to clear.

- `src/model.rs`: the plain values the decisions read (settings, my orders, live orders,
  inventory, price averages).
- `src/orders.rs`: my order for an item; the live market without my own orders (the other
  users' bids, best first, and asks, cheapest first; best bid, cheapest ask, spread).
- `src/knapsack.rs`: the budget choice among buy orders, with its laws (every order lands in
  one list, the chosen ones fit the budget and earn the reported profit, and no other choice
  earns more when no free order has a profit).
- `src/buying.rs`, `src/selling.rs`: the buy and sell decisions for one item, as actions.
- `src/overlap.rs`: the popular items of the price history, and the rows its weekly price
  shift compares.
- `src/stock.rs`: the course of a stock run (settled once, then stepped from state and event
  to next state and action) and of a bulk deletion, with their laws.
- `app/`: the service loop around the library: frames in, actions out, and the float
  arithmetic on averages.
