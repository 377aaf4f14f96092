# wynd-lsd-hub

The rules of a liquid staking hub, written and proved in Verus.

Native tokens are bonded to a weighted set of validators. Whoever joins the pool
gets shares of it, issued by a token contract of its own; whoever leaves the pool
burns shares and gets a claim, which is paid once the chain has released the
stake. At the start of every epoch the rewards are withdrawn, the treasury gets
its commission, and the tokens at hand are set against the claims: a surplus is
delegated, what is missing is undelegated.

- `src/` is the library. `contract` holds the entry points, `execute` the calls
  that change the state, `reply` and `settlement` what happens with the rewards,
  `query` the answers, `migration` the older form of the books. `hub`, `supply`
  and `state` are the state itself, `split` and `stakes` the arithmetic of stakes,
  `decimal`, `text` and `order` what they are built from. `payload` and `payment`
  are the edges to the CosmWasm crates. `laws` states what holds of the hub as a
  whole.
- `tests/` runs the library on concrete values.
- `app/` is the contract around it: storage, queries, and the messages as they come
  over the wire.

Storage and queries are not part of the library. It takes what the chain said as
arguments, errors included, and returns what the chain is asked to do. Where a sum
would not fit or a price would not exist, a function says so in its `requires`.
