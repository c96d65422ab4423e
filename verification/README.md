# ree_cookie

An exchange canister on which a game is played. Gamers register with a Bitcoin transaction that
pays a fee into the exchange's pool, claim cookies from time to time, and withdraw them at the end.

`src/` is the library, verified with Verus:

- `game`: the rules of the game, claims and withdrawals.
- `state`: the chain of pool states; what transactions are signed, finalized and undone.
- `tx`: a transaction from the request to the record that is kept of it.
- `blocks`, `reorg`: what a new block does.
- `exchange`: set-up, queries, claims and guards.
- `memory`: what is kept in stable memory.
- `coin`, `utxo`, `principal`, `keymap`, `text`, `clock`, `errors`: the values that these speak of.
- `laws`: what holds of the exchange as a whole.

`app/` is the canister: its entry points, the stored form of the state, and the services that a
deployment installs for signatures and for news of chain reorganisations.

`tests/` run the library with the outside crates linked.
