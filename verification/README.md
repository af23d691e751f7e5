# QuorumCredit

A lending contract: a borrower gets a microloan when enough people stake tokens behind it. A
repaid loan returns the stakes with a share of the yield; a default costs part of them. The
library in `src/` holds all the rules and is verified with Verus.

## How it is built

- `env.rs` models the ledger as plain values. `Env` is what a call reads and changes; `State` is
  its mathematical view. A call leaves in `Env::effects` what the host has to do: require a
  signature, move tokens, mint or burn reputation, publish an event.
- Every operation `x` is stated by two spec functions on `State`: why it fails, and the state
  after it. The executable function returns the failure, if there is one, and leaves the state as
  it was; otherwise the new state is exactly the stated one. No operation has a precondition.
- What only the host knows (a token balance, whether a token contract responds, a reputation
  score) is handed to the operation as an argument.

| Module | What is in it |
| --- | --- |
| `address`, `table`, `types`, `errors`, `math` | addresses, keyed storage, records, failures, amounts |
| `helpers` | checks and look-ups that the operations share |
| `vouch`, `loan`, `slash`, `pool`, `governance`, `admin`, `views`, `reputation` | the operations |
| `contract` | the contract's entry points for vouchers, borrowers and governance |
| `calls` | every call as a value, and sequences of calls |
| `wellformed`, `history` | the invariant of every reachable state, and what stays so over time |
| `laws`, `flows`, `stakes`, `rules` | what the contract promises: sums, token flows, stakes over any run of calls, who can do what and when |

`app/` is the contract on the Soroban host: it loads storage into an `Env`, calls the library,
stores the result and performs the effects.

`tests/` runs the library against a small ledger with balances.
