# akkuea_contracts

Verified core of the Akkuea Soroban contracts, written in Verus.

- `src/` — the library, every function verified:
  - `distribution` — rental-income distribution for tokenized properties
    (administrator, properties, shareholders, pro-rata claims), with laws:
    a holder claims each distribution at most once, a claim pays what
    `get_claimable` reported, ids are consecutive, payouts never exceed the
    distributed amount.
  - `lending` — two-slope interest-rate model, interest index, deposit and
    borrow positions (with per-user pool lists free of duplicates), health
    factor, and SEP-40 price normalisation to 18 decimals.
  - `milestone` — validation rules, quadratic voting with reputation bonus
    (integer square root proved correct), voting periods and approval.
  - `property` — property metadata and storage keys.
  - `greeter` — the starter greeting contract with 256-bit counters.
  - `store`, `lists`, `math` — keyed tables, name lists, and `i128`
    division rounded toward zero.
- `tests/` — scenario tests of the library.
- `app/` — the Soroban contracts: they read ledger storage, call the
  library, write results back, check authorisation and emit events.
