# mintick

A marketplace of NFT series on NEAR, as a verified library and a thin contract layer.

- `src/` — the verified library. `contract` holds the state and its
  well-formedness, construction, administrators and categories; `series`
  creates series; `mint` mints copies; `market` lists and sells; `activity`
  keeps reviews and the operation record; `views` and `catalog` are the
  read-only queries; `payment` settles deposits against storage; `strmap` is
  the ordered string-keyed map behind the state; `text` formats numbers and
  splits token ids; `account` checks account ids; `laws` states what the
  operations promise of one another.
- `app/` — reads the NEAR environment, keeps the NFT standard's token ledger,
  calls the library, and performs transfers, refunds and ledger writes;
  `standard` answers the standard's approval and enumeration methods from
  the ledger.
- `tests/` — scenarios on concrete values.
