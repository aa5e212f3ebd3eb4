# burrowland

The verified core of a NEAR lending and margin-trading protocol, written in
Verus: every function in `src/` carries a `requires`/`ensures` contract that
Verus proves, and the properties that span several functions are stated and
proved as public proof functions (`lemma_*`).

Layout:

- `src/` — the library. Fixed-point numbers on 512-bit words (`wide`,
  `big_decimal`), share pools and assets with interest accrual (`pool`,
  `asset`, `asset_config`), accounts and positions (`account`, `position`,
  `account_lending`), batches of lending actions (`execute`, `batch`),
  position health, liquidation and forced closes (`account_health`,
  `liquidation`, `shadow_liquidation`, `force_close`), tokens received
  (`fungible_token`), margin trading (`margin_open`, `margin_decrease`,
  `margin_execute`, `margin_settle`, `margin_account`, `margin_health`),
  oracle prices (`prices`, `pyth`), and the JSON event lines (`events`,
  `json`).
- `tests/` — tests of the library on concrete values.
- `app/` — the edge that Verus does not see: the JSON messages clients and
  dexes send, the transfer entry point that reads them, the Pyth oracle's
  replies, and the event log.

`U512` arithmetic comes from the `primitive-types` crate and hex encoding from
`hex`, each call behind a small trusted wrapper whose contract states what the
crate's source does.
