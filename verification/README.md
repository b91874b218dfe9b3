# investment_tracker

A command-line investment tracker: investments with their price history and
dividend payments, a portfolio kept in a JSON data file, CSV/JSON export and
import, configurable currency and output settings, and an interactive menu.

The library under `src/` carries machine-checked
contracts:

- `models` — investments, investment types, date validation, price and
  dividend entries kept in date order (a stable sort by date).
- `storage` — the collection of investments: lookup by full ID or unique
  prefix, adding with fresh UUIDs, updating, deleting.
- `commands` — the decisions of the commands: building a new investment,
  applying an update, splitting an import into new records and duplicates,
  the rows an export writes for price histories and dividends and their
  re-attachment on import, report ranges, the interactive menu.
- `config`, `display` — settings, currency symbols, output options.
- `portfolio` — counts by investment type.
- `simple` — the basic record with a shape-only date check and exact-ID
  storage.
- `text`, `error` — text helpers and error types.

Monetary values are a type parameter of the library; where a rule depends on
how an amount compares with zero, the caller passes that comparison as an
`AmountSign`.  Arithmetic on amounts (returns, totals, allocations) is done by
the program in `app/`, which also reads and writes files, parses the command
line and drives the prompts.
