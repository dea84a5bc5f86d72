# biztrace

Records for a small shop — catalog, customers and their balances, fund
accounts with transactions and scheduled checks, warehouses with FIFO cost
layers — kept in SQLite, with Jalali dates and spreadsheet import and export.

The library in `src/` is verified with Verus:

- `text`, `forms` — parsing and printing of numbers, amounts, quantities and
  the price field, with proofs that printed values read back.
- `date`, `calendar` — Jalali/Gregorian conversions on text dates, and the
  proofs that each conversion undoes the other on the dates it covers.
- `models` — money, quantities, dates, invoices and the other records.
- `import` — reading the spreadsheets (as grids of cell texts) and building
  the sheets that are written, with proofs that an export reads back, and so do the catalog,
  customer and stock templates.
- `views` — the rows the screens show, their order and selection.
- `editors` — what the editors of the screens make of what was typed: the
  record to save or the message to show.
- `database` — the SQLite store; the arithmetic of stock levels and FIFO
  costing is verified, and the calls into `rusqlite` go through the small
  trusted layer in `database/sql.rs`. Each store operation has a
  `*_journaled` form whose contract states, over a ghost journal
  (`database/journal.rs`), the statements and parameters it hands to SQLite
  given the values it read back, how what a query returned becomes the
  result, and when it refuses.

`app/` is the program around the library: where the database file lives,
reading and writing xlsx files, and the start-up summary.
