# file_bank

The bookkeeping of the CESS file bank, verified with Verus: storage packages
bought, upgraded, renewed and frozen; files declared by users, stored by
schedulers and deleted; the filler data that miners hold to prove idle space;
the random drawing of challenges; and the checks on RRSC equivocation reports.

The state is an explicit `Pallet` value, and the runtime around it (block
number, schedulers, miners, currency, randomness) is the `Config` trait,
whose model records every change that the library asks of the runtime.

- `src/` — the library; every function carries its contract.
  - `pallet.rs` the state and its well-formedness; `table.rs` the keyed tables;
  - `package.rs`, `pricing.rs` packages and their prices;
  - `file.rs`, `lists.rs`, `filler.rs` files, per-account lists, filler data;
  - `random.rs`, `random_file_list.rs` challenges and the services to other pallets;
  - `hooks.rs` the daily lease check; `member.rs` members and small queries;
  - `equivocation.rs` equivocation reports; `weights.rs` call weights;
  - `scale.rs`, `perbill.rs` SCALE encodings and `Perbill` fractions;
  - `laws.rs` what holds across calls.
- `tests/` — tests on concrete values.
- `app/` — copies of the records with SCALE encodings written by hand, and
  conversions to and from the library's types.
