# cw_indexer

Name registries for CosmWasm contracts, verified with Verus.

- `src/indexer/` — the indexer: registration of a name for an address,
  moving an address to another name, reverse look-up, and the step-by-step
  resolution of dotted names (`alice.team.hub`) through the indexers that a
  registry lists. `contract.rs` states what each operation does to the two
  maps (name to address, address to name); `laws.rs` proves what holds across
  operations (a registered name looks up its address, names go to whoever
  registers them first, a registration keeps the two maps inverse to each
  other; an update keeps them so only where the entry it moves, which it
  finds under the address's text, belongs to that address).
- `src/group/` — the messages of a named cw4 group and its helpers: name
  rules and a stable sort of members by address that reports repeats.
- `src/cw5/`, `src/name_indexer/` — messages of the resolution interface and
  of the priced name indexer.
- `src/store.rs` — the contract storage as the library sees it: the entries of
  a `cw_storage_plus::Map<String, String>` per namespace, and the address
  check of the chain.
- `src/text.rs` — lexicographic order, splitting at dots.
- `app/` — the entry points, storage items, serialisable message copies and
  the helpers that query or message other contracts.
