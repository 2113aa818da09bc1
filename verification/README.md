# ledger_vm

The ledger of a chain and the state of its virtual machine, written in Verus: what they do is stated
in contracts and proved.

- `src/store` holds the overlays of pending writes (flat and nested maps), the ownership of an atomic
  batch by a thread, and the protocol of nested atomic scopes.
- `src/process` holds the programs known to the virtual machine: their stacks, the undo log of staged
  stacks, the stacks of an open speculation, and their circuit keys.
- `src/vm` holds what a speculation leaves, the addition of a block with its rollback, the making of a
  genesis block, views at an earlier height, the start from storage with its deployments, and the
  queue of operations that are performed one at a time.
- `src/ledger` holds the latest block with the caches beside it, the selection of solutions and of
  the records that pay, the template of the next block, and the loading of a ledger.
- `src/id_map.rs`, `src/lru_cache.rs`, `src/block.rs`, `src/committee.rs` and `src/defer.rs` hold the
  types that these share.
- `tests` runs the library, and `app` runs it on top of stores and services.

Identifiers, hashes, roots and keys are carried as 64-bit integers.

Where outside work alternates with decisions, the library makes the decisions: an `AddBlock`, a
`Template`, a `Preparation` or a `Loading` names the next action, and takes the reply to it.

The laws of the library are the public proof functions whose names start with `law_`.
