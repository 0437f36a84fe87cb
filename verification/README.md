# quantum_core

The verified core of a cognitive runtime, written in Verus.

`src/` is the library.  Its functions are verified against their
`requires` / `ensures` contracts, except a handful of small trusted wrappers
(`#[verifier::external_body]`) around outside calls: the wall clock, the
random number source, SHA-256 and hex encoding, and a few `std` string and
character functions.  Each wrapper's doc comment says what its contract
claims of the outside function.  The modules:

- `gates` — the eight-gate output state machine, its 31 invariants and the
  audit history of transitions; the dead gate can never be left.
- `nlp` — intent understanding by keyword tables, slots, templated replies,
  chains of thought and the end-to-end reply pipeline.
- `memory`, `index` — paragraph injection into a bounded memory store,
  keyword and topic extraction, keyword / topic indexes and the integer
  features of retrieval scores.
- `causal`, `dag` — causal graph structure, Kahn topological order, failure
  bookkeeping, cycle detection by ranking and greedy cycle removal.
- `bus` — the cognitive message protocol, message validation, message ids,
  and the subscription table that decides deliveries.
- `indicators` — the five emergence signals and the emergence-window state
  machine.
- `hypothesis`, `genuine` — the three checks of emergent products, the
  first-in-first-out hypothesis bank, generations and evidence summaries.
- `existential` — the SHA-256 seal of the value anchor, the start-up digest
  check and the append-only audit trail.
- `motivation`, `reflection` — growth stages and their weights, the
  learning-episode log, the worst domain and the advice drawn from them.
- `dual`, `history` — the short-term ring buffer, the long-term store keyed
  by content hash, and bounded histories.
- `text`, `clock`, `error` — character-level utilities, the wall clock and
  the error type.

`tests/` exercises the library from outside.  `app/` holds what is not
verified: the bus worker thread and its channels, file input, and the
floating-point models (neurons, plasticity, predictive coding, ethics
dynamics, reasoning scores, retrieval scores, correlations) that use the
verified core.
