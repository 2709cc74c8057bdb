# terax_agents

Session management for ACP coding agents, with its logic verified by Verus.

- `src/` is the verified library: the session status state machine and its
  gate, title ownership, the reconcile plan and expiry collection, the
  restoration contract and load gate, the coalescing queue of cosmetic writes,
  the capability cache, the byte-bounded debug buffer with redaction, session
  configuration, execution-mode routing, and the legacy store's summaries.
  Every public function carries a contract, save `clock_ns`, which reads the
  clock; the functions that read the clock or the disk have companions that
  take the reading as an argument and state their result exactly. The laws
  that span functions are public proof functions next to the code they speak
  of.
- `app/` is the runtime around it: SQLite persistence and its debounce thread,
  the async backend router, reading the legacy JSON file, agent detection on
  `$PATH`, serializable copies of the library's types, and the frontend
  commands.
- `tests/` runs the library on concrete values.
