# the_desk

The Desk Catalog core with machine-checked contracts: the catalog of market
state fields and domains, the Feature Registry (Base Detectors, Derived
Features, human-gated promotion), Feature-IR program screening and
validation, the codegen artifacts of accepted Derived Features, the read
kernel's envelope rules (resolutions, provenance, multi-symbol merge keys,
token-budget drop order), the event lifecycle and coaching event view, the
Levels-Only Positioning write path, session scope filters, and the kernel's
trust tags, the outcome and event tallies of the research performance
views with the setup matrix's ranking by an integer count and its row limit,
the lift of stored event rows (lifecycle, severity, identity and frame-join
fallbacks), and the tag and scope filters of agent-insight queries.

Layout:

- `src/` — the library, written in Verus. Each public function states in
  `ensures` what it returns; the `lemma_*` proof functions state the laws that
  span functions (label round trips, lifecycle finality, forward-only
  promotion, distinct merged keys, collapse keeps one row per identity, and
  so on).
- `tests/` — ordinary Rust tests against the compiled library.
- `app/` — the process-facing side: JSON wire shapes (serde), the config
  file, the checked-in catalog documents, StateEnvelope assembly over
  snapshot JSON, Positioning records with float prices, and Feature-IR
  evaluation over float clocks, and R-multiple averages for the performance
  views. Decisions on plain values are the library's; what `app/` decides
  itself is float arithmetic and the ordering by float keys (win rate,
  average R, timestamps).

The Feature Registry keeps its descriptors in a `Vec` held strictly sorted by
id (its `wf` invariant) rather than in a `BTreeMap<String, _>`: vstd specifies
`BTreeMap` only for key types whose `Ord` it knows to obey the ordering laws,
which `String` is not among, and a lookup by `&str` into `String` keys has no
specification at all, so nothing about the registry's contents could be
proved through one. The kernel's seen-set of dedup ids is a list of positions
for the same reason.
