# cmem

A character-memory library whose logic is verified with Verus: the domain model of
episodes, observations, entities, threads, derived memories and typed links; their
validation; bounded graph expansion and frontier-by-frontier graph visibility;
retrieval statistics and selectivity planning; the vector index model and its
candidate prefilters; the graph record of each memory object, written as triples
and read back; and the text of graph-store queries and the reading of their
results.

## Layout

- `src/` — the verified library. Every public function states its result in its
  `ensures`; properties that span several functions are public proof functions
  named `law_*`.
  - `domain`, `objects`, `belief`, `lifecycle`, `write_validation`, `schema`,
    `retrieval`, `raw_reference`, `errors` — the domain model, its validation and
    its errors.
  - `graph`, `expansion_order`, `frontier`, `visibility`, `store_expansion` —
    object queries, bounded expansion (and the proof that its plan does not depend
    on the order in which objects and links are given), link selection at a
    frontier, and expansion the way a graph store runs it.
  - `stats`, `selectivity`, `link` — retrieval statistics, fanout planning (with
    the steps that load the planning context from a store whose reads can fail)
    and link admission.
  - `vector`, `prefilter`, `settings`, `remember` — the vector index model,
    candidate prefilters, provider settings and write outcomes.
  - `sparql`, `sparql_results`, `sparql_update`, `graph_store` — query and update
    text, result reading, and the service endpoint of a SPARQL graph store.
  - `rdf_vocabulary`, `rdf_write`, `rdf_read`, `rdf_round_trip` — the graph record
    of a memory object: its IRIs, the triples written for it (one object at a
    time, or a validated batch of owner-graph replacements), the object read back
    from the values of its subject, and the proof that what is written reads back
    as the object, as far as the record keeps it (each writer states it).
  - `text`, `ids`, `timestamps`, `seqs`, `sorting` — text, identity, instant and
    ordering helpers; the calls into `uuid`, `chrono`, `unicode-normalization` and
    `serde_json` are the few trusted wrappers, each with its contract in its doc
    comment.
- `tests/` — tests of the library on concrete values.
- `app/` — unverified glue: conversions to and from `uuid`, `chrono` and float
  values (score texts among them), serde copies of persisted enums, the clock, the
  floating-point part of selectivity planning, and the loops that perform the
  store calls the verified remember, link and context-load steps ask for.
