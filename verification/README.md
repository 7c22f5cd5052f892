# temper_state

The state of a server that runs entities as actors over a journal of events: which
actor serves an entity and when a new one may, what an index or a projection may
be trusted for, what a file read answers, what a publication writes, and what is
kept of specs, modules, policies and secrets.

- `src/` is the library. Its logic is written and proved in Verus. Whatever waits
  for something outside is a step from a state and an event to the next state and
  an action, so that every order of events is covered by the proofs.
- `tests/` runs the library on concrete values.
- `app/` carries the steps out: it asks and drains actors, reads and writes stores,
  sends objects, and hands back what came of it.

Modules by subject:

| subject | modules |
| --- | --- |
| foundations | `text`, `sorted`, `json`, `timestamps`, `digest`, `keys`, `config` |
| actors and their directory | `directory`, `entity_index`, `gates`, `readiness`, `loading`, `eviction`, `passivation`, `state_cache` |
| entities | `tables`, `entity_state`, `create_errors`, `creation`, `initial_files`, `authz`, `verification_gate`, `hints` |
| indexes and projections | `coverage`, `activation`, `entity_load`, `field_backfill`, `key_backfill`, `vector_backfill`, `replay_parity` |
| files and publication | `file_blobs`, `file_reads`, `batch_text`, `public_blob`, `assets`, `artifacts`, `telemetry` |
| records | `observe_events`, `metrics`, `pending_decisions`, `policy_suggestions`, `evolution`, `persistence`, `spec_catalog`, `wasm_modules` |
| the whole | `server_state` |

What is trusted of other crates stands beside its callers and names the outside
function: digests (`sha2`, `hmac`), status texts and header values (`reqwest`),
times (`chrono`), the bounded cache (`lru`), and a few functions of the standard
library. Each public `law_…` function states a property that holds across calls.
