# attic_logic

The decision logic of the Attic binary cache's client commands and server
telemetry, written in Verus and proved against its contracts.

- `src/` is the verified library:
  - `text` — whitespace, splitting, trimming, ordering and decimal rendering
    of strings, with exact specifications;
  - `sorting` — stable sorting by `String` key, with its ordering and
    permutation laws;
  - `substituters` — which configured server and cache a substituter URL
    belongs to, and the sorted list of enabled caches;
  - `servers` — the sorted list of configured servers;
  - `cache_commands` — the rules of `cache create/configure/destroy/info`;
  - `telemetry` — OTLP transport selection, export switch, service naming,
    shutdown reporting;
  - `metrics` — instruments, attributes and the updates each request or
    operation makes;
  - `access_tracking` — the batch collector of object accesses as a state
    machine, with its bound and deduplication laws.
- `app/` holds the I/O around it: environment, `nix`, prompts, printing,
  tokio tasks and the OpenTelemetry SDK.
- `tests/` runs the library on concrete values.
