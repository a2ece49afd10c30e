# oxify

The verified core of the OxiFY workflow platform, written in Verus.

- `src/` is the library. Every function in it is verified against its
  `requires`/`ensures` contract; calls into outside crates (SHA-256,
  AES-256-GCM, PBKDF2, Base64, UUIDs, regular expressions, HTML selection,
  the clock) go through small trusted wrappers whose contracts are
  documented beside them.
  - `dag` orders workflow graphs (topological order, execution levels);
    `engine`, `nodes` and `templating` hold the engine's decisions
    (checkpoints, pausing and cancelling, chunking of levels, switch and
    parallel nodes, template placeholders); `run` is a run's state machine,
    level by level, with the events each step publishes, and `node_step` the steps of one node and of its
    retries.
  - `authz` answers relation checks, batch checks and tuple listings over
    stored relation tuples.
  - `vision_crypto` and `secret_store` encrypt cached results and secrets.
  - `cache` is the LRU/TTL cache of the storage layer, `quota` the quota
    rules, `websocket` the connection registry, `sse` the event-stream state
    machines.
  - `mcp_*` decide what the built-in tool servers do with a call;
    `templates` and `api` hold the HTTP API's listings and checks; `llm`
    the provider helpers; `storage_config` the object-store settings.
- `tests/` exercises the library from outside.
- `app/` is the unverified layer around it: reading the environment,
  serde shapes of the library's types, floating-point metrics, the tool
  listings, and loops that drive the run and retry state machines.
