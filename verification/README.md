# armature-cloudrun

Google Cloud Run deployment utilities: configuration from the Cloud Run
environment, health checks with concurrent, deadline-bounded checkers and
HTTP probe endpoints, and instance metadata from the metadata server.

## Layout

- `src/` — the library, verified with Verus:
  - `text.rs`: decimal printing and parsing (with the round-trip law),
    character search and string equality;
  - `config.rs`: `CloudRunConfig`, its defaults, its construction from the
    values of the environment variables, and the bind address;
  - `health.rs`: `HealthStatus`, check results, the overall status (the
    worst individual status), the assembly of checker results, and the
    state of the `HealthCheck` manager (registration, status override,
    liveness);
  - `probe.rs`: routing of `/livez`, `/health`, `/healthz`, `/readyz` and
    the HTTP status of each answer;
  - `metadata.rs`: region derivation from a zone, classification of
    metadata-server responses, instance and service metadata;
  - `error.rs`: `CloudRunError` and its messages.
- `app/` — the runtime around it: reading the environment, running checkers
  concurrently under tokio with their deadlines, the hyper server, the
  reqwest metadata client, JSON bodies (serde copies of the library types),
  tracing setup and shutdown signals.
- `tests/` — tests of the library.
