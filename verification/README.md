# RustJack

A mutating admission webhook for Kubernetes that makes pods trust a custom certificate
authority. A pod that names a secret in its annotation `rustjack.io/ca-secret` gets the secret
as a volume, mounted into all of its containers and init containers, and environment
variables that point to the certificate. The annotations `rustjack.io/mount-path` (default
`/ssl`) and `rustjack.io/extra-envs` (a comma-separated list) change where and for what.

The server issues its own TLS certificates, which live for twelve hours and are renewed at the
nine-hour mark, and shares them with its other replicas through a secret. A secret that is
deleted is created again at once.

## Layout

- `src/` is the library, which Verus verifies.
  - `webhook` decides on reviews: which patch a pod gets and what is answered.
  - `json_patch` says what a JSON patch does, and proves that a patched pod is injected.
  - `repeated` says what a second review of a patched pod gives.
  - `pod`, `json` and `encoding` read and write documents; `text` and `string_map` serve them.
  - `tls` issues certificates and reads their expiry.
  - `cluster` holds what is stored in and sent to the cluster.
  - `startup` and `renewal` decide how a replica comes by its certificate and keeps it fresh.
  - `settings` holds the names under which a replica runs.
- `app/` is the server around it: HTTP, TLS, the Kubernetes API, the environment and the log.
- `tests/` runs the library.
