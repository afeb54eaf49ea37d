# shared

The core of a desktop proxy manager, verified with Verus.

- `src/` — the verified library: subscription profiles and their store,
  learned routing rules, split-routing rule sets, proxy groups built from the
  core's listing, preference metadata, checks and synchronisation, the Vault
  visit history, Docker container summaries, the assistant's tool requests,
  and the decisions of the background supervisors (retries of the tunnel
  switch and of the external-address fetch, when monitors pause, which
  connections teach a rule and when the user is asked about it).
- `tests/` — tests run against the compiled library.
- `app/` — the runtime around it: Docker, Vault and web clients, serde copies
  of the library's types, the stores kept on disk, the assistant's tools, the
  state channels and the orchestrator, whose supervisors talk to the proxy
  core through a small trait.
