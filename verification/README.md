# apiarray

The core of a local API gateway, verified with Verus: provider manifests,
workflow graphs and their compilation, route decisions, health tracking,
SSE decoding and the provider stream protocols, request translation and
transport plans, the OpenAI-compatible face, live documents, workspaces,
the API wallet, and the control center of managed instances.

- `src/` is the verified library. JSON documents are read through
  `serde_json`, behind the trusted items of `src/json.rs`.
- `app/` is the command-line program: it reads one JSON request per line,
  turns it (and a provider's YAML) into the library's types with `serde`
  and `serde_norway`, answers it with `cli::respond`, and writes the JSON
  response. `app/workspace_io.rs` reads and writes workspace exports and
  provider YAML; the checks a document must pass are the library's
  (`load_workspace_document`, `ProviderManifest::from_parsed_yaml`,
  `WorkspacePackage::validate`).
- `tests/` runs the library on concrete values.
