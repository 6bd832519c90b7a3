# mcpjs

The core of an MCP (Model Context Protocol) server framework for Node.js,
written in Verus. The logic in `src/` is verified against its contracts; the
calls into `serde_json`, `jsonschema`, `dashmap` and `uuid` go through small
trusted wrappers (`#[verifier::external_body]`), whose doc comments say what
their contracts claim of the outside code.

- `src/uri.rs` — matching resource URIs against patterns (`prefix/**`,
  `prefix/*`, globs) and finding the first pattern a URI matches.
- `src/json.rs` — the JSON values read from requests, their parsing and
  compact text, and the `serde_json` calls the library relies on.
- `src/rpc.rs` — JSON-RPC 2.0 responses and the reading of requests.
- `src/registry.rs` — the `dashmap` maps of tools, resources, prompts and
  decorators, and the `Registry` that all servers of a process share.
- `src/server.rs`, `src/dispatch.rs`, `src/listing.rs` — the server: its
  registrations and what each request method does and answers.
- `src/schema.rs` — JSON Schema validation with `jsonschema`; for a schema
  with a `$ref` key the last step, `jsonschema`'s validation, is left to the
  caller, since it may recurse without end.
- `src/hooks.rs` — which lifecycle hooks run after a request is answered,
  and what they are told of it.
- `src/laws.rs` — properties across operations, proved.
- `app/` — the N-API bindings: JavaScript classes and objects, the shared
  registry, logging, the calls of the user's handlers and hooks, and the
  validation call for schemas with `$ref`.

`MCPJS_VERSION` is the package version of `Cargo.toml`, written out.
