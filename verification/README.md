# mcp-credentials-vault

Scoped, auditable credential access for agents: credential metadata, runtime
handles and workload tokens over several vault backends, with an audit trail.
No operation hands out a raw secret value.

## Layout

- `src/` — the library, verified with Verus.
  - `types.rs`, `error.rs` — records, handles, tokens, audit events, errors,
    and their mathematical views.
  - `adk_vault.rs` — the in-memory vault: records keyed by identifier and an
    append-only audit trail, with the laws that relate its operations.
  - `server.rs` — the tool decisions: backend search, listing filters, the
    newest-first merge of audit trails, scope checks and the tools' answers.
  - `hashicorp.rs`, `aws.rs`, `gcp.rs`, `azure.rs`, `adk_platform.rs` — each
    remote backend's endpoints, request payloads, and the records and outcomes
    made from its answers.
  - `backend.rs` — what the remote backends share.
  - `json.rs`, `text.rs` — the JSON model of HTTP answers, and text operations.
  - `clock.rs` — the clock and random identifiers, behind trusted wrappers.
- `tests/` — tests of the library on concrete values.
- `app/` — the asynchronous services around the library: HTTP and SDK calls,
  persistence, the MCP tool server and the integration program.
