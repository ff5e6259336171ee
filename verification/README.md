# acp-tunnel (verified core)

`acp-tunnel` carries a local-command ACP agent's NDJSON traffic over an
authenticated WebSocket. This crate holds the parts of it that decide
something, written in Verus and proved against their contracts:

- `auth`: constant-time bearer-token comparison and strict `Bearer <token>`
  header parsing.
- `protocol`: the tunnel's envelope types and the validation of the opening
  request.
- `policy` (with `config`, `process` and `json`): the only ACP-aware edits
  the tunnel makes, mapping `cwd` in `session/new`, `session/load` and
  `session/resume` and enforcing the MCP server policy of `session/new`.
- `test_agent`: the answers of the hidden test agent used by integration
  tests.
- `decimal`: decimal text of integers.

JSON parsing and printing, the canonical MCP server definitions of
`agent-client-protocol`, and the constant-time primitives of `subtle` are
called through small trusted wrappers whose contracts state what those crates
do; everything around them is verified.

`app/` is the command-line program: it runs the test agent's input loop and
holds the serde forms of the envelopes.
