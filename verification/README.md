# discord_mcp_rs

An MCP server that exposes the Discord REST API as tools generated from
Discord's OpenAPI specification, with its logic verified by Verus.

- `src/` is the verified library:
  - `json`, `jsontext`, `text`: the JSON document model, its compact text,
    and string helpers.
  - `refs`: `$ref` collection, reference closure and rebasing onto `$defs`.
  - `openapi`: reading a spec into a registry of operations and tool schemas.
  - `self_contained`: the proof that every tool schema inlines the component
    schemas it refers to.
  - `dispatch`: planning the HTTP request of a tool call, retry decisions and
    the shape of the answer.
  - `cli`, `util`: command line decisions, version text, snowflake IDs and
    data URIs.
  - `tools`: argument types of the hand-written Discord tools and the checks
    and conversions they make before calling Discord.
- `app/main.rs` is the program: environment, files, HTTP, logging and the
  MCP stdio transport.
- `tests/` exercise the library on concrete specs and arguments.
