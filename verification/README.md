# jaeger_mcp

The verified core of an MCP server for [Jaeger](https://www.jaegertracing.io/),
written in Verus. The server exposes four tools (`get_services`,
`get_operations`, `get_trace`, `find_traces`) over the Jaeger v3 HTTP API.

## Layout

- `src/` — the library, verified by Verus:
  - `text.rs`: reading the characters of a string, decimal numbers.
  - `config.rs`: resolving `JAEGER_URL`, `JAEGER_PORT` and
    `JAEGER_AUTHORIZATION_HEADER` into a `Config` (URL normalization, the
    default port per scheme, `u16` parsing), with the laws that tie them.
  - `jaeger.rs`: the client (base URL and validated `Authorization` value),
    the URL and query parameters of each API request, trace id validation,
    RFC 3339 timestamps, and the reading of responses.
  - `server.rs`: the tool arguments and the search made by `find_traces`
    (attribute values stringified, search depth 20 by default).
- `tests/` — tests of the library.
- `app/` — the program: environment, HTTP with `reqwest`, the MCP server
  with `rmcp`, and the formatting of floating-point durations.
