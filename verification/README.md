# onshape_core

The verified core of an MCP server for the Onshape REST API, written in
Verus. The server offers a handful of generic tools (search the API
catalogue, explain an endpoint, call it, take a screenshot, check and start
authentication, read bundled resources, look up error codes); everything that
decides what those tools do is here, with contracts that Verus proves.

The schema lookup tool `onshape_api_schema` is listed with the other API
tools, but this server has no schema lookup for its catalogue: a call to it
is answered with a tool error saying that it is unavailable (and pointing to
`onshape_api_explain`, whose endpoint details include the request and
response schemas).

## Layout

- `src/` — the library. Each public function states in its `ensures` what it
  returns; the laws that relate several functions are public proof
  functions (`lemma_*`).
  - `text`, `encoding`, `json`: character sequences, Base64 and UTF-8, and a
    JSON value model.
  - `request`, `endpoints`, `transport`: API requests and responses, typed
    endpoint helpers with percent-encoded paths, and what the HTTP transport
    sends (URL, headers, error classification).
  - `auth`, `oauth`, `config`, `status`, `time`: credentials and
    `Authorization` headers, the OAuth 2.0 token state machine and callback
    checks, configuration parsing, and the reported authentication status.
  - `openapi`: the embedded OpenAPI catalogue (parsing, search, explain,
    request building).
  - `tools/`: tool dispatch as a state machine. A call either finishes or
    yields an effect (API request, file reads or writes, login) with a
    continuation; `resume` takes the effect's outcome and yields the next
    step.
- `tests/` — tests of the library on concrete values.
- `app/` — the host: serde forms of the library's types, the `reqwest`
  transport, the MCP protocol types (`rmcp`), OAuth flow plumbing and
  screenshot view geometry. It performs the effects and feeds their outcomes
  back into the library.

## Verifying

Run `verus` on `src/lib.rs` to verify the library; `tests/` runs as
ordinary Rust tests against the compiled crate.
