# ClickHouse binding

A backend plugin that runs operator-fixed SQL statements on a ClickHouse server
and answers with JSON. Each binding is one statement, or one listing of the
server's tables or columns, and serves one tool, resource or prompt.

- `src/` is the library: which bindings and watches are accepted, what each call
  runs and binds, how a response is read, and how a call is answered. Every
  function states what it does in its contract, and Verus proves it. Functions
  named `law_...` state what holds of the library as a whole.
- `app/` is the rest: the configuration as it arrives, the network, the gateway.
- `tests/` runs the library.

What is believed rather than proved is what the library says of `serde_json`,
`clickhouse`, `chrono` and one function of the standard library; each such item
is marked `external_body`, or is an `assume_specification`, and says in its
comment what it claims.
