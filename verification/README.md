# srvcs-xnor

Exclusive NOR (logical equivalence) of two operands, composed from two other
services: `xnor(a, b) = NOT(a XOR b)`, true exactly when `a == b`. The service
asks `srvcs-xor` for `a XOR b`, then `srvcs-not` for the negation of that
verdict.

## Layout

- `src/` is the verified library (Verus):
  - `api.rs`: the service identity (`GET /`), the decisions on each dependency's
    outcome (`ask`, `degraded`, `forward`) and the evaluation of `POST /` as a
    state machine (`Evaluation`), with its laws: the answer is the negation
    service's verdict on the exclusive-or service's verdict, failures end the
    evaluation with `503` or the forwarded `422`, and every evaluation answers
    after at most two calls.
  - `client.rs`: the HTTP/1.1 text of a dependency call: splitting a base URL,
    writing the request with its JSON payload, reading the status code and the
    JSON body of the reply.
  - `text.rs`: searching, white-space separated words, decimal numbers.
  - `json.rs`: the JSON values that requests and replies carry.
  - `health.rs`, `config.rs`: readiness, liveness and settings.
- `app/` is the HTTP server around it: axum routes, the TCP exchange, the OpenAPI
  document, telemetry and the environment.
- `tests/` exercises the library on concrete values.
