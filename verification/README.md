# HTTPS reverse proxy

An HTTPS reverse proxy with path-based routing, TLS termination and connection draining, whose
decisions are verified with Verus.

- `src/` is the library. It decides how the configuration resolves (`config`), which upstream a path
  takes (`routes`, `proxy`), which headers are passed on (`headers`), which TLS material is used
  (`tls`), how healthy the certificate is (`health`), and how the server accepts and drains
  connections (`server`). `text` holds what it needs of strings and numbers, and `outside` what it
  takes on trust of other crates.
- `app/` is the server around it: it reads files and the environment, talks to clients and
  upstreams, and hands what it saw to the library.
- `tests/` run the library on concrete values.

A route such as `"/api" -> "http://localhost:3000"` sends `/api/users` to
`http://localhost:3000/users`. The longest prefix wins, and a path that no route applies to is
answered with a 404. The query has no say in the route and reaches the upstream as it came.

Hop-by-hop headers are forwarded neither to the upstream nor back: those that are hop-by-hop by
their name, and those that a `Connection` header lists.
