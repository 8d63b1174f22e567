# copilot-responses-proxy

A local proxy for VS Code Copilot's custom Responses API endpoint. It listens
on `http://127.0.0.1:8787/v1/responses`, forwards each request to the
upstream of the active provider profile (or the configured default), drops
the top-level `truncation` field that some upstreams reject, can inject
`reasoning.effort`, and can inject the provider's bearer token (or pass
Copilot's own `Authorization` through when the provider has none). Provider
addresses may be bare hosts: a domain becomes `https://<host>/v1/responses`,
an IP or `localhost` becomes `http://<host>/v1/responses`, and an address with
a path only gains a scheme.

Layout:

- `src/` — the library, verified with Verus: configuration and provider
  profiles (`config`, `address`, `effort`, `error`), the JSON model and the request
  rewrite (`json`, `forward`), header filtering and the upstream request plan
  (`headers`, `upstream`), health and log documents (`report`), command-line
  and tray-menu decisions (`cli`, `menu`, `icon`), and text helpers (`text`,
  `seqs`).
- `app/` — the program: command line, config file, HTTP server and tray icon.
- `tests/` — tests of the library.
