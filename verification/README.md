# unifi_mcp

The core of a curated MCP server for UniFi controllers, written in Verus: a
small set of workflow tools (search, context, diagnose, audit, and narrow typed
actions) with bounded responses, writes that preview until they are confirmed
and are judged by reading the resource back, and secrets redacted by default.

`src/` holds every rule and computation, each function with its contract:

| Modules | What they decide |
|---|---|
| `registry`, `catalog` | the tools, their declared behavior, and which surface serves them |
| `schema`, `schema_meaning`, `schema_laws` | portable JSON schemas that accept the same values |
| `redaction`, `mutation`, `report`, `changes` | what leaves the server, and what a write reports |
| `clients`, `devices`, `wifi`, `events`, `stats`, `overview`, `system_log` | network reads |
| `firewall`, `networks` | the audit views |
| `wlans`, `port_forwards`, `policies`, `vouchers`, `control` | writes |
| `cameras`, `recorder`, `inventory`, `camera_tools`, `protect_events` | Protect reads |
| `scan`, `site`, `paging`, `order`, `rows`, `clock` | bounded scans, pages, order and time |
| `text`, `tree`, `json`, `encode`, `display`, `error` | texts, JSON values and errors |

Properties that relate several functions are public proof functions whose names
begin with `law_`.

`app/` is the server around the library: request parsing, controller calls,
dispatch, and the `ServerHandler`. It reaches a controller through the traits
in `app/api.rs`, which a transport implements.
