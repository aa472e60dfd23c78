# nexusgate

NexusGate lets visitors reach a service inside a private network through a
public port: an admin panel with a hub that servers and edges dial into, a
server node that opens the visitor ports, and an edge client next to the
local service.

## Layout

- `src/` — the verified library (Verus). Each module states its behaviour in
  `requires`/`ensures` over mathematical models and proves it:
  - `admin_config`, `registry`, `admin_api` — the panel's server registry:
    normal form of `admin.toml`, routing a request to a server (over the
    hub first, HTTP as the fallback), upsert / remove / default changes,
    base URLs.
  - `proxy`, `static_files` — request rewriting of the panel's proxy
    (server selection, percent-decoding, removal of the routing parameter,
    hop-by-hop headers) and the SPA file lookup.
  - `hub`, `port_plan`, `codec` — the hub: who is let in, the roster, peer
    paths and their relay legs, management forwarding and the calls that
    wait for their reply, data-port planning, base64 bodies.
  - `server_config`, `server_state`, `api`, `hub_client` — the server node:
    settings, bounded log, online edges, listener plan, visitors waiting
    for a direct dial, API rules.
  - `session` — opening a session with the hub, the legacy control port's
    admission and edge records.
  - `edge_config`, `common`, `text` — the edge's settings and roster
    handling, shared vocabulary, verified text helpers.
- `tests/` — tests of the library on concrete values.
- `app/` — the three programs (`nexusgate admin|server|edge`): configuration
  files, sockets, HTTP and the event loops around the library.
