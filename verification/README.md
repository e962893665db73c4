# aerial

Durable, name-addressed messaging between local agents: a daemon holds a
registry of agent names, per-agent mailbox logs and an append-only history,
and agents talk to it over a Unix socket, from the CLI or through an MCP
adapter.

Layout:

- `src/` — the library, verified with Verus:
  - `ids`, `text`, `directory`: UUID texts, text order and blank lines, a
    name-ordered map;
  - `envelope`, `registry`, `mailbox`, `transcript`: the message unit, the
    registry (newest registration wins), the mailbox log and what is pending
    in it, the history and its compact summaries;
  - `protocol`, `daemon`, `flows`: requests and responses, the daemon's
    decisions (addressing a send, restoring after a restart, file paths, wake
    events, error texts) and the multi-step CLI/MCP flows as step machines
    (status, drain, exchange);
  - `watch`: watcher subscriptions, and why a watcher that subscribes before
    reading its pending mail misses no envelope;
  - `supervisor`, `mcp`: the agent supervisor's decisions and prompt, and the
    MCP tool surface (argument decoding, JSON-RPC routing, input lines, the
    tool catalogue with each tool's input schema).
- `app/` — the `aerial` program: sockets, files, processes, JSON on the wire
  and the command line, around the library.
- `tests/` — tests of the library.
