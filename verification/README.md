# cyberflow

Core of a desktop helper that drives the Sangfor VDI client and Windows
Remote Desktop (mstsc), and exposes both end-to-end flows to MCP clients
through a local, token-protected JSON-RPC endpoint.

- `src/` — the library, verified with Verus:
  - `text` — character-level string operations (search, trim, case,
    UTF-16, decimal notation) with their meaning stated over `Seq<char>`;
  - `json` — JSON values and their mathematical view;
  - `mcp::server` — bearer-token check, JSON-RPC dispatch and the HTTP
    reply to every request; `mcp::tools` — the tool catalogue and what a
    tool call runs; `mcp::state` — the running server and the auth token;
  - `commands` — the server status report and the decisions of the dialog
    automations (which window, field and button, key events, retries).
- `app/` — the I/O around it: the HTTP server (axum/tokio), the token file,
  the UI-facing commands and the Win32 calls.
- `tests/` — tests of the library on concrete values.
