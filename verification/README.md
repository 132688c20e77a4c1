# ai_agent

A Verus-verified library for a small AI-agent toolkit, with the programs
around it.

- `src/` — the verified library:
  - `expense_api` — the expense API state and its handlers (list, get,
    create, update, delete, summary), each specified by a function of
    `AppStateView`; request validation (API key; dates and months by their
    `YYYY-MM-DD` / `YYYY-MM` form and then chrono; amounts by their IEEE-754
    bit pattern). A type invariant keeps every state consistent: the id
    counter follows the number of creations and ids are never reused.
  - `expense_laws` — laws across the handlers (read after create/update,
    delete then read, ids count up over any sequence of requests, summary
    versus listing, case-blind category filter, refused requests change
    nothing).
  - `expense_mcp` — the requests and bodies that the MCP bridge sends and
    how it turns the API's replies into tool answers.
  - `chat` — chat-completion requests as plain values.
  - `mcp_client` — MCP server configuration, endpoint choice, tool output.
  - `action_plan`, `gaia` — the planning prompt and the reading of chat
    replies.
  - `text` — string helpers (prefix, equality, decimal notation).
- `app/` — axum server, rmcp server and client, async-openai calls, serde
  and schemars forms of the library's types, floating-point sums.
- `tests/` — tests of the library on concrete values.
