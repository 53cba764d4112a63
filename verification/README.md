# laver_agent

The decision logic of Laver, a desktop office agent, written in Verus: the
functions under `src/` are verified against their `requires` / `ensures`
contracts (a few constructors and no-op hooks have nothing to state), the
calls into outside crates sit behind small trusted wrappers, and the
properties that span several calls stand as `law_*` proof functions beside
the code they speak of.

## Layout

- `src/llm/` — the message model (`types`), the request bodies of the two
  provider wire formats (`wire`), the server-sent-event line buffer and the
  stream parsers that turn events into a reply (`stream`), provider settings
  (`provider`).
- `src/agent/` — the loop state of a run (`turn`), the error-recovery state
  machine (`recovery`), permission gates (`permission`), context compaction
  (`compact`), system-prompt assembly and caching (`prompt`), skills
  (`skills`), importing a skill from a zip archive (`skill_zip`), memory selection and extraction (`memory`), hooks, the tool
  context and the built-in tools (`tools/`).
- `src/tasks.rs`, `src/team/` — the task graph, mailboxes, the request /
  response protocol between teammates, the teammate registry and idle loop.
- `src/cron.rs`, `src/background.rs`, `src/worktree.rs`, `src/mcp.rs`,
  `src/model_provider.rs`, `src/design.rs`, `src/gateway.rs` — scheduling,
  background jobs, git worktree naming and audit, MCP tool routing and the
  reading of MCP JSON-RPC replies, model
  profiles, design generation and the command-level logic of the desktop
  shell.
- `src/json.rs`, `src/paths.rs`, `src/text.rs`, `src/ids.rs` — the trusted
  wrappers around `serde_json`, `std::path`, `uuid` and std string functions,
  and the verified string helpers the rest builds on.
- `app/` — the unverified shell: I/O, HTTP, SQLite, processes and the async
  loops that drive the library's state machines.
- `tests/` — executable tests of the library.
