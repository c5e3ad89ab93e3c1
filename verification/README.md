# agentim

A bridge between chat platforms (Telegram, Discord, Feishu, QQ, Slack,
DingTalk, LINE, WeChat Work) and agent backends spoken to over JSON-RPC, with
its core written in Verus and proved against its contracts.

## Layout

- `src/` — the verified library.
  - `session`, `summary`: conversation history, its trimming into a running
    summary, and the context handed to an agent.
  - `registry`: agents, channels and sessions; the steps of one incoming
    message before and after the agent answers; reloading saved sessions.
  - `routing`: routing rules and the agent they pick.
  - `auth`, `crypto`: shared secrets, signed webhooks with a replay cache, and
    the native checks of Slack, DingTalk, Discord, Feishu and LINE.
  - `inbound`: what each platform's payload asks the bridge to do.
  - `protocol`, `backend`: the JSON-RPC exchanges with ACP and Codex
    backends, and the Discord gateway as a state machine.
  - `lease`, `listener`, `store`, `paths`: listener leases, checkpoints,
    retry backoff and snapshot rotation.
  - `webhook`: the answers of the HTTP endpoints.
  - `text`, `number`, `strmap`: strings, decimal numbers and a small map.
  - `clock`, `crypto`, `paths`: the calls into the clock, the hashing and
    encoding crates, and `std::path`, each behind a stated contract.
- `tests/` — tests of the library on concrete values.
- `app/` — the program around it: command line, HTTP server, platform
  clients, backend subprocesses, listeners, files and metrics.
