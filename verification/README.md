# codex_flows

Verified decision logic behind a coding agent's client sessions. `src/` holds the decisions, each with
a contract that Verus proves; `app/` holds the tasks, channels, HTTP calls and locks that act on them.

- `in_process`, `event_delivery`, `runtime`, `runtime_loop`, `shutdown`: an app server that runs inside
  its client's process. Every request that the main loop receives is answered exactly once and before
  the shutdown is acknowledged, server requests are never silently abandoned, and lossless delivery
  keeps every event in order.
- `backend_client`, `referral`, `referral_session`: referral invites. Requests go out only under the
  identity that the session has pinned. Redacted errors carry nothing of the response body, and errors
  for invite responses that do not decode quote no string of it.
- `referral_widget`, `referral_confirmation`, `selection_view`, `app_event`: the referral flow in the
  terminal UI. An invite takes a deliberate choice, and results that nobody awaits any more are
  ignored.
- `plugin_snapshot`: the shared snapshot of installed plugins. Callers that wait together share one
  fetch, and an invalidation aborts all of them.
- `bash_env`, `capture`, `environment`, `unix_path`: reuse of the environment that a shell's startup
  file sets up. What the shell prints is read back exactly.
- `git_env`: environment overrides for Git commands that must stay local.
- `text`, `json`, `ids`, `request_id`, `rpc_error`, `auth`: shared building blocks. The functions of
  `std`, `uuid` and `serde_json` that the proofs trust stand here and in `capture`.
