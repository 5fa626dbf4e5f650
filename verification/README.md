# horto_os_ui_shared

Engine of the Horto OS UI tools, verified with Verus: remote apply over
OpenSSH, Release binary naming and caching, box status probes, the status
API's access rules, and the decisions of the versioned setup steps.

## Layout

- `src/` — the verified library. Pure functions have exact contracts over
  mathematical models (`Seq<char>` for text, entry lists for env files,
  views of each type). Functions that run programs do so through `Runs`,
  which wraps a `ProcessRunner` and keeps a ghost log of every request with
  its reply. Their contracts state the requests they make and what they do
  with each reply the runner may give (`may_reply`), and, over the log,
  exactly which calls they make, in which order, and which they do not
  (for example that a refused stale box CLI runs nothing, or that `tar`
  never follows a failed `curl`). `ReportDecoder` likewise says which
  decodings a decoder may give (`may_decode_setup`, `may_decode_doctor`).
  - `text` — string toolkit (lines, tokens, trimming, joining, searching)
    with specs and lemmas.
  - `envfile`, `stack_opts`, `resume`, `step`, `journal`, `secret`, `error`.
  - `steps` — step metadata and the per-step decisions: `activate` (NAT,
    restarts, lease cron), `validate` (config checks), `stage` (what is
    staged per mode), `docker_tree` (assets, NPU stack, compose and links),
    `host_setup` (packages, OS / IoT env, minimal env, staged apply, Docker
    Engine).
  - `remote` — arch, hosts, SSH / SCP / rsync argument lists, Release
    bins, ecosystem units, the remote runner (options, status parsing,
    probes, reboot, bearer token, apply) and surface probes.
  - `status_api` — bearer check, local-origin and local-network rules.
- `app/` — the status API server and the operating-system side: process
  spawning, TCP, files, environment, terminal prompts, serde copies of the
  report types.
- `tests/` — behaviour tests run against the compiled library.

Proof functions named `law_*` state properties that span several functions
(for example that a stack selection's CSV parses back to the selection, or
that what a step writes satisfies its own resume check).
