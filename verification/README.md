# codex-flow

Runs multi-agent workflows written as JavaScript modules. A workflow calls
`agent()`, `parallel()`, `pipeline()` and `phase()`; each agent is a child process
whose JSON lines are streamed to a printing or a full-screen front-end, and every
result is journalled so that a run can be resumed.

The library under `src/` holds the decisions and is verified with Verus:

- `event`: the event model, and what an agent's raw lines amount to;
- `codex`: the command line of an agent, retries, budget, one agent's run;
- `journal`: cache keys, records, loading and appending;
- `engine`: what a script's calls turn into, steps, module resolution, scripts;
- `registry`, `worktree`: agent types and isolation;
- `cli`: arguments, printed lines, the failure summary;
- `render_opt`, `tui`: when to draw, what to rebuild, wrapping, the state of the
  full-screen front-end and what its panes show;
- `json`, `text`: JSON documents and exact text helpers.

What relates several functions is stated as proof functions named `law_...`, beside
the functions or in a `laws` module. Calls into `serde_json`, `ratatui`,
`unicode_width` and `std` that the proofs rest on stand in `json`, `render_opt` and
`text`, each with its contract.

`app/` is ordinary Rust around the library: the script runtime, processes, files,
the terminal and painting.
