# Neonmachines

A graph-based orchestration framework for prompt-driven agents. Workflows
are described in `config.nm`; each agent runs POML prompt files and calls
a model, validators route on the JSON they find in a reply, and the runner
walks the graph within a traversal limit.

## Layout

- `src/` — the library, verified with Verus. Each public function states
  its result in its contract; where the result depends on the clock, the
  contract states it for some reading of the clock, and exact versions
  take the reading as an argument (`is_open_after`,
  `check_rate_limit_at`). Laws that span several calls are public proof
  functions named `law_*`.
  - `nm_config` — the `config.nm` format: reading, writing, presets.
  - `commands`, `session`, `chat` — slash commands, the chat session and
    what each key does.
  - `runner` — routing between agents, the traversal limit, templates.
  - `agents` — validation of replies, prompt-file entries, agent turns.
  - `let_vars` — setting `<let>` variables in prompt files.
  - `error` — errors, retry with backoff, the circuit breaker.
  - `rate_limiter`, `metrics`, `nmmcp` (extensions), `tools`, `web`,
    `cli`, `graphemes`, `json`, `text`, `paths`, `clock`, `state`.
- `app/` — the program around the library: the command line, the
  terminal and web interfaces, file and process I/O, the model calls.
- `tests/` — tests of the library on concrete values.
