# hrdr

The logic of a coding agent and of its frontends, written in Verus: what every function
returns or changes is stated in its contract and proved.

- `src/` is the library.
  - A turn: `run` takes a whole turn from step to step, over `agent` (messages, background
    results), `turn_loop` (rounds), `tool_batch` (calls), `repeat` (calls that repeat
    themselves), `repair` (histories), `attempt` and `request` (model calls), `turn` and
    `usage` (what it all took).
  - Transcripts: `event`, `transcript`, `transcript_log`, `subagent_transcript`,
    `subagent_live`, `tool_display`.
  - Models: `validate`, `model_switch`, `effort`.
  - Commands: `registry`, `dispatch` and `gui_commands` (what each command does, as
    `effects`), `completion`, `prompt_commands`, `frontend`, `reports`, `notices`,
    `compaction`, `conversation`, `outgoing`, `paste`.
  - Stores and settings: `history`, `config`, `trust`, `store_lock`, `test_support`.
  - Ground work: `text`, `double`, `format`, `fuzzy`, `ranking`, `json`, `chat`, `clock`.
- `app/` carries out what the library decides: files, the clipboard, child processes, the
  environment, and floating point numbers.
- `tests/` runs the library.

Laws that relate several functions are public proof functions whose names begin with
`law_`. What is taken on trust from outside crates stands in a few small wrappers, each
with a comment that says what is claimed of the function behind it.
