# sotto

A desktop companion that shows one short Chinese observation at a time, asked
of a command-line language model and refreshed by day part or once a day.

`src/` is the verified library (Verus):

- `text` — characters, Unicode white space, trimming, searching, collapsing runs of
  white space.
- `cleaning` — turning a model's raw reply into the one sentence it holds.
- `quality` — the checks a candidate must pass (length, stock patterns, abstract
  words, repeats of recent sentences).
- `prompt` — the prompt of one attempt and the seed that varies it.
- `generation` — a request for a sentence as a state machine: each step says which
  tool to ask with which prompt, or gives the result.
- `storage` — the decisions behind the stored sentence and the history.
- `search_path` — which install directories are added to the search path.
- `settings`, `schedule`, `clock` — normalized settings, day parts and the next
  refresh time, clock readings as plain values.
- `laws` — properties that relate several functions, proved.

`app/` is the Tauri shell: commands, files, running the models, the refresh loop.
