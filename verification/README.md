# axon

Axon is a terminal AI coding agent: you describe a goal, it streams the
model's reply, runs the tools the model asks for (read a file, write a file,
run a shell command), feeds the results back, and shows each step in the
terminal's scrollback.

The crate is a Verus library with the program around it:

- `src/` — the verified library.
  - `config` — tool-approval modes, backend settings and their fallbacks,
    the status line.
  - `config_file` — reading `~/.config/axon/config.toml` (`[backend]`
    `base_url` and `model`, and `tool_approval`).
  - `event` — the events the inference side reports to the interface.
  - `stream` — putting a streamed chat completion together: tokens passed on
    at once, tool-call fragments gathered by index and handed on in index
    order at the end, arguments that are not JSON turned into `null`.
  - `inference` — one turn's tool calls, and the agent loop (at most ten
    streamed turns; tool results fed back into the history).
  - `tools` — reading a call's JSON arguments, which tool a call names and
    whether its arguments are there, and what the approval mode makes of it:
    every edit waits for `y`/`n`; other tools run under `allow`, are asked
    about under `ask` and are refused under `deny`. Also the tool schemas
    offered to the model.
  - `app` — the interface's state and how it answers keys and events,
    including the approval of a pending edit or tool call, and the history
    the model is shown.
  - `highlight` — the coloured pieces of a diff row, from `syntect`.
  - `text`, `layout`, `diff` — splitting, trimming and cutting text, the
    live area's layout, and the rows of a numbered line diff.
- `app/` — the terminal program: the event loop, drawing with crossterm,
  choosing a file's syntax, the OpenAI client, and the file system
  and shell work of the tools. `axon --debug-keys` prints the raw key events
  the terminal sends.
- `tests/` — tests of the library.
