# Bondage

Bondage binds an LLM engine to a message history and three local tools
(`lookup`, `write`, `bash`). Rope is its small command-line harness.

## Layout

- `src/` — the library, verified with Verus. Every public function carries a
  contract over `Seq`/`Map` models of its inputs and result:
  - `text`, `order`: character-level text primitives, words and lines, a
    verified stable sort.
  - `chat`: history messages to engine chat entries (parallel tool calls
    grouped), and engine content back to history messages.
  - `kit`: the agent turn as a state machine, and the gating of tool calls.
  - `policy`, `config`: permission modes and layered configuration.
  - `tools`: what each tool reports (file views with context fragments,
    directory listings and searches, web pages, patch planning, command
    results).
  - `util`: output truncation, tool listings, paths (their components, as
    `Path` compares them), resource lookup.
  - `prompt_file_injector`: `@file` mentions in a prompt, which files are
    embedded (each once, one level deep) and the expanded prompt.
  - `rope`: the harness's decisions — argument parsing, the executor's
    session-file rule, the file-sitter's watch state, the tmux wait for a
    command.
  - `cli`: the `bondage` command line (a one-shot agent, with `-y/--yolo`).
- `app/` — the `rope` program (and, installed under the name `bondage`, the
  one-shot agent): the engine (genai), the file system, processes,
  tmux and the terminal. It hands the library plain values and acts on what
  the library decides.
- `tests/` — tests of the library on concrete values.
