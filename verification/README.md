# kiwi_core

The core library of kiwi, a terminal workspace for coding agents, written in
Verus: every function in `src/` states its behaviour in `requires`/`ensures`.
The library's own functions are proved against their contracts; the few
`#[verifier::external_body]` wrappers that call `serde_json`, `toml` and std
(`Path`, `String::push`) are trusted, and their doc comments say what each
contract claims of the outside code.

- `src/` — the verified library: agent sessions and the streaming chat
  protocols (Messages API, OpenAI-compatible, Ollama), the tool catalogue and
  tool output, configuration edits and config files (through `toml`), JSON
  text (through `serde_json`), git status and branches, GitHub views and
  actions, the file tree, navigation, selection, diff and preview state.
  Laws that span several functions are public `law_*` proof functions.
- `tests/` — tests of the library on concrete values.
- `app/` — the I/O around it: files, child processes, HTTP streams, git
  repositories, and the serde types of the wire formats.
