# rust_win32

A verified library for an MCP tool server that searches a code base and enhances prompts,
with the program around it.

- `src/` is the library, written in Verus: every function there carries a contract that
  Verus proves, and the laws of the library stand there as proof functions (`law_*`).
  - `config`: command-line, file and environment settings and how they combine.
  - `index`: the remote index (blob splitting, exclusion rules, upload planning and rounds)
    and the local index (chunks, manifest, caches, query terms, matching, merging, re-rank
    order, the search state machine, summary payloads).
  - `enhancer`: the two enhancement providers' request bodies, retries, error messages and
    the clean-up of model output.
  - `prompt_entry`, `ui`: the `enhance_prompt` decisions and the confirmation window's state
    machine.
  - `mcp`: the JSON-RPC dispatch and the stdio framing.
  - `tool_entry`: which tool a call selects, and the checks of a search call.
  - `json`, `text`, `sorting`, `hashing`, `utils`, `logging`: shared models and helpers.
- `app/` is ordinary Rust: `main`, file and network I/O, the Win32 window, the floating-point
  ranking, and the serde copies of the library's types.
- `tests/` runs the library on concrete values.
