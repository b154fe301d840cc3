# bugboard_mcp

Verified building blocks of a bugboard tool server that talks 1C Element RPC.

- `src/` is verified with Verus:
  - `http`: headers, request descriptors and cookie sessions, with the checks
    that keep line breaks out of headers and the debug texts that hide
    sensitive header values;
  - `element`: the Element RPC facade (base url, locales, percent-encoded
    query) and the descriptors and JSON bodies of module calls, entity reads,
    presentations and dynamic lists;
  - `response`: module-call envelopes, whose result is readable only when the
    call completed, and dynamic-list rows;
  - `config`: the env-file format and the cookie it must hold;
  - `handles`: session-local `bug-N` / `project-N` handles;
  - `write_safety`: the write flow that reads, skips a no-op, mutates at most
    once and confirms;
  - `text`, `json`, `error`, `failure`: shared helpers and error types.
- `tests/` exercises the library on concrete values.
- `app/` holds the edges: environment and file reading, `serde` conversions,
  and the async driver of the write flow.
