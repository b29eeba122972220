# resp2chat

The verified core of an LLM API gateway, written in Verus.

- `src/adapters` turns Anthropic Messages requests into Responses requests.
- `src/config.rs` holds the settings: their defaults, what the environment overrides in them, the
  form in which they are used, and which model and arguments a request is sent upstream with.
- `src/profiles.rs` is the table of model profiles, in which names match up to ASCII case.
- `src/json.rs` merges JSON objects.
- `src/debug_ui.rs` decides what the socket of the debug UI sends, and when it is left.
- `src/text.rs` holds the operations on text that the rest builds on.

Laws, the properties that relate several functions, are the proof functions whose names begin with
`law_`.

`app/` is ordinary Rust around the library: the configuration file, the environment, the debug page
and its socket. `tests/` runs the library with the outside crates that it calls.
