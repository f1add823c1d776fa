# Omini

The core of a terminal coding agent, written and verified in Verus.

- `src/` is the library. Everything in it is verified: the streams of the language models and
  the requests to them (`api`), the turns of a query (`engine`), what the runtime does with a
  request (`runtime`), the tools and the permission to run them (`tools`), agents and their
  files (`subagents`), slash commands (`command`), stored sessions and messages (`db`,
  `config`), the system prompt (`prompts`), and the user interface (`tui`): its state, its keys
  and the lines it draws.
- `app/` is the program around it: the terminal, the network, the database, the file system and
  the processes that tools start. It hands plain values to the library and does what comes back.
- `tests/` runs the library on concrete values.

The library makes outside calls in few places: the width of characters (`unicode-width`) in
`src/width.rs`, JSON text (`serde_json`) in `src/json.rs`, the split of an area into rows
(`ratatui`) in `src/tui/render/layout.rs`, and lower case and UTF-8 of the standard library in
`src/text.rs`. What is taken for granted of them stands there as contracts.

What holds of the library as a whole is stated in proof functions whose names start with
`law_`.
