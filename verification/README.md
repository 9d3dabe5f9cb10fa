# sts2_rs

A client-side toolkit for a headless Slay the Spire 2 simulator, with its logic
verified by Verus.

`src/` is the verified library:

* `protocol` — the commands sent to the simulator, with the JSON text they are sent as,
  and the game states it answers with, each with a mathematical model that the
  contracts speak of;
* `driver` — the driver interface, where the live driver looks for the simulator's
  project, and a scripted mock simulator whose every answer is specified by `mock_step`;
* `pck` — the reader of Godot PCK archives that finds and checks the English and
  Chinese localization tables, specified by `extract_tables`;
* `logger` — which log files expire, how a run's log file is named, how entries are
  numbered and how each is written as a line;
* `json_text` — JSON strings and integers as text;
* `bridge` — what the HTTP bridge answers.

`app/` holds what Verus does not see: the simulator child process, the HTTP server
(`tiny_http`), files, the JSON forms of the protocol types (`serde`), and the two
command-line programs (`clap`), `sts2-bridge` and `sts2-pck`, which `app/main.rs`
tells apart by the name it is run under.

`tests/` exercises the library, including the MD5 and JSON checks it delegates to the
`md-5` and `serde_json` crates.
