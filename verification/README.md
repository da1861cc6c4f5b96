# pi_agent

The decision logic of a bridge between a chat app and the Pi coding agent
(`pi --mode rpc`, a JSONL protocol over stdio), verified with Verus.

- `src/` is the verified library:
  - `json` — the JSON values of the protocol, the accessors the logic reads,
    and their parsing and printing through serde_json;
  - `text` — string comparison, Unicode trimming, line framing, UTF-8 decoding;
  - `levels` — thinking and effort settings mapped to Pi's thinking levels;
  - `model` — `pi/<provider>/<model-id>` references and Pi's model list;
  - `chat` — content blocks, tool calls, tool output and chat events;
  - `rpc` — the state of a chat turn and what each line of Pi's stream does to it;
  - `one_shot` — a one-shot prompt over the same stream;
  - `commands` — the command line and the RPC commands that start a turn;
  - `cli` — locating and probing the Pi binary, and the login hint.
- `app/` holds the unverified plumbing: spawning Pi, reading and writing its
  pipes, Tauri commands and events.
- `tests/` runs the library on concrete inputs.
