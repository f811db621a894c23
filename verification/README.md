# zerostack

Verified parts of the turn engine of a coding agent, written in Verus.

- `src/stall.rs`: notices that a turn repeats one tool call over and over.
- `src/ask_freeze.rs`: keeps a session's tools waiting while a question to a
  human is open, and attributes callers to sessions.
- `src/image_format.rs`, `src/read_image.rs`, `src/messages.rs`: decide whether
  an image file may be handed to the agent, and in which words.
- `src/outside.rs`: the calls into other crates, with what is relied on of each.
- `src/bytes.rs`, `src/text.rs`: byte search and text helpers.

`tests/` exercises the library. `app/` is ordinary Rust around it: locks,
notifications, task-local pins, the file system and the rig tool.
