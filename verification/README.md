# rclone-ui

A terminal interface for [rclone](https://rclone.org/), with its core written
in Verus and proved against its contracts.

- `src/` is the verified library:
  - `rclone` builds the rclone runs (`listremotes`, `lsjson`, `copy`,
    `delete`, `version`) and reads their replies: the remotes that
    `listremotes` prints, the first line of `version`, and the failure
    that a run reports.
  - `tui` is the state of the interface and its reaction to each key, as a
    step from state and key to the next state and a command for the caller
    (quit, list remotes, list files, describe a file).
  - `text` holds the character-level helpers, among them a verified
    counterpart of `str::lines`.
- `app/` is the program: command line (clap), terminal (crossterm,
  ratatui), running rclone, and parsing the JSON of `rclone lsjson`
  (serde_json).
- `tests/` exercises the library.
