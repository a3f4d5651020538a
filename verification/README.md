# tm

`tm` is the small, Unix-only core of a tmux-style terminal multiplexer: command
lines, configuration files, the protocol between client and daemon, pane
layouts, and the normalisation of pane output, written in Verus. Every function
of the library has a contract, and Verus proves all but those of the few that
only make a call to the standard library or to the `vt100` crate.

## Layout

- `src/command/` turns a command line into the request that it stands for.
  `options.rs` scans arguments by a grammar; the other files have the commands.
- `src/protocol/` writes and reads requests and messages, one per frame.
- `src/config.rs` reads configuration files: lines, comments, commands, words.
- `src/layout.rs` holds the tree of splits; `src/model.rs` panes, windows and
  sessions.
- `src/terminal.rs` hands pane output to the emulator in whole sequences and
  characters, and does what the emulator leaves to its caller: repetition, the
  wrap mode and the alignment pattern.
- `src/emulator.rs` is the boundary to the `vt100` crate. It says what is relied
  on: that what an emulator shows is a function of what was done to it. It also
  says which bytes an emulator can be fed, and `Parser::accepts`,
  `OutputState::can_process` and `model::can_show_in` test that.
- `src/client.rs` and `src/pty.rs` hold the decisions of a client, and what a pane
  runs.
- `*_laws.rs` and `laws.rs` state what holds of these whatever the input: what is
  written is read back, panes never overlap, output means the same however it is
  cut into chunks, and so on.

`app/` is the program around the library: its arguments, its terminal, its
sockets and pseudo-terminals.
