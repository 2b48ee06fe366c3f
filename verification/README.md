# amux

The client of a terminal multiplexer for coding agents: a sidebar of agents grouped by repository, a
main area of tiled panes, and small floating windows over it. A daemon owns the terminals; the client
shows them, and decides what every key, click and message means.

- `src/` is the client's logic, verified with Verus. It does no I/O: the state is an `App`, each event
  or message changes it as a function on its view says, and what has to be done outside is left in its
  outbox. Terminal emulation is the `vt100` crate's; `src/emulator.rs` states what is believed of it.
- `app/` is the program around it: the command line, the event loop, the protocol and the screen.
- `tests/` runs the library.

Where to begin reading:

| Module | What it holds |
| --- | --- |
| `state`, `events`, `daemon`, `keys`, `mouse` | the client, and what happens to it |
| `workspace`, `roster`, `sidebar` | which terminals are shown, and the list of agents |
| `pane`, `ratio`, `geometry` | the tree of panes and its layout |
| `render`, `frame`, `links`, `selection` | what is drawn, linked and copied |
| `emulator`, `input`, `record`, `base64` | bytes in and out of terminals |
| `laws`, `soundness`, `journeys`, `conduct`, `consent`, `supply`, `recency`, `attachments`, `traces` | what holds of the whole |
