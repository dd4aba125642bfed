# ocdb-client

A worker of [openchessdb.org](https://openchessdb.org). It asks the server for a position, has a
UCI chess engine analyse it, shows the results, hands in the score and goes on to the next
position. A heartbeat keeps the session of the machine alive meanwhile.

The logic is a library that Verus verifies; the program around it only reads, writes and waits.

## Layout

`src/`, the verified library:

- `text`: white space, words, joining, numbers and padding
- `style`: colours of the terminal
- `uci`: commands to an engine, and what its lines say
- `chess`: the calls into the `shakmaty` crate, with what is trusted of them
- `pv`: the principal variation, from UCI notation into SAN
- `cpu`: the tier of instruction sets that a processor uses well
- `session`: telemetry and the heartbeat of a session
- `score`: positions to analyse and the scores that are handed in
- `report`: progress, the table of results and the time
- `worker`: the course of the work, from events to actions

`app/`, the program: preferences, requests, the engine's process and the terminal.

`tests/`, tests of the library.

## Preferences

`prefs.json` holds `engine` (the program of the engine), `depth`, `userId`, and, if wanted,
`threads` and `syzygy`.
