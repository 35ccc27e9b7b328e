# ADG Companion

A desktop companion for the League client. It watches games of ARAM: Mayhem,
queues a report and a snapshot of each, and sends them to the ADG backend.

- `src/` is the library, verified with Verus: reading what the client and the
  backend answer, the report of a game, the outbox and its rules of retry, and
  the steps of a sync and of the live capture. The modules whose names end in
  `laws` state what holds of these together.
- `app/` is the program around it: the window and the tray, the files, the
  keychain, the processes and the connections. It performs what the library
  asks for and hands back what came of it.
- `tests/` runs the library on concrete values.

The library holds JSON documents as plain data (`json::Json`), so that what is
read from them and built of them can be stated exactly. Text is parsed by
`serde_json`; a number that is no integer is carried through as `serde_json`
holds it, and compared, where that is needed, by the bits of its double.

What reaches the outbox stays there until the backend has taken it: a failed
connection or an error of the backend is retried for ever, a refused entry is
dropped at its fifth refusal, and an update that the backend wants keeps
everything as it is until the companion is updated.
