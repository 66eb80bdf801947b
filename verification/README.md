# construct-core

The session orchestration core of an end-to-end encrypted messenger, written and verified in Verus.

The core is a pure state machine: the platform feeds it events, and it answers with actions for the
platform to carry out. It does no I/O of its own. What only cryptography can compute it asks of a
`CryptoEngine`, and what time it is it asks of a `Clock`; nothing is assumed of either, and every
contract says what is done with a reply, whatever the reply is.

## Layout

- `src/wire_payload.rs`: the wire format, with a proof that packing and unpacking undo each other
- `src/crypto/`: key material, Kyber prekeys, sessions, and the engine behind them
- `src/orchestration/`: plans (who gets a copy, whose session ends, which message opens a session),
  the session machine, the life of sessions, the message router
- `src/orchestration/orchestrator/`: the entry point of the platform, by subject
- `src/utils/`: the time of the system
- `src/strings.rs`, `src/vecs.rs`, `src/str_map.rs`, `src/little_endian.rs`: what the rest stands on
- `tests/`: scenarios, on a toy engine where two devices talk to each other
- `app/`: the edges that speak in text (JSON records, displayed errors, logs)

## How contracts are written

A type is spoken of by its view: maps, sequences and records of plain values. A function whose
result depends on an engine's reply or on the time comes in two parts: one that takes the reply or
the reading as an argument and is specified exactly, and one that asks for it and says that its
outcome is the exact one for some reply the engine may give. A law that needs an engine to keep what
it was given, or to open what it sealed, names that among its hypotheses.

Properties that span several functions stand as public proof functions at the end of the module they
are about.
Those over runs of events stand in modules of their own under
`src/orchestration/orchestrator/`: `keeping` (what every event keeps), `origins` (what is handed back
and paid was brought by an event), `confirming` (the confirm gate from the announcement to the
answer) and `persisting` (when the Kyber prekeys are due to be saved).
