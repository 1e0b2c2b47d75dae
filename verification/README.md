# game_net

The networking and the rules of a small online guessing game, verified with Verus.

Players log in to a server, see the ranking of the other players, guess five numbers
per round, and report their match result, which the server checks before it keeps it
as a high score.

## Layout

- `src/` — the verified library.
  - `framing.rs`: the wire framing (4-byte big-endian length, payload, RFC 1071
    checksum), cutting a received stream into packets, and the round trip of both.
  - `flatbuf.rs`: the FlatBuffers builder, described by the history of calls made on
    it; `serialization.rs` and `send_game_score_table.rs` write every message with it.
  - `unpack.rs`: turning the fields read from a received message into a packet.
  - `server.rs`: logins and registrations, the validation of reported scores, the
    ranking, and the handling of a batch of received packets, with their laws.
  - `client.rs`: reading and scoring guesses, reading the server's answers, and the
    law that an honest client's result passes the server's validation.
  - `text.rs`: trimming, splitting, and reading and writing decimal numbers.
  - `structures.rs`, `chance.rs`, `client_networking.rs`: the shared values, the
    random draws, and the client's own records.
- `tests/` — tests of the library on concrete values.
- `app/` — the programs: the TCP server and the terminal client (`server` as first
  argument runs the server), the reading of FlatBuffers tables, and the save file.
