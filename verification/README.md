# figgie_server

The game logic of a Figgie trading server, verified with Verus, and the
HTTP/WebSocket server around it.

- `src/` — the verified library:
  - `models/` suits, hands, game status, order sides;
  - `game/order_book.rs` the per-suit best bid / best ask book;
  - `game/dealer.rs` the 40-card deck (12 common, 10 target, 9 and 9) and the deal;
  - `game/scoring.rs` payouts and the pot;
  - `game/engine.rs` the game engine, its invariant and the specification of
    every operation; `game/laws.rs` properties across operations
    (conservation of chips and cards, status progression, hidden suits);
  - `ws/` client/server messages and the handling of a client message;
  - `handlers/` the computing part of the HTTP endpoints (joining, which
    starts the game on the fourth join, and username trimming);
  - `bots/` the random bot;
  - `rng.rs` the calls into `rand` and `uuid` that the proofs trust;
    `text.rs` small verified string helpers.
- `app/` — the server: axum routes, PostgreSQL access through sqlx, the
  WebSocket sessions, and serde forms of the library's types.
- `tests/` — tests of the library.

Player, game and order ids are UUIDs on the wire and their 128-bit values
inside the library.
