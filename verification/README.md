# crystal_server_core

The game rules of a server for a classic fantasy MMO, written in Verus:
every function in `src/` carries a contract that the verifier proves,
except the few that call other code and whose contracts are trusted.

Trusted, not proved: the six `#[verifier::external_body]` wrappers and
one declared type. Each one's doc comment says what its contract claims.

- `account.rs`: `sha256` (the `sha2` crate's SHA-256, its result named
  `sha256_digest`), `hex_encode` (the `hex` crate's lowercase encoding),
  and the declared type of `std::io::Error`.
- `chance.rs`: `roll_below` (`rand`'s `gen_range` on a half-open range)
  and `random_u32` (`rand::random`, nothing claimed of the value).
- `maps.rs`: `map_get_mut` (std's `HashMap::get_mut`).
- `session_rules.rs`: `ascii_uppercase` (std's `to_ascii_uppercase`).

Layout:

- `src/` — the library: characters and accounts, items, awakening and
  refining, rentals and the auction house, trading, combat, fishing,
  guilds, marriage, mentoring, rankings, quests and their text files, NPC
  scripts, the client's byte layouts, and the log console's buffers. Each
  module states its rules over spec functions and proves them; public
  `law_*` proof functions state properties that span calls.
- `tests/` — tests that run the library on concrete values.
- `app/` — the process around it: logging setup, the clock, reading files,
  and the few steps the game works out in floating point.
