# mighty

A server for Mighty, a five-player trick-taking card game, whose rules are a
library verified with Verus.

- `src/` — the verified library:
  - `cards.rs`: cards, suits, the mighty and the joker call, names of cards;
  - `deal.rs`: shuffling (with `rand`) and dealing five hands and three cards
    under the deck; every card is dealt exactly once;
  - `lobby.rs`: the registry that seats players by room and order of arrival;
  - `bidding.rs`: the bidding for the presidency and contract rules;
  - `table.rs`: players, the field, the partner choice, discards;
  - `trick.rs`: which card may be played, the strength of cards, who takes a
    trick;
  - `scoring.rs`: points, the settlement of a game (zero-sum), the winner.
- `app/` — the TCP server (tokio) that talks to the players and asks the
  library for every decision.
- `tests/` — tests of the library on concrete games.
