# forge_rules

A rules library for a collectible card game, written in Verus: every
function in `src/` carries a `requires`/`ensures` contract that Verus proves.

Layout:

- `src/types/` — identifiers, zones, card types, keywords, events, abilities
  and effects, and mana (colors, costs, pools, spending restrictions), with
  the laws of mana in `mana_laws.rs`, and in `copies.rs` copies of
  abilities and events proved the same as what they copy.
- `src/game/` — the game state and its zones, target filters, the effect
  resolvers under `effects/` (dig, exile, phasing, tapping, goad, coin
  flips, damage prevention, manifest and cloak, conjure, incubate, endure,
  ...), epic, the client-facing projections in `derived_views.rs`, and the
  laws spanning several effects in `laws.rs`.
- `src/parser/` — fragments of the Oracle-text grammar (durations, targets,
  enchant phrases, a loyalty permission, a cost substitution), each a
  function on text with the grammar stated as a spec function.
- `src/draft/` — reading cube lists and dealing packs, with their laws.
- `src/database/` — card faces by name, and the encore keyword's ability.
- `src/rng.rs` — the seeded ChaCha generators of the `rand_chacha` crate
  (ChaCha20 for the game, ChaCha8 for dealing packs) and the two draws the
  rules make from them through `rand`; its contracts are trusted.
- `tests/` — the tests, run against the compiled library.
- `app/` — serde and thiserror shapes of the library's values and errors.

## What the library leaves out or models more simply

- `derive_views` does not compute the viewer's web-slinging costs
  (CR 702.188a): the model has no static abilities and no web-slinging
  keyword, so the viewer changes nothing in the projections.
- Not present: the alternative-cost statics of the cost parser ("you may
  cast spells ... by paying ..." and its multi-cost form, the check for a
  supported alternative cost, and cost-payment prohibitions), the
  characteristic-defining "power equal to toughness" phrase, and the
  attractions effects with their dispatcher. The grammar helpers and game
  modules they stand on are not part of this library.
- Coin flips: which flips a player's flips are replaced by (prevented,
  doubled with a keep choice, or single) is a fixed mode per player kept in
  the state, not the general event-replacement pipeline; a replacement that
  asks the player to choose is not modelled.
- The branches a coin flip or a "choose one" prompt runs are the five kinds
  of `BranchEffect` (gain or lose life, draw, create tokens, put counters),
  not an arbitrary ability chain; and when a branch would suspend for a
  choice, the deferral of the flip's "effect resolved" event (CR 608.2c) is
  not modelled, since no branch here suspends.
- Maps keyed by player or object id (commander damage, stack-entry details,
  Auras by player) are vectors of pairs, in player or stack order; the revealed cards are
  a vector kept free of repeats.
- Typed filters know six extra properties (another object, a color, the
  chosen color, a supertype, a zone, an attached Aura or Equipment). A mana
  value comparison, a count of colors and "a name shared with a permanent"
  are not among them, so dig filters and other filters that need those
  cannot be written.
- Packs are dealt with a ChaCha8 generator, not any generator a caller
  brings.
