# s4

The game logic of a turn-based strategy game of the Three Kingdoms era,
written in Verus: each public function states its behaviour in `requires` /
`ensures` clauses over mathematical models, and Verus proves the code
against them.

- `src/data`: officers, cities, factions, the map, units and the game state.
- `src/ai`: officer scoring, move evaluation and the AI's turn decisions.
- `src/battle.rs`, `src/city.rs`, `src/round.rs`, `src/scene.rs`: battles,
  city resources, round processing and scenes.
- `src/scenario.rs`, `src/game_loop.rs`, `src/input.rs`, `src/platform.rs`:
  setting up a scenario, the game loop's decisions, key handling and the
  values exchanged with the host.
- `src/resource`: the gamma-coded LZSS and RLE decoders, a bit reader and the
  resource table.
- `src/render`: fades, fonts, map glyphs and mode names, palettes, tile
  blitting and viewports.
- `src/ui`: entities, widgets and dialogs.
- `app/`: the console program around the library: the host platform, the
  loop that reads keys and prints, and floating-point palette fades.
- `tests/`: tests of the library.
