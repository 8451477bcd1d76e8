# combat_core

Combat rules of a turn-based strategy game, with machine-checked contracts.

- `src/data`: unit statistics, traits (`TraitId`, parsed from their names),
  unit definitions (traits kept in a `smallvec::SmallVec`), and the loader that
  builds the unit registry from the entries of the data file.
- `src/state`: status effects (a bit set), unit instances, battle state.
- `src/engine`: the damage formula (`calculate_damage`) and the resolution of
  one attack (`resolve_attack`: preemptive strikes, primary attack, on-hit
  effects, retaliation).
- `app/main.rs`: reads and parses the TOML data file (serde, toml, indexmap)
  and hands the entries to the library.

Every function in `src/` carries a contract; the laws of the library (what an
attack never does, what a lookup after a load gives, ...) are proof functions
beside the code they speak of.
