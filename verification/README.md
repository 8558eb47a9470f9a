# rust_rpg

A small tile based role playing game. The game's rules live in `src/` as a library whose
behaviour is stated in `requires` / `ensures` contracts and proved with Verus: items, bags and
crafting, combat and mining, fishing, the beings' movement, map queries and indexing, the
message log, the inventory screen and the application's state machine, which tells the
program what to do each frame.

`app/` is the program around it: the window and the main loop (bracket-lib), reading the data
files and the levels, saving games, drawing, and the few parts that work in floating point. It
plays no sound: the sound library the game was made with is not among its dependencies, so a
sound effect is written to the log by name.

The components of the game's entities are kept as plain lists of (entity, component) pairs
(`src/store.rs`), which the systems take as arguments. The ECS crate `specs` hands its storages
out only through its `System` and `SystemData` traits, bounded by its `Component` trait; a
verified function cannot take an outside trait as a bound, and implementing `Component` for the
library's types would be an impl of an outside trait, which Verus cannot check, so the library
keeps its own lists and `app/` keeps the world that holds them.

`tests/` exercises the library on concrete values.
