# dungeon_crawler

A small terminal dungeon crawler. The player (`@`) crosses a randomly walled
level to its exit (`E`), fighting goblins, trolls and skeletons and picking up
healing potions on the way.

- `src/` is the game itself, verified with Verus: the level and its generation
  (`level`), the player and the enemies (`entity`), potions (`potion`,
  `pickup`), spawning (`spawn`), the enemies' wandering (`wandering`), the
  journal's text (`journal`), and the game with the rules of a turn (`game`).
  The calls into `rand` are in `random`, each with the contract it is trusted
  to meet.
- `app/` is the terminal front end (crossterm): the key loop and the drawing.
- `tests/` runs the library on concrete games.
