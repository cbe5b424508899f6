# heroquest

A rules engine for a computer-run game of HeroQuest, written in Verus: the
board, the figures and their equipment, and the rules a hero's actions are
checked against. Each function in `src/` states what it does as a contract,
proved by Verus; the parts of the game listed below are what the library
holds.

Layout:

- `src/model.rs`, `src/cards.rs`, `src/equipment.rs`, `src/quest.rs`: the
  board squares, figures, cards, Armory equipment and quest objectives.
- `src/game.rs`, `src/unit_ops.rs`: figure records and the single changes the
  rules make to them.
- `src/engine.rs`: the game state, its well-formedness, sight, movement
  dice and the random number source.
- `src/combat.rs`: which attacks a hero may make and how they are ranked.
- `src/outcome.rs`: when a quest is won or lost, and its rewards.
- `src/supplies.rs`, `src/potions.rs`: gifts between heroes, potions, the
  mine's fool's gold and leaving by the stairway.
- `src/search.rs`, `src/doors.rs`, `src/traps.rs`: searching for traps and
  secret doors, the doors a hero may open, and plans to disarm or jump a
  trap.
- `src/turns.rs`: ending a turn, who plays next, and movement spells running
  out.
- `src/carrying.rs`: picking up, putting down and handing on quest items.
- `src/death.rs`: a hero at zero Body Points, its rescue and its possessions.
- `src/spells.rs`: the spells a hero may cast, store or must resist, and
  their targets.
- `src/status.rs`: the status line.
- `src/strike.rs`: resolving one attack, from the dice thrown to what the
  attacker keeps in hand.
- `src/defeat.rs`: bounties and the quest notes a defeat sets off.
- `src/pieces.rs`: which boxed miniature stands for each monster on the
  board.
- `src/ring.rs`: the Ring of Return.
- `src/opening.rs`: opening doors, showing what lies beyond, and the quest
  notes and alarms that rooms and doors set off.
- `src/reach.rs`: the squares the active mover may end its move on, nearest
  first, and a shortest legal way to each.
- `src/casting.rs`: casting an elemental spell, from the card or Spell Ring
  charge it costs to what it does to its figure or door.
- `src/teleport.rs`: settling a magical door's teleport with two red dice.
- `src/hazards.rs`: falling stone from a collapsing ceiling, spear and
  falling-block dice, fleeing a fallen block, and ending a turn by force.
- `src/spellrolls.rs`: the red dice of Ball of Flame, Fire of Wrath and
  Sleep, and the combat dice of the Genie's attack.
- `src/springing.rs`: traps set off by a step, and disarming or jumping a
  known trap.
- `app/`: error types, saved records and touch zoom for the program around
  the library.

Not held here: building a game from a quest definition and setting up the
heroes (a game is built from a laid-out board with `Game::from_layout`), the
treasure deck and what a treasure search turns up, moving the active figure
one square at a time, the game master's turn and its Chaos spells, and the
Elixir of Life.
