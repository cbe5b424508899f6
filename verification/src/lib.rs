//! Rules engine for a computer-run HeroQuest board game: the board model, the
//! figures and their equipment, and the turn-by-turn rules that the heroes'
//! actions are checked against.
pub mod model;
pub mod cards;
pub mod equipment;
pub mod quest;
pub mod game;
pub mod unit_ops;
pub mod engine;
pub mod combat;
pub mod outcome;
pub mod supplies;
pub mod potions;
pub mod search;
pub mod turns;
pub mod carrying;
pub mod doors;
pub mod status;
pub mod death;
pub mod spells;
pub mod traps;
pub mod strike;
pub mod pieces;
pub mod defeat;
pub mod opening;
pub mod ring;
pub mod reach;
pub mod casting;
pub mod teleport;
pub mod hazards;
pub mod springing;
pub mod spellrolls;
