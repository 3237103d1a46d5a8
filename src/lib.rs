//! Game state of a tic-tac-toe board: the grid of marks, its win and draw
//! rules, and the turn sequencer that resolves a round.

pub mod model;

pub mod game;
