//! A chess position analyzer: tapered material + piece-square evaluation,
//! negamax alpha-beta search with a transposition table, repetition
//! detection, quiescence over captures, and an iterative-deepening driver
//! with aspiration windows. Move generation and move application come from
//! the `cozy_chess` rules library through a small trusted boundary.
pub mod eval;
pub mod model;
pub mod ordering;
pub mod repetition;
pub mod rules;
pub mod search;
pub mod tables;
pub mod tt;
