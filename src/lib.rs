//! A small grep-like line searcher, together with the exercises that share its
//! text primitives: a bitwise calculator, a traffic light, a linked stack and
//! a few string utilities.

pub mod text;
pub mod search;
pub mod words;
pub mod singly_linked_list;
pub mod doubly_linked_list;
pub mod calculator;
pub mod traffic_light;
pub mod fizz_buzz;
pub mod guessing_game;
pub mod university;
pub mod input;
pub mod output;
