//! A chess position library.
//!
//! The library keeps the full state of a game of chess as plain sets of
//! squares and counters, answers queries about it, lists and plays legal
//! moves, records what each move changed so that it can be taken back, and
//! keeps a fingerprint of the position that can be updated from such a
//! record.
//!
//! The rules of chess are taken from the `shakmaty` crate: it proposes the
//! legal moves, plays them, reads and writes the texts of positions, and
//! knows which pieces attack a square. The module [`rules`] holds every
//! call into it. The library does not take its answers on trust where it
//! can check them: it keeps a proposed move only if the move is one that the
//! pieces can make ([`movement`]) and leaves the own king safe ([`legal`]),
//! it applies a move by its own statement of what a move does
//! ([`position`]) and moves on only if the rules reach the same position,
//! and it holds a position only if its text reads back as that position.
//!
//! [`chess::MyChess`] is the game, [`my_move::MyMove`] a move with its
//! text, [`record::ChangeRecord`] what a move changed, and [`hash`] the
//! fingerprint.

pub mod bits;
pub mod board;
pub mod chess;
pub mod error;
pub mod hash;
pub mod legal;
pub mod movement;
pub mod moves;
pub mod my_move;
pub mod outcome;
pub mod piece;
pub mod position;
pub mod probe;
pub mod record;
pub mod rules;
pub mod state;
pub mod text;
