//! Interpreter core for a block-based visual programming game.
//!
//! A player arranges blocks (attack, heal, spell casting, hand-wave
//! gestures) in an editor; the editor hands the arrangement over as an
//! untyped tree. This crate turns that tree into a typed AST, checks the
//! per-block semantic rules, and evaluates the AST into an ordered list of
//! game actions, judging in passing whether each incantation's gesture
//! sequence matches the required pattern for its spell.

pub mod ast;
pub mod evaluator;
pub mod json;
pub mod numtext;
pub mod parser;
pub mod patterns;
pub mod strutil;
