//! An interpreter for a small three-address-code intermediate representation:
//! linear instructions over named registers, immediate integers, labels,
//! function calls and a heap of fixed-size integer buffers.
//!
//! A program text is read by the [`lexer`] and the [`parser`], resolved (see
//! [`resolve`]) and run by the machine of [`exec`] on the state of [`env`], with
//! the values of [`value`]. Every function states what it returns and changes
//! over the mathematical view of its arguments, and what holds in general of
//! values, of resolution and of calls is proved in [`laws`], [`raw`], [`slots`]
//! and [`exec`].
pub mod text;
pub mod value;
pub mod laws;
pub mod instr;
pub mod listing;
pub mod resolve;
pub mod raw;
pub mod slots;
pub mod env;
pub mod exec;
pub mod lexer;
pub mod parser;
