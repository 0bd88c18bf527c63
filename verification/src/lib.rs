//! A verified number-guessing game library.
//!
//! The game holds a secret integer between 1 and 100. Each round a line of
//! text is offered as a guess; the library trims it, parses it as a decimal
//! number, compares it against the secret, and reports whether the guess was
//! too small, too big, invalid, or a win.

pub mod basics;
pub mod game;
pub mod parse;
