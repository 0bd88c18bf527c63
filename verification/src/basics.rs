//! Entry points of a small warm-up exercise set kept beside the game. Most
//! of them intentionally do nothing; `get_val` returns a fixed value, and
//! `Number` carries the sign checks.

use vstd::prelude::*;

verus! {

/// A fixed sample value.
pub fn get_val() -> (r: i32)
    ensures
        r == 42,
{
    42
}

/// An integer together with a parity tag.
#[derive(Clone, Copy, PartialEq, Eq, Structural, Debug)]
pub struct Number {
    pub odd: bool,
    pub val: i32,
}

impl Number {
    /// Whether the number is strictly positive.
    pub fn is_positive(self) -> (r: bool)
        ensures
            r == (self.val > 0),
    {
        self.val > 0
    }

    /// Whether the number is strictly negative.
    pub fn is_negative(self) -> (r: bool)
        ensures
            r == (self.val < 0),
    {
        self.val < 0
    }
}

/// Does nothing.
pub fn generics() {
}

/// Does nothing.
pub fn macros() {
}

/// Does nothing.
pub fn panic_macro() {
}

/// Does nothing.
pub fn funcs_that_panic() {
}

/// Does nothing.
pub fn enums() {
}

/// Does nothing.
pub fn lifetimes() {
}

/// Does nothing.
pub fn static_lifetime() {
}

/// Does nothing.
pub fn struct_literal() {
}

/// Does nothing.
pub fn owned_vs_ref_types() {
}

/// Does nothing.
pub fn fallible_functions() {
}

/// Does nothing.
pub fn deferencing() {
}

/// Does nothing.
pub fn function_types() {
}

/// Does nothing.
pub fn loops() {
}

/// Does nothing.
pub fn returning_closures() {
}

} // verus!
