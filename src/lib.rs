//! A permutation-check gadget: proves that two committed integer sequences
//! are equal as multisets by comparing the products of `(challenge - x)`
//! over each of them, in a prime field, at a challenge drawn after both
//! sequences were committed.
pub mod argument;
pub mod circuit;
pub mod field;
