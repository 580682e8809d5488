//! A parser-combinator engine over immutable text: a small algebra of
//! composable parsing values, each mapping an input to either a
//! consumed-success pair or a failure, together with the operators that
//! combine them (sequencing, alternation, repetition, transformation,
//! predicate filtering, dependent chaining).

pub mod combinator;
pub mod laws;
pub mod math;
