//! A pull-based byte transducer that flattens top-level JSON arrays.
//!
//! A source delivers bytes that form one or more top-level JSON arrays.
//! The transducer strips each array's enclosing brackets and replaces every
//! top-level comma (together with the whitespace that follows it) and every
//! closing bracket by a single separator byte (a space), so that a
//! downstream incremental value parser can consume the result as a stream
//! of independent JSON values without understanding array nesting.
//!
//! The scanning rules, the state machine they drive, and the laws that hold
//! of the transform live in [`scan`]; the executable scanner and the
//! pull-based reader over an in-memory source live in [`flatten`] and
//! [`reader`].

pub mod flatten;
pub mod game;
pub mod reader;
pub mod scan;
