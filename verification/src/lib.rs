//! The front end of a key-remapping script language.
//!
//! A script binds keys to keys and holds variables, conditions and calls.
//! This crate turns its text into a tree and says, where the text does
//! not parse, where and why. It has three parts:
//!
//! - `registry` and `key_defs`: the names under which a script refers to a key,
//!   the keys themselves, and the event templates that are built for a key;
//! - `parsing`: the grammar, from white space and tokens up to whole scripts,
//!   the failure of a parse with its message for the user, and the way back
//!   from a tree to source text;
//! - `ast`: the tree.
//!
//! The input of the grammar is bytes, and every rule is a function of the
//! input and of a place in it: it gives the place at which it stopped and what
//! it read, or a failure. A failed rule has read nothing, so another rule can
//! be tried at the same place.

pub mod ast;
pub mod key_defs;
pub mod parsing;
pub mod registry;
pub mod text;
