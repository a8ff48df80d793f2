//! GatedKey: point any key on the keyboard at any app.
//!
//! This crate holds the logic of the key remapper: chords and their names,
//! bindings and configuration, the keyboard hook's decisions, how an action
//! is carried out, and the app picker's suggestions. Installing the hook,
//! starting processes, files and the user interface are left to the caller.
use vstd::prelude::*;

pub mod actions;
pub mod config;
pub mod hook;
pub mod keys;
pub mod startup;
pub mod suggest;
pub mod text;

verus! {
} // verus!
