//! Compiles a slide deck into one self-contained HTML presentation.
//!
//! A deck is an ordered list of [`slide::Slide`] records. Every function here
//! is pure: reading the deck, touching the file system and watching for
//! changes are left to the caller, which is told what to do next by the
//! state machine in [`compile`].

pub mod assets;
pub mod compile;
pub mod document;
pub mod layout;
pub mod markup;
pub mod outside;
pub mod slide;
pub mod watch;
