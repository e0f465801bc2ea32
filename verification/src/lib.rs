//! Codec and cross-song remapping engine for the binary save-file format of
//! the Dirtywave M8 hardware music sequencer.
//!
//! A song file is parsed from an in-memory byte buffer into a [`songs::Song`]
//! value, edited, and serialized back into a buffer of the same size.  The
//! [`remapper`] module computes collision-free slot reassignments so that a
//! chain and everything it transitively references can be copied between
//! songs or renumbered within one song.

pub mod eq;
pub mod fx;
pub mod instruments;
pub mod reader;
pub mod remapper;
pub mod scale;
pub mod settings;
pub mod songs;
pub mod theme;
pub mod version;
pub mod writer;
