//! A small engine for running tabletop combat encounters.
//!
//! The roster keeps its participants ordered by initiative, a turn pointer
//! walks over the living ones, and every command that is applied is logged so
//! that the most recent one can be reversed.
//!
//! Every type has a mathematical view, and every operation says in terms of
//! those views what it returns and what it changes:
//!
//! - [`entity`]: one participant and its health;
//! - [`action`]: the commands;
//! - [`roster`]: the order of the roster, as functions on sequences;
//! - [`state`]: the encounter, its commands, undo and what is shown of it;
//! - [`table`] and [`text`]: the layout of a table and the numerals in it;
//! - [`laws`]: what holds of every encounter, whatever is done to it.

pub mod action;
pub mod entity;
pub mod laws;
pub mod roster;
pub mod state;
pub mod table;
pub mod text;
