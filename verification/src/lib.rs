//! Verified building blocks for browser widgets: a renderer that turns a flat
//! stream of markup events into a nested document tree, a small field
//! validation engine, the value storage behind form inputs, and the styling
//! decisions of the widgets themselves.

pub mod flash;
pub mod forms;
pub mod markdown;
pub mod modal;
pub mod title;
pub mod validations;
