//! Markup events in, a document tree out.
//!
//! [`event`] holds the input vocabulary, [`node`] the output tree, [`shape`]
//! the mapping from a start tag to a fresh element, [`render`] the builder
//! that drives the open-element stack, and [`laws`] what holds of every run.

pub mod event;
pub mod laws;
pub mod node;
pub mod render;
pub mod shape;
