//! Coordination core of one collaboratively edited document: a delta model
//! with operational transformation, a document with undo and redo history,
//! the revision wire format, and the command dispatch of the document actor.

pub mod actor;
pub mod codec;
pub mod delta;
pub mod document;
pub mod error;
