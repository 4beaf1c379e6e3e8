use vstd::prelude::*;

verus! {

/// The failures that a command on a document can report.
#[derive(Clone, Copy, PartialEq, Eq, Structural, Debug)]
pub enum DocError {
    /// An index or interval of a local edit lies outside the document.
    Validation,
    /// Revision or delta bytes are malformed.
    Decode,
    /// A remote delta does not fit the current base.
    Transform,
    /// Undo or redo with an empty history.
    NoHistory,
    /// A delta to compose does not apply to the document.
    Merge,
    /// No storage connection could be had.
    Connection,
    /// The storage write failed.
    Storage,
}

} // verus!
