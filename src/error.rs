use vstd::prelude::*;

verus! {

/// The ways an editing operation can fail.
#[derive(Debug, PartialEq, Eq)]
pub enum EditorError {
    /// Reading or writing a file failed; the text describes the failure.
    Io(String),
    /// An index does not name an open document.
    IndexOutOfRange,
    /// The operation would leave the session without any open document.
    LastDocument,
}

} // verus!
