//! The failures that the operations on notes report.

use vstd::prelude::*;

verus! {

/// The four kinds of failure.
#[derive(Clone, Copy, Debug, PartialEq, Eq, Structural)]
pub enum ErrorKind {
    /// No note, or no file, under the identifier asked for.
    NotFound,
    /// The file system refused a read, a write or a directory.
    IoError,
    /// A stored payload, or a colour, could not be read.
    ParseError,
    /// The operation does not apply to the note as it stands.
    InvalidOperation,
}

/// A failure: its kind and a description for a human reader.
#[derive(Debug, PartialEq, Eq)]
pub struct NoteError {
    pub kind: ErrorKind,
    pub message: String,
}

/// The value of a [`NoteError`].
pub struct NoteErrorView {
    pub kind: ErrorKind,
    pub message: Seq<char>,
}

impl View for NoteError {
    type V = NoteErrorView;

    open spec fn view(&self) -> NoteErrorView {
        NoteErrorView { kind: self.kind, message: self.message@ }
    }
}

impl DeepView for NoteError {
    type V = NoteErrorView;

    open spec fn deep_view(&self) -> NoteErrorView {
        self@
    }
}

impl NoteError {
    /// A failure of the given kind with the given description.
    pub fn new(kind: ErrorKind, message: &str) -> (e: NoteError)
        ensures
            e@ == (NoteErrorView { kind, message: message@ }),
    {
        NoteError { kind, message: message.to_owned() }
    }

    /// The description alone, as it is shown to a user.
    pub fn to_string(&self) -> (s: String)
        ensures
            s@ == self@.message,
    {
        self.message.clone()
    }
}

} // verus!
