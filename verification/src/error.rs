//! The errors of a run.

use vstd::prelude::*;

verus! {

/// What went wrong.
#[derive(Clone, Copy, Debug, PartialEq, Eq, Structural)]
pub enum ErrorKind {
    /// The search pattern is malformed.
    Pattern,
    /// A file does not lie under the root directory.
    Path,
    /// A metadata file does not decode.
    Decode,
    /// A content transformer failed.
    Render,
    /// Reading, writing or creating a directory failed.
    Io,
}

/// An error with its kind and a message for the user.
#[derive(Clone, Debug, PartialEq, Eq)]
pub struct RoxyError {
    pub kind: ErrorKind,
    pub message: String,
}

/// The word that names a kind in a report.
pub open spec fn kind_label(kind: ErrorKind) -> Seq<char> {
    match kind {
        ErrorKind::Pattern => "pattern error"@,
        ErrorKind::Path => "path error"@,
        ErrorKind::Decode => "decode error"@,
        ErrorKind::Render => "render error"@,
        ErrorKind::Io => "io error"@,
    }
}

impl RoxyError {
    /// An error of the given kind.
    pub fn new(kind: ErrorKind, message: String) -> (e: RoxyError)
        ensures
            e.kind == kind,
            e.message@ == message@,
    {
        RoxyError { kind, message }
    }

    /// The line that a report shows for this error: the kind's label, a
    /// colon and a space, then the message.
    pub open spec fn spec_text(&self) -> Seq<char> {
        kind_label(self.kind) + ": "@ + self.message@
    }

    /// The line that a report shows for this error.
    pub fn to_text(&self) -> (s: String)
        ensures
            s@ == self.spec_text(),
    {
        let label = match self.kind {
            ErrorKind::Pattern => "pattern error",
            ErrorKind::Path => "path error",
            ErrorKind::Decode => "decode error",
            ErrorKind::Render => "render error",
            ErrorKind::Io => "io error",
        };
        let mut s = String::from_str(label);
        s.append(": ");
        s.append(self.message.as_str());
        s
    }
}

} // verus!
