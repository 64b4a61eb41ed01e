//! What can go wrong when a pattern is created.

use vstd::prelude::*;
use vstd::string::StringExecFns;

verus! {

/// Why a pattern was not created.
#[derive(Debug)]
pub enum PatternError {
    /// The proposed name is empty or longer than a name may be.
    NameLength,
    /// The proposed name holds a character that a name may not hold.
    NameCharacters,
    /// The document could not be written; the cause is carried along.
    WriteFailed(String),
}

impl PatternError {
    /// Whether the caller can mend the request and send it again.
    pub open spec fn is_validation_spec(&self) -> bool {
        !(self is WriteFailed)
    }

    /// The text shown to the caller.
    pub open spec fn message_text(&self) -> Seq<char> {
        match *self {
            PatternError::NameLength => "Pattern must be 1-100 characters"@,
            PatternError::NameCharacters =>
                "Pattern name can only contain alphanumeric, dash and underscore characters"@,
            PatternError::WriteFailed(cause) => "Failed to create pattern: "@ + cause@,
        }
    }

    /// Whether the error names a rule that the proposed name broke, as
    /// opposed to a failure of the storage underneath.
    pub fn is_validation(&self) -> (r: bool)
        ensures
            r == self.is_validation_spec(),
    {
        match self {
            PatternError::WriteFailed(_) => false,
            _ => true,
        }
    }

    /// The text shown to the caller.
    pub fn message(&self) -> (r: String)
        ensures
            r@ == self.message_text(),
    {
        match self {
            PatternError::NameLength => String::from_str("Pattern must be 1-100 characters"),
            PatternError::NameCharacters => String::from_str(
                "Pattern name can only contain alphanumeric, dash and underscore characters",
            ),
            PatternError::WriteFailed(cause) => {
                let mut out = String::from_str("Failed to create pattern: ");
                out.append(cause.as_str());
                out
            },
        }
    }
}

} // verus!
