use vstd::prelude::*;
use vstd::string::StringExecFns;

verus! {

/// Everything that can stop a conversion.
///
/// The variants that stand for a failure reported by the parser, an encoder
/// or the I/O layer carry that failure's own text.
#[derive(Clone, Debug, PartialEq)]
pub enum Error {
    /// The text is not a valid configuration document.
    Parse { message: String },
    /// An included document or a referenced target could not be resolved.
    Include { path: String, message: String },
    /// The parsed tree holds a node that the parser could not resolve.
    Unresolved { reason: String },
    /// A real number is NaN or infinite (its bit pattern is kept).
    InvalidFloat { bits: u64 },
    /// The tree has a shape that the chosen output format cannot express.
    Unrepresentable,
    /// The output format's encoder rejected the tree.
    Encoding { message: String },
    /// Reading the input or writing the output failed.
    Io { message: String },
}

/// The human-readable text of an error: the carried text, unchanged, where
/// the failure was reported by someone else; a fixed sentence otherwise.
pub open spec fn message_of(e: Error) -> Seq<char> {
    match e {
        Error::Parse { message } => message@,
        Error::Include { message, .. } => message@,
        Error::Unresolved { reason } => reason@,
        Error::InvalidFloat { .. } => "invalid float: NaN or infinite"@,
        Error::Unrepresentable => "the tree cannot be expressed in this format"@,
        Error::Encoding { message } => message@,
        Error::Io { message } => message@,
    }
}

impl Error {
    /// Describes the error for a human reader.
    pub fn message(&self) -> (r: String)
        ensures
            r@ == message_of(*self),
    {
        match self {
            Error::Parse { message } => message.clone(),
            Error::Include { message, .. } => message.clone(),
            Error::Unresolved { reason } => reason.clone(),
            Error::InvalidFloat { .. } => String::from_str("invalid float: NaN or infinite"),
            Error::Unrepresentable => String::from_str(
                "the tree cannot be expressed in this format",
            ),
            Error::Encoding { message } => message.clone(),
            Error::Io { message } => message.clone(),
        }
    }
}

} // verus!
