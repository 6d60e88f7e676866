use vstd::prelude::*;

verus! {

/// The ways in which a conversion can fail to produce text.
#[derive(Clone, Copy, Debug, PartialEq, Eq, Structural)]
pub enum ErrorKind {
    /// The input bytes are not UTF-8 text.
    InvalidEncoding,
    /// The YAML or JSON reader rejected the input.
    Parse,
    /// The structured value could not be written in the target format.
    Serialization,
}

/// What a `ConvertError` stands for in contracts: its kind and the
/// characters of its message.
pub struct Failure {
    pub kind: ErrorKind,
    pub message: Seq<char>,
}

/// A failed conversion: what went wrong, and the message to show for it.
#[derive(Debug)]
pub struct ConvertError {
    pub kind: ErrorKind,
    pub message: String,
}

impl View for ConvertError {
    type V = Failure;

    open spec fn view(&self) -> Failure {
        Failure { kind: self.kind, message: self.message@ }
    }
}

impl ConvertError {
    /// An error of the given kind with the given message.
    pub fn new(kind: ErrorKind, message: String) -> (error: ConvertError)
        ensures
            error@ == (Failure { kind, message: message@ }),
    {
        ConvertError { kind, message }
    }

    /// The message of this error, as `to_string` would give it.
    pub fn message(&self) -> (message: &str)
        ensures
            message@ == self@.message,
    {
        self.message.as_str()
    }
}

/// The outcome of a conversion as contracts see it: the characters of the
/// text, or the failure.
pub open spec fn outcome_view(outcome: Result<String, ConvertError>) -> Result<Seq<char>, Failure> {
    match outcome {
        Ok(text) => Ok(text@),
        Err(error) => Err(error@),
    }
}

} // verus!
