use vstd::prelude::*;
use vstd::string::*;

verus! {

/// The two failures the core reports: one found while scanning source text,
/// one found while executing instructions.
#[derive(Debug)]
pub enum Error {
    CompileError(String),
    RuntimeError(String),
}

impl Error {
    /// The message carried by the error, without its prefix.
    pub open spec fn message(&self) -> Seq<char> {
        match self {
            Error::CompileError(msg) => msg@,
            Error::RuntimeError(msg) => msg@,
        }
    }

    /// The prefix that names the kind of the error.
    pub open spec fn prefix(&self) -> Seq<char> {
        match self {
            Error::CompileError(_) => "Compile Error: "@,
            Error::RuntimeError(_) => "Runtime Error: "@,
        }
    }

    /// The text shown to the user: the prefix followed by the message.
    pub fn render(&self) -> (text: String)
        ensures
            text@ == self.prefix() + self.message(),
    {
        match self {
            Error::CompileError(msg) => {
                let mut text = String::from_str("Compile Error: ");
                text.append(msg.as_str());
                text
            },
            Error::RuntimeError(msg) => {
                let mut text = String::from_str("Runtime Error: ");
                text.append(msg.as_str());
                text
            },
        }
    }
}

} // verus!
