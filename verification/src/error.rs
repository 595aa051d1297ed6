//! The errors of the library.

use vstd::prelude::*;
use vstd::string::*;

verus! {

/// What went wrong, with the message to show.
#[derive(Debug)]
pub enum Error {
    /// A repository could not be cloned or fetched.
    CloneFailed(String),
    /// The configuration could not be read or is not valid.
    Config(String),
    /// A file could not be read or written.
    Io(String),
}

/// What an [`Error`] stands for in contracts.
pub enum ErrorView {
    CloneFailed(Seq<char>),
    Config(Seq<char>),
    Io(Seq<char>),
}

impl View for Error {
    type V = ErrorView;

    open spec fn view(&self) -> ErrorView {
        match self {
            Error::CloneFailed(m) => ErrorView::CloneFailed(m@),
            Error::Config(m) => ErrorView::Config(m@),
            Error::Io(m) => ErrorView::Io(m@),
        }
    }
}

impl ErrorView {
    /// The message of the error, whatever its kind.
    pub open spec fn message(self) -> Seq<char> {
        match self {
            ErrorView::CloneFailed(m) => m,
            ErrorView::Config(m) => m,
            ErrorView::Io(m) => m,
        }
    }
}

impl Error {
    /// The message of the error.
    pub fn message(&self) -> (m: &str)
        ensures
            m@ == self@.message(),
    {
        match self {
            Error::CloneFailed(m) => m.as_str(),
            Error::Config(m) => m.as_str(),
            Error::Io(m) => m.as_str(),
        }
    }

    /// The error as it is shown: its message.
    pub fn to_string(&self) -> (s: String)
        ensures
            s@ == self@.message(),
    {
        self.message().to_owned()
    }
}

} // verus!
