//! The ways in which the set-up ends without a secrets file.

use vstd::prelude::*;

verus! {

/// Why a run of the set-up stopped.
#[derive(Debug)]
pub enum Error {
    /// The user declined one of the two confirmations.
    UserAborted,
    /// A directory or the secrets file could not be created or written.
    Io(String),
    /// The record could not be encoded.
    Encoding(String),
    /// The console could not ask or could not read an answer.
    Interaction(String),
}

/// The mathematical value of an [`Error`].
pub enum ErrorView {
    UserAborted,
    Io(Seq<char>),
    Encoding(Seq<char>),
    Interaction(Seq<char>),
}

/// What the user is told when they decline a confirmation.
pub open spec fn abort_message() -> Seq<char> {
    "Halting init"@
}

impl ErrorView {
    /// The text shown to the user: for a declined confirmation a fixed
    /// sentence, otherwise the message of the underlying failure.
    pub open spec fn message(self) -> Seq<char> {
        match self {
            ErrorView::UserAborted => abort_message(),
            ErrorView::Io(text) => text,
            ErrorView::Encoding(text) => text,
            ErrorView::Interaction(text) => text,
        }
    }

    /// The run stopped on a defect, not on the user's wish.
    pub open spec fn is_fatal(self) -> bool {
        !(self is UserAborted)
    }
}

impl View for Error {
    type V = ErrorView;

    open spec fn view(&self) -> ErrorView {
        match self {
            Error::UserAborted => ErrorView::UserAborted,
            Error::Io(text) => ErrorView::Io(text@),
            Error::Encoding(text) => ErrorView::Encoding(text@),
            Error::Interaction(text) => ErrorView::Interaction(text@),
        }
    }
}

impl Error {
    /// The text to show to the user.
    pub fn message(&self) -> (text: String)
        ensures
            text@ == self@.message(),
    {
        match self {
            Error::UserAborted => "Halting init".to_owned(),
            Error::Io(text) => text.clone(),
            Error::Encoding(text) => text.clone(),
            Error::Interaction(text) => text.clone(),
        }
    }

    /// Whether the run stopped on a defect; declining a confirmation is
    /// an expected way out.
    pub fn is_fatal(&self) -> (fatal: bool)
        ensures
            fatal == self@.is_fatal(),
    {
        match self {
            Error::UserAborted => false,
            _ => true,
        }
    }

    /// A copy of the error.
    pub fn duplicate(&self) -> (copy: Error)
        ensures
            copy@ == self@,
    {
        match self {
            Error::UserAborted => Error::UserAborted,
            Error::Io(text) => Error::Io(text.clone()),
            Error::Encoding(text) => Error::Encoding(text.clone()),
            Error::Interaction(text) => Error::Interaction(text.clone()),
        }
    }
}

} // verus!
