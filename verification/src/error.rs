//! The failures that a request or a refresh cycle can end in.

use vstd::prelude::*;
use vstd::string::StringExecFns;

verus! {

/// Why a request could not be answered, or a fetch did not succeed.
#[derive(Debug)]
pub enum LotteryError {
    /// No attendee list is there to draw from.
    NoEventAvailable,
    /// Something outside the request went wrong; the text is the cause.
    TechnicalError(String),
    /// A required query parameter, named here, is absent.
    MissingArgument(String),
    /// A query parameter (first) is malformed, for the reason given (second).
    InvalidArgument(String, String),
}

/// What a [`LotteryError`] stands for, with its texts as character sequences.
pub enum ErrorView {
    NoEventAvailable,
    TechnicalError(Seq<char>),
    MissingArgument(Seq<char>),
    InvalidArgument(Seq<char>, Seq<char>),
}

impl View for LotteryError {
    type V = ErrorView;

    open spec fn view(&self) -> ErrorView {
        match self {
            LotteryError::NoEventAvailable => ErrorView::NoEventAvailable,
            LotteryError::TechnicalError(cause) => ErrorView::TechnicalError(cause@),
            LotteryError::MissingArgument(name) => ErrorView::MissingArgument(name@),
            LotteryError::InvalidArgument(name, reason) => ErrorView::InvalidArgument(
                name@,
                reason@,
            ),
        }
    }
}

impl DeepView for LotteryError {
    type V = ErrorView;

    open spec fn deep_view(&self) -> ErrorView {
        self@
    }
}

impl PartialEq for LotteryError {
    fn eq(&self, other: &Self) -> (same: bool) {
        match (self, other) {
            (LotteryError::NoEventAvailable, LotteryError::NoEventAvailable) => true,
            (LotteryError::TechnicalError(cause), LotteryError::TechnicalError(other_cause)) => {
                *cause == *other_cause
            },
            (LotteryError::MissingArgument(name), LotteryError::MissingArgument(other_name)) => {
                *name == *other_name
            },
            (
                LotteryError::InvalidArgument(name, reason),
                LotteryError::InvalidArgument(other_name, other_reason),
            ) => *name == *other_name && *reason == *other_reason,
            _ => false,
        }
    }
}

impl vstd::std_specs::cmp::PartialEqSpecImpl for LotteryError {
    open spec fn obeys_eq_spec() -> bool {
        true
    }

    open spec fn eq_spec(&self, other: &Self) -> bool {
        self@ == other@
    }
}

impl ErrorView {
    /// The short name of the error's class.
    pub open spec fn description(self) -> Seq<char> {
        match self {
            ErrorView::NoEventAvailable => "No event available"@,
            ErrorView::TechnicalError(_) => "Technical error"@,
            ErrorView::MissingArgument(_) => "Missing argument"@,
            ErrorView::InvalidArgument(_, _) => "Invalid argument"@,
        }
    }

    /// The underlying cause, which only a technical error has.
    pub open spec fn cause(self) -> Option<Seq<char>> {
        match self {
            ErrorView::TechnicalError(cause) => Some(cause),
            _ => None,
        }
    }

    /// The sentence shown to a client.
    pub open spec fn message(self) -> Seq<char> {
        match self {
            ErrorView::NoEventAvailable => "No event available"@,
            ErrorView::TechnicalError(cause) => "Technical error: "@ + cause,
            ErrorView::MissingArgument(name) => "Missing argument "@ + name,
            ErrorView::InvalidArgument(name, reason) => "Invalid argument "@ + name
                + " reason : "@ + reason,
        }
    }

    /// The HTTP status that answers a request ending in this error: 410 where
    /// there is nothing to draw from, 400 for a bad parameter, 500 otherwise.
    pub open spec fn status_code(self) -> u16 {
        match self {
            ErrorView::NoEventAvailable => 410,
            ErrorView::TechnicalError(_) => 500,
            ErrorView::MissingArgument(_) => 400,
            ErrorView::InvalidArgument(_, _) => 400,
        }
    }
}

impl LotteryError {
    /// The short name of the error's class.
    pub fn description(&self) -> (text: &'static str)
        ensures
            text@ == self@.description(),
    {
        match self {
            LotteryError::NoEventAvailable => "No event available",
            LotteryError::TechnicalError(_) => "Technical error",
            LotteryError::MissingArgument(_) => "Missing argument",
            LotteryError::InvalidArgument(_, _) => "Invalid argument",
        }
    }

    /// The underlying cause: the text of a technical error, nothing for the
    /// others.
    pub fn cause(&self) -> (cause: Option<&String>)
        ensures
            cause.deep_view() == self@.cause(),
    {
        match self {
            LotteryError::TechnicalError(cause) => Some(cause),
            _ => None,
        }
    }

    /// The sentence shown to a client.
    pub fn message(&self) -> (text: String)
        ensures
            text@ == self@.message(),
    {
        match self {
            LotteryError::NoEventAvailable => String::from_str("No event available"),
            LotteryError::TechnicalError(cause) => {
                String::from_str("Technical error: ").concat(cause.as_str())
            },
            LotteryError::MissingArgument(name) => {
                String::from_str("Missing argument ").concat(name.as_str())
            },
            LotteryError::InvalidArgument(name, reason) => {
                String::from_str("Invalid argument ").concat(name.as_str()).concat(
                    " reason : ",
                ).concat(reason.as_str())
            },
        }
    }

    /// The HTTP status that answers a request ending in this error.
    pub fn status_code(&self) -> (code: u16)
        ensures
            code == self@.status_code(),
    {
        match self {
            LotteryError::NoEventAvailable => 410,
            LotteryError::TechnicalError(_) => 500,
            LotteryError::MissingArgument(_) => 400,
            LotteryError::InvalidArgument(_, _) => 400,
        }
    }
}

} // verus!
