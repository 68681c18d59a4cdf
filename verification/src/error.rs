//! What can go wrong when the logger is set up.

use log::SetLoggerError;
use std::io::Error;
use vstd::prelude::*;

verus! {

/// `log::SetLoggerError`: another logger was set before.
#[verifier::external_type_specification]
#[verifier::external_body]
pub struct ExSetLoggerError(SetLoggerError);

/// `std::io::Error`, here from the attempt to start a thread.
#[verifier::external_type_specification]
#[verifier::external_body]
pub struct ExIoError(Error);

/// The reasons why the logger could not be set up.
#[derive(Debug)]
pub enum TuiLoggerError {
    SetLoggerError(SetLoggerError),
    ThreadError(Error),
}

/// The message of a `log::SetLoggerError`.
pub open spec fn set_logger_text() -> Seq<char> {
    "attempted to set a logger after the logging system was already initialized"@
}

/// The `Display` of `log::SetLoggerError`, which is the same text for every such error.
#[verifier::external_body]
fn set_logger_error_text(err: &SetLoggerError) -> (r: String)
    ensures
        r@ == set_logger_text(),
{
    err.to_string()
}

/// Whether a text is one that the `Display` of a `std::io::Error` gives. The text comes from the
/// operating system in part, so that there may be several.
pub uninterp spec fn io_error_says(err: Error, text: Seq<char>) -> bool;

/// The `Display` of `std::io::Error`. Which text it gives for an error is left to the operating
/// system.
#[verifier::external_body]
fn io_error_text(err: &Error) -> (r: String)
    ensures
        io_error_says(*err, r@),
{
    err.to_string()
}

impl TuiLoggerError {
    /// The name of the variant.
    pub open spec fn name(self) -> Seq<char> {
        match self {
            TuiLoggerError::SetLoggerError(_) => "SetLoggerError"@,
            TuiLoggerError::ThreadError(_) => "ThreadError"@,
        }
    }

    /// The message of the error for a message of what it was caused by.
    pub open spec fn message_for(self, cause: Seq<char>) -> Seq<char> {
        self.name() + "("@ + cause + ")"@
    }

    /// A short description: the name of the variant.
    pub fn description(&self) -> (r: &'static str)
        ensures
            r@ == self.name(),
    {
        match self {
            TuiLoggerError::SetLoggerError(_) => "SetLoggerError",
            TuiLoggerError::ThreadError(_) => "ThreadError",
        }
    }

    /// The underlying error, if there is one.
    pub fn cause(&self) -> (r: Option<&Error>)
        ensures
            match *self {
                TuiLoggerError::SetLoggerError(_) => r is None,
                TuiLoggerError::ThreadError(err) => r == Some(&err),
            },
    {
        match self {
            TuiLoggerError::SetLoggerError(_) => None,
            TuiLoggerError::ThreadError(err) => Some(err),
        }
    }

    /// The message of the error for a message of what it was caused by.
    pub fn message_with(&self, cause: &str) -> (r: String)
        ensures
            r@ == self.message_for(cause@),
    {
        let mut out: String = self.description().to_owned();
        out.append("(");
        out.append(cause);
        out.append(")");
        out
    }

    /// The message of the error.
    pub fn message(&self) -> (r: String)
        ensures
            match *self {
                TuiLoggerError::SetLoggerError(_) => r@ == self.message_for(set_logger_text()),
                TuiLoggerError::ThreadError(err) => exists|cause: Seq<char>| #[trigger]
                    io_error_says(err, cause) && r@ == self.message_for(cause),
            },
    {
        match self {
            TuiLoggerError::SetLoggerError(err) => {
                let cause: String = set_logger_error_text(err);
                self.message_with(cause.as_str())
            },
            TuiLoggerError::ThreadError(err) => {
                let cause: String = io_error_text(err);
                self.message_with(cause.as_str())
            },
        }
    }
}

/// An error is told by its name and, in parentheses, by what it was caused by. Only an error of a
/// thread has a cause to be asked for.
pub proof fn law_errors_tell_cause(err: TuiLoggerError, cause: &str)
    ensures
        forall|r: String| #[trigger]
            call_ensures(TuiLoggerError::message_with, (&err, cause), r) ==> {
                &&& err is SetLoggerError ==> r@ == "SetLoggerError"@ + "("@ + cause@ + ")"@
                &&& err is ThreadError ==> r@ == "ThreadError"@ + "("@ + cause@ + ")"@
            },
        forall|r: &'static str| #[trigger]
            call_ensures(TuiLoggerError::description, (&err,), r) ==> {
                &&& err is SetLoggerError ==> r@ == "SetLoggerError"@
                &&& err is ThreadError ==> r@ == "ThreadError"@
            },
        forall|r: Option<&Error>| #[trigger]
            call_ensures(TuiLoggerError::cause, (&err,), r) ==> (match err {
                TuiLoggerError::SetLoggerError(_) => r is None,
                TuiLoggerError::ThreadError(inner) => r == Some(&inner),
            }),
        forall|r: String| #[trigger]
            call_ensures(TuiLoggerError::message, (&err,), r) ==> (match err {
                TuiLoggerError::SetLoggerError(_) => r@ == "SetLoggerError"@ + "("@
                    + "attempted to set a logger after the logging system was already initialized"@
                    + ")"@,
                TuiLoggerError::ThreadError(inner) => exists|text: Seq<char>| #[trigger]
                    io_error_says(inner, text) && r@ == "ThreadError"@ + "("@ + text + ")"@,
            }),
{
}

} // verus!
