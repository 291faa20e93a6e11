//! The library's error type.
use vstd::prelude::*;

verus! {

/// Every failure the library reports.
///
/// The causes that come from the operating system or from JSON encoding are
/// carried as their rendered message.
#[derive(Debug)]
pub enum MailError {
    /// The request broke a rule of the service.
    Validation(String),
    /// Mail's Automation interface cannot be reached.
    AutomationUnavailable(String),
    /// Mail refused or failed the operation.
    AutomationFailed(String),
    /// Mail did not answer within the given number of milliseconds.
    AutomationTimeout(u64),
    /// Mail answered with more data than the safety limit allows.
    OutputTooLarge,
    /// Mail's answer did not have the expected shape.
    InvalidResponse(String),
    /// The automation process could not be started.
    Io(String),
    /// Automation data could not be encoded or decoded.
    Json(String),
}

/// The usual result of the library.
pub type Result<T> = core::result::Result<T, MailError>;

impl MailError {
    /// A validation error with exactly this message.
    pub open spec fn is_validation(self, message: Seq<char>) -> bool {
        self matches MailError::Validation(m) && m@ == message
    }

    /// An automation failure with exactly this message.
    pub open spec fn is_automation_failure(self, message: Seq<char>) -> bool {
        self matches MailError::AutomationFailed(m) && m@ == message
    }

    /// A validation error carrying `message`.
    pub fn validation(message: &str) -> (r: MailError)
        ensures
            r.is_validation(message@),
    {
        MailError::Validation(message.to_owned())
    }

    /// An automation failure carrying `message`.
    pub fn automation_failed(message: &str) -> (r: MailError)
        ensures
            r.is_automation_failure(message@),
    {
        MailError::AutomationFailed(message.to_owned())
    }
}

/// `r` is what a check owes for `problem`: success when there is none, and
/// otherwise a validation error whose message is the problem.
pub open spec fn reports<T>(r: Result<T>, problem: Option<Seq<char>>) -> bool {
    match problem {
        None => r is Ok,
        Some(message) => r matches Err(e) && e.is_validation(message),
    }
}

} // verus!
