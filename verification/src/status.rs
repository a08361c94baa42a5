//! Status-line messages and their severity.
use vstd::prelude::*;

use crate::navigation::NavigationActionResult;
use vstd::string::StringExecFns;

verus! {

/// How loudly a status message should read.
#[derive(Debug, Clone, PartialEq, Eq, Structural)]
pub enum StatusLevel {
    Info,
    Warning,
    Error,
}

/// One status-line message.
#[derive(Debug, Clone)]
pub struct StatusMessage {
    pub level: StatusLevel,
    pub text: String,
}

impl StatusMessage {
    /// An informational message.
    pub fn info(text: &str) -> (r: Self)
        ensures
            r.level is Info,
            r.text@ == text@,
    {
        StatusMessage { level: StatusLevel::Info, text: text.to_owned() }
    }

    /// A warning.
    pub fn warning(text: &str) -> (r: Self)
        ensures
            r.level is Warning,
            r.text@ == text@,
    {
        StatusMessage { level: StatusLevel::Warning, text: text.to_owned() }
    }

    /// An error message.
    pub fn error(text: &str) -> (r: Self)
        ensures
            r.level is Error,
            r.text@ == text@,
    {
        StatusMessage { level: StatusLevel::Error, text: text.to_owned() }
    }
}

/// The status text a navigation outcome shows: its message, whatever the
/// outcome.
pub fn navigation_status_message(result: &NavigationActionResult) -> (r: String)
    ensures
        r@ == result.message@,
{
    let mut r = String::new();
    r.append(result.message.as_str());
    r
}

} // verus!
