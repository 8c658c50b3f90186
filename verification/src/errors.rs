use vstd::prelude::*;

verus! {

/// Errors raised by the engine's components.
#[derive(Debug)]
pub enum AppError {
    Config(String),
    Feed(String),
    Strategy(String),
    Risk(String),
    Execution(String),
    Unexpected(String),
}

/// The text that precedes the payload when an error is shown.
pub open spec fn error_prefix(e: AppError) -> Seq<char> {
    match e {
        AppError::Config(_) => "Configuration error "@,
        AppError::Feed(_) => "Feed error "@,
        AppError::Strategy(_) => "Strategy error "@,
        AppError::Risk(_) => "Risk error "@,
        AppError::Execution(_) => "Execution error "@,
        AppError::Unexpected(_) => "Unexpected error "@,
    }
}

/// The payload carried by an error.
pub open spec fn error_payload(e: AppError) -> Seq<char> {
    match e {
        AppError::Config(s) => s@,
        AppError::Feed(s) => s@,
        AppError::Strategy(s) => s@,
        AppError::Risk(s) => s@,
        AppError::Execution(s) => s@,
        AppError::Unexpected(s) => s@,
    }
}

impl AppError {
    /// The human-readable message of the error: its kind, a space, then its payload.
    pub fn message(&self) -> (r: String)
        ensures
            r@ == error_prefix(*self) + error_payload(*self),
    {
        let (prefix, payload) = match self {
            AppError::Config(s) => ("Configuration error ", s),
            AppError::Feed(s) => ("Feed error ", s),
            AppError::Strategy(s) => ("Strategy error ", s),
            AppError::Risk(s) => ("Risk error ", s),
            AppError::Execution(s) => ("Execution error ", s),
            AppError::Unexpected(s) => ("Unexpected error ", s),
        };
        let r = String::from_str(prefix);
        r.concat(payload.as_str())
    }
}

} // verus!
