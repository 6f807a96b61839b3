use vstd::prelude::*;
use vstd::string::StringExecFns;

verus! {

/// What can make an end-to-end run fail.
#[derive(Debug, Clone, PartialEq, Eq)]
pub enum E2EError {
    /// The configuration file could not be loaded.
    ConfigError(String),
    /// The requested log level could not be parsed.
    LoggParseError(String),
    /// A request to the receiver or to the log API failed.
    ClientError(String),
    /// The log did not record every sent message before the deadline.
    TimeoutError(String),
    /// A message generator produced nothing usable.
    GenerateMessageError(String),
    /// A configuration or message value is out of its allowed range.
    ValidationError(String),
}

/// The text that introduces an error of each kind.
pub open spec fn error_prefix(e: E2EError) -> Seq<char> {
    match e {
        E2EError::ConfigError(_) => "E2E config error: "@,
        E2EError::LoggParseError(_) => "E2E log level error: "@,
        E2EError::ClientError(_) => "Client error: "@,
        E2EError::TimeoutError(_) => "Timeout error: "@,
        E2EError::GenerateMessageError(_) => "Generate message error: "@,
        E2EError::ValidationError(_) => "Validation error: "@,
    }
}

/// The detail that an error carries.
pub open spec fn error_detail(e: E2EError) -> Seq<char> {
    match e {
        E2EError::ConfigError(d) => d@,
        E2EError::LoggParseError(d) => d@,
        E2EError::ClientError(d) => d@,
        E2EError::TimeoutError(d) => d@,
        E2EError::GenerateMessageError(d) => d@,
        E2EError::ValidationError(d) => d@,
    }
}

impl E2EError {
    /// A human-readable description: the kind of the error, then its detail.
    pub fn describe(&self) -> (r: String)
        ensures
            r@ == error_prefix(*self) + error_detail(*self),
    {
        let (prefix, detail) = match self {
            E2EError::ConfigError(d) => ("E2E config error: ", d),
            E2EError::LoggParseError(d) => ("E2E log level error: ", d),
            E2EError::ClientError(d) => ("Client error: ", d),
            E2EError::TimeoutError(d) => ("Timeout error: ", d),
            E2EError::GenerateMessageError(d) => ("Generate message error: ", d),
            E2EError::ValidationError(d) => ("Validation error: ", d),
        };
        let mut r = String::from_str(prefix);
        r.append(detail.as_str());
        r
    }
}

} // verus!
