use vstd::prelude::*;
use vstd::string::StringExecFns;
use crate::error::E2EError;

verus! {

/// Which generator writes the greetings.
#[derive(Debug, Clone, Copy, PartialEq, Eq)]
pub enum MessageGeneratorKind {
    /// The same fixed greeting every time.
    Local,
    /// A greeting written by a local language model.
    Ollama,
}

/// The settings of one run.
#[derive(Debug, Clone)]
pub struct E2ETestConfig {
    pub greeting_receiver_url: String,
    pub greeting_api_url: String,
    /// How many log entries one poll asks for at most.
    pub greeting_log_limit: u16,
    /// How many greetings to generate and send.
    pub num_iterations: u16,
    pub message_generator: MessageGeneratorKind,
    /// How many seconds the log gets to record every sent greeting.
    pub verification_timeout_secs: u64,
}

/// The address that a configuration template points both services at.
pub open spec fn default_url() -> Seq<char> {
    "http://localhost:80800"@
}

impl Default for E2ETestConfig {
    fn default() -> (r: E2ETestConfig)
        ensures
            r.greeting_receiver_url@ == default_url(),
            r.greeting_api_url@ == default_url(),
            r.greeting_log_limit == 10,
            r.num_iterations == 0,
            r.message_generator == MessageGeneratorKind::Local,
            r.verification_timeout_secs == 10,
    {
        E2ETestConfig {
            greeting_receiver_url: String::from_str("http://localhost:80800"),
            greeting_api_url: String::from_str("http://localhost:80800"),
            greeting_log_limit: 10,
            num_iterations: 0,
            message_generator: MessageGeneratorKind::Local,
            verification_timeout_secs: 10,
        }
    }
}

impl E2ETestConfig {
    /// A run must ask for at least one greeting.
    pub fn validate(&self) -> (r: Result<(), E2EError>)
        ensures
            r is Ok <==> self.num_iterations > 0,
            r matches Err(e) ==> e is ValidationError,
    {
        if self.num_iterations == 0 {
            Err(E2EError::ValidationError(String::from_str("num_iterations must be at least 1")))
        } else {
            Ok(())
        }
    }
}

} // verus!
