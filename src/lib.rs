//! Verified core of an end-to-end harness for a greeting receiver and its log API.
//!
//! The library decides; the caller performs the I/O. It tracks the messages that
//! were sent, polls the log from an advancing offset, and matches log entries to
//! the messages they record.

mod config;
mod engine;
mod error;
mod generators;
mod http;
mod laws;
mod model;
mod registry;
mod stamp;

pub use config::{E2ETestConfig, MessageGeneratorKind};
pub use engine::{
    generate_test_tasks, starting_offset, LoggQuery, PageOutcome, PollAction, Verification,
};
pub use error::E2EError;
pub use generators::{
    generate_random_message, parse_message, select_json_lines, tasks_from_payloads,
    LocalMessageGenerator, OllamaMessageGenerator,
};
pub use http::{classify_log_status, is_send_success, ResponseClass};
pub use model::{
    GreetingCmd, GreetingLoggEntry, GreetingResponse, GreetingTemplate, TestTask, Timestamp,
};
pub use registry::{send_messages, TaskRegistry, VerificationSummary};
