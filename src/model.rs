use vstd::prelude::*;

verus! {

/// A UTC instant: whole seconds since the Unix epoch and the nanoseconds past them.
#[derive(Debug, Clone, Copy, PartialEq, Eq)]
pub struct Timestamp {
    pub secs: i64,
    pub nanos: u32,
}

/// The content of one greeting, before it is addressed to the receiver.
#[derive(Debug, Clone)]
pub struct GreetingTemplate {
    pub to: String,
    pub from: String,
    pub heading: String,
    pub message: String,
}

/// A greeting command as submitted to the receiver.
#[derive(Debug, Clone)]
pub struct GreetingCmd {
    pub external_reference: String,
    pub to: String,
    pub from: String,
    pub heading: String,
    pub message: String,
    pub created: Timestamp,
}

/// The receiver's acknowledgement: the identifier it gave the message.
#[derive(Debug, Clone, PartialEq, Eq)]
pub struct GreetingResponse {
    pub message_id: String,
}

/// One durable record of the log API.
#[derive(Debug, Clone, PartialEq, Eq)]
pub struct GreetingLoggEntry {
    /// Sequence id: the log's offset, strictly increasing.
    pub id: i64,
    pub greeting_id: i64,
    /// The receiver's identifier of the message that this entry records.
    pub message_id: String,
    pub created: Timestamp,
}

impl GreetingLoggEntry {
    /// An exact copy of the entry.
    pub fn duplicate(&self) -> (r: GreetingLoggEntry)
        ensures
            r == *self,
    {
        GreetingLoggEntry {
            id: self.id,
            greeting_id: self.greeting_id,
            message_id: self.message_id.clone(),
            created: self.created,
        }
    }
}

/// The harness's record of one generated message.
#[derive(Debug, Clone)]
pub struct TestTask {
    pub external_reference: String,
    pub message: GreetingCmd,
    /// The receiver's identifier, present once the send succeeded.
    pub message_id: Option<String>,
    /// The log entry that recorded the message, present once it was seen.
    pub greeting_logg_entry: Option<GreetingLoggEntry>,
}

impl TestTask {
    /// A task in its first state: generated, not yet sent.
    pub fn created(message: GreetingCmd) -> (r: TestTask)
        ensures
            r.external_reference == message.external_reference,
            r.message == message,
            r.message_id is None,
            r.greeting_logg_entry is None,
    {
        TestTask {
            external_reference: message.external_reference.clone(),
            message,
            message_id: None,
            greeting_logg_entry: None,
        }
    }

    /// Whether an entry is attached.
    pub fn is_verified(&self) -> (r: bool)
        ensures
            r == self.greeting_logg_entry is Some,
    {
        self.greeting_logg_entry.is_some()
    }
}

} // verus!
