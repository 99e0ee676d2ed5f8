//! What the inbox holds, and what a command leaves.
use vstd::prelude::*;

verus! {

/// One message of the inbox.
#[derive(Debug, PartialEq, Eq)]
pub struct InboxMessage {
    pub id: String,
    /// The name of the file that holds the message.
    pub filename: String,
    /// The path of that file, as it is shown.
    pub path: String,
    pub from: String,
    /// When it was sent, in milliseconds since 1970.
    pub timestamp_ms: u64,
    pub read: bool,
    pub body: String,
}

impl Clone for InboxMessage {
    fn clone(&self) -> (message: Self)
        ensures
            message == *self,
    {
        InboxMessage {
            id: self.id.clone(),
            filename: self.filename.clone(),
            path: self.path.clone(),
            from: self.from.clone(),
            timestamp_ms: self.timestamp_ms,
            read: self.read,
            body: self.body.clone(),
        }
    }
}

/// What a command leaves: its exit code and its two outputs.
#[derive(Debug, Clone, PartialEq, Eq)]
pub struct CliOutput {
    pub code: i32,
    pub stdout: String,
    pub stderr: String,
}

} // verus!
