//! The commands of the command line, as plain values.

use crate::local_store::SyncStatus;
use vstd::prelude::*;

verus! {

/// What the server program can be asked to do.
#[derive(Debug, Clone, PartialEq, Eq)]
pub enum ServerCommands {
    Run,
    Init,
    AddUser { username: String, key_file: String },
    DelUser { username: String },
    SetUser { username: String, key_file: String },
    ListUsers,
}

/// What the client program can be asked to do.
#[derive(Debug, Clone, PartialEq, Eq)]
pub enum ClientCommands {
    Init,
    New { title: String },
    Append { uuid: String, prompt: String },
    Run { uuid: String },
    List,
    SyncList,
    Delete { uuid: String },
    Sync { uuid: String },
    Tui,
}

/// How a session is sent when the user asks for it to run.
#[derive(Debug, Clone, Copy, PartialEq, Eq, Structural)]
pub enum SendPlan {
    /// The session holds unsent edits: submit its transcript.
    Submit,
    /// Reconcile it with the server by the times of the last change.
    Sync,
}

/// A session with unsent local edits is submitted; any other is reconciled
/// with the server.
pub fn send_plan(status: SyncStatus) -> (plan: SendPlan)
    ensures
        plan == if status.is_unsent() {
            SendPlan::Submit
        } else {
            SendPlan::Sync
        },
{
    match status {
        SyncStatus::Local => SendPlan::Submit,
        SyncStatus::Modified => SendPlan::Submit,
        _ => SendPlan::Sync,
    }
}

} // verus!
