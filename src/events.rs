//! Lifecycle and progress events, reported to an observer and never part of
//! control flow.

use vstd::prelude::*;
use vstd::string::*;

verus! {

/// Which side of a transfer an event comes from.
#[derive(Clone, Copy, Debug, PartialEq, Eq, Structural)]
pub enum Role {
    Sender,
    Receiver,
}

pub open spec fn role_name(r: Role) -> Seq<char> {
    match r {
        Role::Sender => "sender"@,
        Role::Receiver => "receiver"@,
    }
}

impl Role {
    /// The role's name in event names.
    pub fn as_str(&self) -> (r: &'static str)
        ensures
            r@ == role_name(*self),
    {
        match self {
            Role::Sender => "sender",
            Role::Receiver => "receiver",
        }
    }
}

/// One event of a transfer.
pub enum TransferEvent {
    /// A reporting window opens.
    Started { role: Role },
    /// Bytes processed so far out of a total, at a speed in bytes per second.
    Progress { role: Role, processed: u64, total: u64, speed: u64 },
    /// The reporting window closes after success.
    Completed { role: Role },
    /// The reporting window closes after a failure.
    Failed { role: Role, message: String },
    /// The names of the files being received.
    FileNames { role: Role, file_names: Vec<String> },
}

pub open spec fn state_name(e: TransferEvent) -> Seq<char> {
    match e {
        TransferEvent::Started { .. } => "started"@,
        TransferEvent::Progress { .. } => "progress"@,
        TransferEvent::Completed { .. } => "completed"@,
        TransferEvent::Failed { .. } => "failed"@,
        TransferEvent::FileNames { .. } => "file-names"@,
    }
}

pub open spec fn role_of(e: TransferEvent) -> Role {
    match e {
        TransferEvent::Started { role } => role,
        TransferEvent::Progress { role, .. } => role,
        TransferEvent::Completed { role } => role,
        TransferEvent::Failed { role, .. } => role,
        TransferEvent::FileNames { role, .. } => role,
    }
}

impl TransferEvent {
    /// The name of the event's kind.
    pub fn state(&self) -> (r: &'static str)
        ensures
            r@ == state_name(*self),
    {
        match self {
            TransferEvent::Started { .. } => "started",
            TransferEvent::Progress { .. } => "progress",
            TransferEvent::Completed { .. } => "completed",
            TransferEvent::Failed { .. } => "failed",
            TransferEvent::FileNames { .. } => "file-names",
        }
    }

    /// The side the event comes from.
    pub fn role(&self) -> (r: Role)
        ensures
            r == role_of(*self),
    {
        match self {
            TransferEvent::Started { role } => *role,
            TransferEvent::Progress { role, .. } => *role,
            TransferEvent::Completed { role } => *role,
            TransferEvent::Failed { role, .. } => *role,
            TransferEvent::FileNames { role, .. } => *role,
        }
    }

    /// The event's full name, `transfer:<role>:<state>`.
    pub fn event_name(&self) -> (r: String)
        ensures
            r@ == "transfer:"@ + role_name(role_of(*self)) + ":"@ + state_name(*self),
    {
        let mut name = String::from_str("transfer:");
        name.append(self.role().as_str());
        name.append(":");
        name.append(self.state());
        name
    }
}

} // verus!
