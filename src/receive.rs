//! The figures and events of a finished or starting receive.

use vstd::prelude::*;
use crate::events::{Role, TransferEvent};
use crate::negotiate::{receive_message, receive_message_spec};

verus! {

/// What a receive hands back: a message for people, and where the data went.
pub struct ReceiveResult {
    pub message: String,
    pub file_path: String,
}

/// The result of a receive of `files` files and `bytes` payload bytes into
/// `file_path`.
///
/// When every blob was already present locally no sizes are negotiated, and
/// the payload is reported as zero bytes: only what crossed the network is
/// counted.
pub fn finish_receive(files: u64, bytes: u64, file_path: String) -> (r: ReceiveResult)
    ensures
        r.message@ == receive_message_spec(files, bytes),
        r.file_path == file_path,
{
    ReceiveResult { message: receive_message(files, bytes), file_path }
}

/// The event that announces the received file names, before any is written;
/// none when there are no names.
pub fn file_names_event(names: Vec<String>) -> (r: Option<TransferEvent>)
    ensures
        names@.len() == 0 ==> r is None,
        names@.len() > 0 ==> r == Some(
            TransferEvent::FileNames { role: Role::Receiver, file_names: names },
        ),
{
    if names.len() == 0 {
        None
    } else {
        Some(TransferEvent::FileNames { role: Role::Receiver, file_names: names })
    }
}

/// The events that open a receive. A reporting window opens; when every
/// blob is already present locally nothing crosses the network, and the
/// window closes at once.
pub fn opening_events(local_complete: bool) -> (r: Vec<TransferEvent>)
    ensures
        local_complete ==> r@ == seq![
            (TransferEvent::Started { role: Role::Receiver }),
            (TransferEvent::Completed { role: Role::Receiver }),
        ],
        !local_complete ==> r@ == seq![(TransferEvent::Started { role: Role::Receiver })],
{
    let mut events: Vec<TransferEvent> = Vec::new();
    events.push(TransferEvent::Started { role: Role::Receiver });
    if local_complete {
        events.push(TransferEvent::Completed { role: Role::Receiver });
    }
    proof {
        if local_complete {
            assert(events@ =~= seq![
                (TransferEvent::Started { role: Role::Receiver }),
                (TransferEvent::Completed { role: Role::Receiver }),
            ]);
        } else {
            assert(events@ =~= seq![(TransferEvent::Started { role: Role::Receiver })]);
        }
    }
    events
}

} // verus!
