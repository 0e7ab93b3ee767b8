//! Orchestration logic for sharing a file or directory between two peers:
//! turning paths into collection names and back, building tickets, sorting
//! imported entries into a collection, negotiating a retrieval with bounded
//! retries, exporting without overwriting, and closing a session.

pub mod collection;
pub mod events;
pub mod export;
pub mod negotiate;
pub mod options;
pub mod path;
pub mod receive;
pub mod session;
pub mod ticket;
