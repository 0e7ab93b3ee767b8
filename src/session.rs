//! The envelope of one send or receive: its working directory's name, its
//! error taxonomy, and what to clean up when it ends.

use vstd::prelude::*;
use vstd::string::*;
use crate::collection::{ContentHash, ImportError};
use crate::negotiate::GetErrorKind;
use crate::path::PathError;

verus! {

pub open spec fn hex_digit(n: nat) -> char {
    if n < 10 {
        ('0' as u32 + n) as char
    } else {
        ('a' as u32 + (n - 10)) as char
    }
}

/// Two lowercase hexadecimal digits per byte, the high half first.
pub open spec fn hex_lower(b: Seq<u8>) -> Seq<char>
    decreases b.len(),
{
    if b.len() == 0 {
        Seq::empty()
    } else {
        hex_lower(b.drop_last()) + seq![
            hex_digit((b.last() / 16) as nat),
            hex_digit((b.last() % 16) as nat),
        ]
    }
}

/// Relies on `data_encoding::HEXLOWER.encode`: each byte becomes two
/// characters of "0123456789abcdef", the high half first, in byte order.
#[verifier::external_body]
fn hex_lower_encode(bytes: &[u8]) -> (r: String)
    requires
        bytes@.len() <= 1024,
    ensures
        r@ == hex_lower(bytes@),
{
    data_encoding::HEXLOWER.encode(bytes)
}

/// The name of a sending session's working directory, made unique by a
/// random suffix.
pub fn send_dir_name(suffix: &[u8; 16]) -> (r: String)
    ensures
        r@ == ".sendmer-send-"@ + hex_lower(suffix@),
{
    let mut name = String::from_str(".sendmer-send-");
    let hex = hex_lower_encode(suffix.as_slice());
    name.append(hex.as_str());
    name
}

/// Relies on `rand::random`: sixteen bytes from the thread-local generator;
/// nothing is promised of their values.
#[verifier::external_body]
fn random_suffix() -> (r: [u8; 16]) {
    rand::random::<[u8; 16]>()
}

/// A fresh name for a sending session's working directory, with a random
/// suffix.
pub fn fresh_send_dir_name() -> (r: String)
    ensures
        exists|suffix: Seq<u8>| suffix.len() == 16 && r@ == ".sendmer-send-"@ + #[trigger] hex_lower(suffix),
{
    let suffix = random_suffix();
    let r = send_dir_name(&suffix);
    assert(suffix@.len() == 16 && r@ == ".sendmer-send-"@ + hex_lower(suffix@));
    r
}

/// The name of a receiving session's working directory, derived from the
/// root hash it receives.
pub fn recv_dir_name(hash: &ContentHash) -> (r: String)
    ensures
        r@ == ".sendmer-recv-"@ + hex_lower(hash.bytes@),
{
    let mut name = String::from_str(".sendmer-recv-");
    let hex = hex_lower_encode(hash.bytes.as_slice());
    name.append(hex.as_str());
    name
}

/// Why a transfer failed.
#[derive(Debug, PartialEq, Eq)]
pub enum TransferError {
    /// A path or name broke the component rule.
    Path(PathError),
    /// The import failed; no collection was produced.
    Import(ImportError),
    /// The sender could not be reached.
    Connect,
    /// The retrieval failed in the given way.
    Network(GetErrorKind),
    /// The announced sizes add up to more than a `u64` holds.
    PayloadTooLarge,
    /// The named entry's target already exists; nothing was overwritten.
    ExportConflict(String),
    /// Writing the named entry failed.
    Export(String),
    /// The user interrupted the session.
    Cancelled,
}

/// How a session's body ended.
pub enum SessionEnd {
    /// It completed.
    Finished,
    /// It failed with this error.
    Failed(TransferError),
    /// The cancellation signal arrived first.
    Interrupted,
}

/// What to do when a session ends.
pub struct SessionClose {
    /// Shut the storage engine down first.
    pub shutdown_store: bool,
    /// Remove the session's working directory.
    pub remove_temp_dir: bool,
    /// The error to hand to the caller, if any.
    pub error: Option<TransferError>,
}

pub open spec fn closing(end: SessionEnd) -> SessionClose {
    match end {
        SessionEnd::Finished => SessionClose {
            shutdown_store: false,
            remove_temp_dir: true,
            error: None,
        },
        SessionEnd::Failed(e) => SessionClose {
            shutdown_store: true,
            remove_temp_dir: true,
            error: Some(e),
        },
        SessionEnd::Interrupted => SessionClose {
            shutdown_store: true,
            remove_temp_dir: true,
            error: Some(TransferError::Cancelled),
        },
    }
}

/// Decides how a session closes: its working directory is removed however
/// it ended; a failure is handed on as it is, after the store is shut down;
/// an interruption becomes `Cancelled`.
pub fn close_session(end: SessionEnd) -> (r: SessionClose)
    ensures
        r == closing(end),
{
    match end {
        SessionEnd::Finished => SessionClose { shutdown_store: false, remove_temp_dir: true, error: None },
        SessionEnd::Failed(e) => SessionClose { shutdown_store: true, remove_temp_dir: true, error: Some(e) },
        SessionEnd::Interrupted => SessionClose {
            shutdown_store: true,
            remove_temp_dir: true,
            error: Some(TransferError::Cancelled),
        },
    }
}

/// Every session removes its working directory, and an interrupted one
/// reports `Cancelled`, never a failure of another kind; a failure keeps its
/// own error.
pub proof fn lemma_session_cleanup(end: SessionEnd)
    ensures
        closing(end).remove_temp_dir,
        end is Interrupted ==> closing(end).error == Some(TransferError::Cancelled),
        end is Failed ==> closing(end).error == Some(end->Failed_0),
        end is Finished ==> closing(end).error is None,
{
}

} // verus!
