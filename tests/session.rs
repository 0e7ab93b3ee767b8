use sendmer::collection::ContentHash;
use sendmer::collection::ImportError;
use sendmer::session::{close_session, recv_dir_name, send_dir_name, SessionEnd, TransferError};

#[test]
fn send_dir_is_hex_of_suffix() {
    let suffix: [u8; 16] = [0, 1, 2, 3, 4, 5, 6, 7, 8, 9, 10, 11, 12, 13, 14, 255];
    assert_eq!(send_dir_name(&suffix), ".sendmer-send-000102030405060708090a0b0c0d0eff");
}

#[test]
fn recv_dir_is_hex_of_hash() {
    let mut bytes = [0xabu8; 32];
    bytes[0] = 0x01;
    let name = recv_dir_name(&ContentHash { bytes });
    assert_eq!(name, format!(".sendmer-recv-01{}", "ab".repeat(31)));
}

#[test]
fn cancellation_cleans_up_and_is_typed() {
    let c = close_session(SessionEnd::Interrupted);
    assert!(c.remove_temp_dir);
    assert!(c.shutdown_store);
    assert_eq!(c.error, Some(TransferError::Cancelled));
}

#[test]
fn failure_cleans_up_and_keeps_error() {
    let c = close_session(SessionEnd::Failed(TransferError::Import(ImportError::SourceMissing)));
    assert!(c.remove_temp_dir);
    assert_eq!(c.error, Some(TransferError::Import(ImportError::SourceMissing)));
}

#[test]
fn success_cleans_up() {
    let c = close_session(SessionEnd::Finished);
    assert!(c.remove_temp_dir);
    assert!(!c.shutdown_store);
    assert_eq!(c.error, None);
}

#[test]
fn fresh_send_dir_has_random_hex_suffix() {
    let name = sendmer::session::fresh_send_dir_name();
    let suffix = name.strip_prefix(".sendmer-send-").unwrap();
    assert_eq!(suffix.len(), 32);
    assert!(suffix.chars().all(|c| c.is_ascii_digit() || ('a'..='f').contains(&c)));
}
