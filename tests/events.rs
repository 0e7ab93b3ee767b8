use sendmer::events::{Role, TransferEvent};
use sendmer::options::Format;
use sendmer::receive::{file_names_event, finish_receive};

#[test]
fn role_names() {
    assert_eq!(Role::Sender.as_str(), "sender");
    assert_eq!(Role::Receiver.as_str(), "receiver");
}

#[test]
fn event_names() {
    let e = TransferEvent::Progress { role: Role::Receiver, processed: 0, total: 100, speed: 0 };
    assert_eq!(e.event_name(), "transfer:receiver:progress");
    assert_eq!(e.state(), "progress");
    assert_eq!(e.role(), Role::Receiver);
    let s = TransferEvent::Started { role: Role::Sender };
    assert_eq!(s.event_name(), "transfer:sender:started");
    let f = TransferEvent::FileNames { role: Role::Receiver, file_names: vec![] };
    assert_eq!(f.state(), "file-names");
    let x = TransferEvent::Failed { role: Role::Sender, message: "boom".to_string() };
    assert_eq!(x.event_name(), "transfer:sender:failed");
    assert_eq!(TransferEvent::Completed { role: Role::Receiver }.state(), "completed");
}

#[test]
fn format_names() {
    assert_eq!(Format::parse("hex"), Some(Format::Hex));
    assert_eq!(Format::parse("HEX"), Some(Format::Hex));
    assert_eq!(Format::parse("Cid"), Some(Format::Cid));
    assert_eq!(Format::parse("base32"), None);
    assert_eq!(Format::parse("he"), None);
    assert_eq!(Format::Cid.as_str(), "cid");
    assert_eq!(Format::default(), Format::Hex);
}

#[test]
fn receive_summary() {
    let r = finish_receive(1, 100, "/tmp/out".to_string());
    assert!(r.message.contains("Downloaded 1 files, 100 bytes"));
    assert_eq!(r.file_path, "/tmp/out");
}

#[test]
fn file_names_announced_only_when_present() {
    assert!(file_names_event(Vec::new()).is_none());
    match file_names_event(vec!["somefile.bin".to_string()]) {
        Some(TransferEvent::FileNames { role, file_names }) => {
            assert_eq!(role, Role::Receiver);
            assert_eq!(file_names, vec!["somefile.bin"]);
        }
        _ => panic!("expected a file-names event"),
    }
}

#[test]
fn opening_events_depend_on_local_data() {
    let fresh = sendmer::receive::opening_events(false);
    assert_eq!(fresh.len(), 1);
    assert!(matches!(fresh[0], TransferEvent::Started { role: Role::Receiver }));
    let local = sendmer::receive::opening_events(true);
    assert_eq!(local.len(), 2);
    assert!(matches!(local[0], TransferEvent::Started { role: Role::Receiver }));
    assert!(matches!(local[1], TransferEvent::Completed { role: Role::Receiver }));
}
