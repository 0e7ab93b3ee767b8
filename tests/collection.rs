use sendmer::collection::{
    build_collection, compare_names, finish_import, AddProgressItem, ContentHash, FileImport, ImportError, ImportRecord,
    ImportStep, NameOrder,
};

fn hash(n: u8) -> ContentHash {
    ContentHash { bytes: [n; 32] }
}

fn record(name: &str, n: u8, size: u64) -> ImportRecord {
    ImportRecord { name: name.to_string(), hash: hash(n), size }
}

fn names(c: &sendmer::collection::Collection) -> Vec<String> {
    c.entries.iter().map(|e| e.name.clone()).collect()
}

#[test]
fn entries_are_sorted_by_name() {
    let records = vec![record("b", 2, 20), record("a/z", 1, 10), record("a", 3, 5)];
    let (size, c) = build_collection(&records).unwrap();
    assert_eq!(size, 35);
    assert_eq!(names(&c), vec!["a", "a/z", "b"]);
    assert_eq!(c.entries[0].hash, hash(3));
    assert_eq!(c.entries[1].hash, hash(1));
    assert_eq!(c.entries[2].hash, hash(2));
}

#[test]
fn single_file_collection() {
    let records = vec![record("somefile.bin", 7, 100)];
    let (size, c) = build_collection(&records).unwrap();
    assert_eq!(size, 100);
    assert_eq!(c.entries.len(), 1);
    assert_eq!(c.entries[0].name, "somefile.bin");
    assert_eq!(c.entries[0].hash, hash(7));
}

#[test]
fn nested_directory_collection() {
    let mut records = Vec::new();
    let mut expected_size = 0u64;
    // completion order differs from name order
    for i in (0..5).rev() {
        for k in 0..5 {
            for j in (0..5).rev() {
                let size = (i * 100 + j * 10 + k) as u64;
                expected_size += size;
                records.push(record(&format!("data/dir-{i}/subdir-{j}/file-{k}"), (i * 25 + j * 5 + k) as u8, size));
            }
        }
    }
    let (size, c) = build_collection(&records).unwrap();
    assert_eq!(size, expected_size);
    assert_eq!(c.entries.len(), 125);
    let got = names(&c);
    let mut sorted = got.clone();
    sorted.sort();
    assert_eq!(got, sorted);
    assert_eq!(got[0], "data/dir-0/subdir-0/file-0");
    assert_eq!(got[124], "data/dir-4/subdir-4/file-4");
    assert_eq!(c.entries[124].hash, hash(124));
}

#[test]
fn empty_collection() {
    let (size, c) = build_collection(&Vec::new()).unwrap();
    assert_eq!(size, 0);
    assert!(c.entries.is_empty());
}

#[test]
fn duplicate_names_are_refused() {
    let records = vec![record("a", 1, 1), record("b", 2, 2), record("a", 3, 3)];
    assert_eq!(build_collection(&records).err(), Some(ImportError::DuplicateName));
}

#[test]
fn oversized_total_is_refused() {
    let records = vec![record("a", 1, u64::MAX), record("b", 2, 1)];
    assert_eq!(build_collection(&records).err(), Some(ImportError::SizeOverflow));
    let fits = vec![record("a", 1, u64::MAX - 1), record("b", 2, 1)];
    assert_eq!(build_collection(&fits).unwrap().0, u64::MAX);
}

#[test]
fn name_order() {
    assert_eq!(compare_names("a", "b"), NameOrder::Less);
    assert_eq!(compare_names("ab", "a"), NameOrder::Greater);
    assert_eq!(compare_names("a", "a"), NameOrder::Equal);
    assert_eq!(compare_names("", "a"), NameOrder::Less);
    assert_eq!(compare_names("Z", "a"), NameOrder::Less);
    assert_eq!(compare_names("dir-1/x", "dir-10"), NameOrder::Less);
    assert_eq!(compare_names("é", "z"), NameOrder::Greater);
}

#[test]
fn import_reports_fold_into_record() {
    let mut f = FileImport::new("somefile.bin".to_string());
    assert!(matches!(f.observe(AddProgressItem::Size(100)), ImportStep::Continue));
    assert!(matches!(f.observe(AddProgressItem::CopyProgress(50)), ImportStep::Continue));
    assert!(matches!(f.observe(AddProgressItem::CopyDone), ImportStep::Continue));
    assert!(matches!(f.observe(AddProgressItem::OutboardProgress(10)), ImportStep::Continue));
    match f.observe(AddProgressItem::Done(hash(9))) {
        ImportStep::Finished(r) => {
            assert_eq!(r.name, "somefile.bin");
            assert_eq!(r.size, 100);
            assert_eq!(r.hash, hash(9));
        }
        _ => panic!("expected a finished import"),
    }
}

#[test]
fn import_error_fails_the_file() {
    let mut f = FileImport::new("x".to_string());
    match f.observe(AddProgressItem::Error("disk full".to_string())) {
        ImportStep::Failed(e) => assert_eq!(e, ImportError::Failed("x".to_string())),
        _ => panic!("expected a failure"),
    }
    assert_eq!(f.stream_ended(), ImportError::StreamEnded("x".to_string()));
}

#[test]
fn one_failed_file_fails_the_import() {
    let results = vec![
        Ok(record("a", 1, 1)),
        Err(ImportError::Failed("b".to_string())),
        Err(ImportError::StreamEnded("c".to_string())),
    ];
    assert_eq!(finish_import(&results).err(), Some(ImportError::Failed("b".to_string())));
}

#[test]
fn successful_imports_build_the_collection() {
    let results = vec![Ok(record("z", 1, 3)), Ok(record("m", 2, 4))];
    let (size, c) = finish_import(&results).unwrap();
    assert_eq!(size, 7);
    assert_eq!(names(&c), vec!["m", "z"]);
    let dup = vec![Ok(record("m", 1, 3)), Ok(record("m", 2, 4))];
    assert_eq!(finish_import(&dup).err(), Some(ImportError::DuplicateName));
}
