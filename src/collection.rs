//! Import records and the collections built from them.
//!
//! A collection is a sequence of (name, content hash) entries whose names are
//! strictly increasing in character order, so that it holds each name once
//! and its listing does not depend on the order in which imports finished.

use vstd::prelude::*;
use vstd::string::*;

verus! {

/// A fixed-size digest naming one immutable blob.
#[derive(Clone, Copy, Debug, PartialEq, Eq)]
pub struct ContentHash {
    pub bytes: [u8; 32],
}

/// One imported file: its collection name, the blob it became, its size.
pub struct ImportRecord {
    pub name: String,
    pub hash: ContentHash,
    pub size: u64,
}

/// One entry of a collection.
pub struct CollectionEntry {
    pub name: String,
    pub hash: ContentHash,
}

/// An ordered mapping from names to content hashes.
pub struct Collection {
    pub entries: Vec<CollectionEntry>,
}

/// Why an import produced no collection.
#[derive(Debug, PartialEq, Eq)]
pub enum ImportError {
    /// The source path does not exist.
    SourceMissing,
    /// The storage engine reported a fault while importing the named file.
    Failed(String),
    /// The storage engine's progress stream ended before the file was stored.
    StreamEnded(String),
    /// Two files were given the same name.
    DuplicateName,
    /// The sizes of the files add up to more than a `u64` holds.
    SizeOverflow,
}

/// Strict order on names: character by character, a proper prefix first.
pub open spec fn name_lt(a: Seq<char>, b: Seq<char>) -> bool
    decreases a.len(),
{
    if a.len() == 0 {
        b.len() > 0
    } else if b.len() == 0 {
        false
    } else if a[0] != b[0] {
        a[0] < b[0]
    } else {
        name_lt(a.drop_first(), b.drop_first())
    }
}

pub proof fn lemma_name_lt_irreflexive(a: Seq<char>)
    ensures
        !name_lt(a, a),
    decreases a.len(),
{
    if a.len() > 0 {
        lemma_name_lt_irreflexive(a.drop_first());
    }
}

pub proof fn lemma_name_lt_transitive(a: Seq<char>, b: Seq<char>, c: Seq<char>)
    requires
        name_lt(a, b),
        name_lt(b, c),
    ensures
        name_lt(a, c),
    decreases a.len(),
{
    if a.len() > 0 && b.len() > 0 && c.len() > 0 {
        if a[0] == b[0] && b[0] == c[0] {
            lemma_name_lt_transitive(a.drop_first(), b.drop_first(), c.drop_first());
        }
    }
}

proof fn lemma_name_lt_skip(a: Seq<char>, b: Seq<char>, i: int)
    requires
        0 <= i <= a.len(),
        i <= b.len(),
        a.take(i) == b.take(i),
    ensures
        name_lt(a, b) == name_lt(a.skip(i), b.skip(i)),
    decreases i,
{
    if i > 0 {
        assert(a[0] == a.take(i)[0]);
        assert(b[0] == b.take(i)[0]);
        assert(a.drop_first().take(i - 1) =~= a.take(i).drop_first());
        assert(b.drop_first().take(i - 1) =~= b.take(i).drop_first());
        lemma_name_lt_skip(a.drop_first(), b.drop_first(), i - 1);
        assert(a.drop_first().skip(i - 1) =~= a.skip(i));
        assert(b.drop_first().skip(i - 1) =~= b.skip(i));
    } else {
        assert(a.skip(0) =~= a);
        assert(b.skip(0) =~= b);
    }
}

/// How two names compare.
#[derive(Clone, Copy, Debug, PartialEq, Eq, Structural)]
pub enum NameOrder {
    Less,
    Equal,
    Greater,
}

/// Compares two names in the collection order.
pub fn compare_names(a: &str, b: &str) -> (r: NameOrder)
    ensures
        (r == NameOrder::Less) <==> name_lt(a@, b@),
        (r == NameOrder::Equal) <==> a@ == b@,
        (r == NameOrder::Greater) <==> name_lt(b@, a@),
{
    let na = a.unicode_len();
    let nb = b.unicode_len();
    let mut i: usize = 0;
    proof {
        lemma_name_lt_irreflexive(a@);
        lemma_name_lt_irreflexive(b@);
    }
    while i < na && i < nb
        invariant
            na == a@.len(),
            nb == b@.len(),
            i <= na,
            i <= nb,
            a@.take(i as int) == b@.take(i as int),
        decreases na - i,
    {
        let ca = a.get_char(i);
        let cb = b.get_char(i);
        if ca != cb {
            proof {
                lemma_name_lt_skip(a@, b@, i as int);
                lemma_name_lt_skip(b@, a@, i as int);
                assert(a@.skip(i as int)[0] == ca);
                assert(b@.skip(i as int)[0] == cb);
                assert(a@[i as int] != b@[i as int]);
            }
            if ca < cb {
                return NameOrder::Less;
            } else {
                return NameOrder::Greater;
            }
        }
        proof {
            assert(a@.take(i as int + 1) =~= a@.take(i as int).push(ca));
            assert(b@.take(i as int + 1) =~= b@.take(i as int).push(cb));
        }
        i = i + 1;
    }
    proof {
        lemma_name_lt_skip(a@, b@, i as int);
        lemma_name_lt_skip(b@, a@, i as int);
    }
    if na == nb {
        proof {
            assert(a@ =~= a@.take(i as int));
            assert(b@ =~= b@.take(i as int));
        }
        NameOrder::Equal
    } else if na < nb {
        proof {
            assert(a@ =~= a@.take(i as int));
        }
        NameOrder::Less
    } else {
        proof {
            assert(b@ =~= b@.take(i as int));
        }
        NameOrder::Greater
    }
}

/// A collection entry as plain values: the name's characters and the hash.
pub open spec fn entry_of(name: Seq<char>, hash: ContentHash) -> (Seq<char>, ContentHash) {
    (name, hash)
}

pub open spec fn entries_view(s: Seq<CollectionEntry>) -> Seq<(Seq<char>, ContentHash)> {
    s.map_values(|e: CollectionEntry| entry_of(e.name@, e.hash))
}

pub open spec fn record_entries(s: Seq<ImportRecord>) -> Seq<(Seq<char>, ContentHash)> {
    s.map_values(|r: ImportRecord| entry_of(r.name@, r.hash))
}

impl View for Collection {
    type V = Seq<(Seq<char>, ContentHash)>;

    open spec fn view(&self) -> Seq<(Seq<char>, ContentHash)> {
        entries_view(self.entries@)
    }
}

/// Names strictly increase along the sequence.
pub open spec fn is_sorted_by_name(c: Seq<(Seq<char>, ContentHash)>) -> bool {
    forall|i: int, j: int| 0 <= i < j < c.len() ==> name_lt(#[trigger] c[i].0, #[trigger] c[j].0)
}

impl Collection {
    /// Well-formed: names strictly increase, so each name occurs once.
    pub open spec fn wf(&self) -> bool {
        is_sorted_by_name(self@)
    }
}

/// `c` holds the same entries as `s`, each once: one entry per element.
pub open spec fn same_entries(c: Seq<(Seq<char>, ContentHash)>, s: Seq<(Seq<char>, ContentHash)>) -> bool {
    &&& c.len() == s.len()
    &&& forall|j: int| 0 <= j < s.len() ==> c.contains(#[trigger] s[j])
    &&& forall|k: int| 0 <= k < c.len() ==> s.contains(#[trigger] c[k])
}

pub open spec fn names_distinct(records: Seq<ImportRecord>) -> bool {
    forall|i: int, j: int|
        0 <= i < j < records.len() ==> (#[trigger] records[i]).name@ != (#[trigger] records[j]).name@
}

/// The sum of the records' sizes.
pub open spec fn total_size(records: Seq<ImportRecord>) -> int
    decreases records.len(),
{
    if records.len() == 0 {
        0
    } else {
        total_size(records.drop_last()) + records.last().size
    }
}

proof fn lemma_total_size_prefix(records: Seq<ImportRecord>, i: int)
    requires
        0 <= i < records.len(),
    ensures
        total_size(records.take(i + 1)) == total_size(records.take(i)) + records[i].size,
        total_size(records.take(i)) >= 0,
    decreases i,
{
    assert(records.take(i + 1).drop_last() =~= records.take(i));
    if i > 0 {
        lemma_total_size_prefix(records, i - 1);
    } else {
        assert(records.take(0) =~= Seq::<ImportRecord>::empty());
    }
}

/// `r` is the outcome of building a collection from `records`: `Ok` exactly
/// when the names are distinct and the sizes fit in a `u64`, with the sum
/// of the sizes and a well-formed collection of exactly the records'
/// entries; otherwise `DuplicateName`, or failing that `SizeOverflow`.
pub open spec fn collection_built(
    records: Seq<ImportRecord>,
    r: Result<(u64, Collection), ImportError>,
) -> bool {
    &&& r is Ok <==> names_distinct(records) && total_size(records) <= u64::MAX
    &&& !names_distinct(records) ==> r == Err::<(u64, Collection), ImportError>(
        ImportError::DuplicateName,
    )
    &&& names_distinct(records) && total_size(records) > u64::MAX ==> r == Err::<
        (u64, Collection),
        ImportError,
    >(ImportError::SizeOverflow)
    &&& r matches Ok((size, c)) ==> {
        &&& size == total_size(records)
        &&& c.wf()
        &&& same_entries(c@, record_entries(records))
    }
}

/// Builds the collection of the imported files and their aggregate size.
///
/// Entries are ordered by name, whatever order the imports finished in.
/// Fails with `DuplicateName` when two records share a name, and otherwise
/// with `SizeOverflow` when the sizes add up to more than a `u64` holds.
pub fn build_collection(records: &Vec<ImportRecord>) -> (r: Result<(u64, Collection), ImportError>)
    ensures
        collection_built(records@, r),
{
    let mut entries: Vec<CollectionEntry> = Vec::new();
    let mut j: usize = 0;
    while j < records.len()
        invariant
            j <= records@.len(),
            is_sorted_by_name(entries_view(entries@)),
            same_entries(entries_view(entries@), record_entries(records@.take(j as int))),
            names_distinct(records@.take(j as int)),
        decreases records@.len() - j,
    {
        let ghost cv = entries_view(entries@);
        let ghost done = record_entries(records@.take(j as int));
        let rec = &records[j];
        let mut k: usize = 0;
        while k < entries.len()
            invariant
                k <= entries@.len(),
                j < records@.len(),
                cv == entries_view(entries@),
                done == record_entries(records@.take(j as int)),
                same_entries(cv, done),
                *rec == records@[j as int],
                forall|m: int| 0 <= m < k ==> name_lt(#[trigger] cv[m].0, rec.name@),
            ensures
                k <= entries@.len(),
                cv == entries_view(entries@),
                forall|m: int| 0 <= m < k ==> name_lt(#[trigger] cv[m].0, rec.name@),
                k < entries@.len() ==> name_lt(rec.name@, cv[k as int].0),
            decreases entries@.len() - k,
        {
            match compare_names(entries[k].name.as_str(), rec.name.as_str()) {
                NameOrder::Less => {
                    k = k + 1;
                },
                NameOrder::Equal => {
                    proof {
                        assert(cv[k as int].0 == rec.name@);
                        let jj = choose|jj: int| 0 <= jj < done.len() && cv[k as int] == done[jj];
                        assert(records@.take(j as int)[jj] == records@[jj]);
                        assert(done[jj] == entry_of(records@[jj].name@, records@[jj].hash));
                        assert(records@[jj].name@ == records@[j as int].name@);
                        assert(!names_distinct(records@));
                    }
                    return Err(ImportError::DuplicateName);
                },
                NameOrder::Greater => {
                    break;
                },
            }
        }
        let ghost p = k as int;
        proof {
            assert forall|m: int| p <= m < cv.len() implies name_lt(rec.name@, #[trigger] cv[m].0) by {
                assert(name_lt(rec.name@, cv[p].0));
                if m > p {
                    lemma_name_lt_transitive(rec.name@, cv[p].0, cv[m].0);
                }
            }
        }
        let entry = CollectionEntry { name: rec.name.clone(), hash: rec.hash };
        entries.insert(k, entry);
        proof {
            let nv = entries_view(entries@);
            let e = entry_of(rec.name@, rec.hash);
            assert(nv =~= cv.insert(p, e));
            let nd = record_entries(records@.take(j as int + 1));
            assert(nd =~= done.push(e));
            lemma_insert_sorted(cv, p, e);
            lemma_insert_same(cv, done, p, e);
            lemma_distinct_push(records@, j as int, cv, p);
        }
        j = j + 1;
    }
    assert(records@.take(j as int) =~= records@);
    let mut size: u64 = 0;
    let mut i: usize = 0;
    while i < records.len()
        invariant
            i <= records@.len(),
            size == total_size(records@.take(i as int)),
            names_distinct(records@),
        decreases records@.len() - i,
    {
        proof {
            lemma_total_size_prefix(records@, i as int);
        }
        match size.checked_add(records[i].size) {
            Some(s) => {
                size = s;
            },
            None => {
                proof {
                    lemma_total_size_never_shrinks(records@, i as int + 1);
                }
                return Err(ImportError::SizeOverflow);
            },
        }
        i = i + 1;
    }
    assert(records@.take(i as int) =~= records@);
    Ok((size, Collection { entries }))
}

proof fn lemma_total_size_never_shrinks(records: Seq<ImportRecord>, i: int)
    requires
        0 <= i <= records.len(),
    ensures
        total_size(records) >= total_size(records.take(i)),
    decreases records.len() - i,
{
    if i < records.len() {
        lemma_total_size_prefix(records, i);
        lemma_total_size_never_shrinks(records, i + 1);
    } else {
        assert(records.take(i) =~= records);
    }
}

proof fn lemma_insert_sorted(cv: Seq<(Seq<char>, ContentHash)>, p: int, e: (Seq<char>, ContentHash))
    requires
        is_sorted_by_name(cv),
        0 <= p <= cv.len(),
        forall|m: int| 0 <= m < p ==> name_lt(#[trigger] cv[m].0, e.0),
        forall|m: int| p <= m < cv.len() ==> name_lt(e.0, #[trigger] cv[m].0),
    ensures
        is_sorted_by_name(cv.insert(p, e)),
{
    let nv = cv.insert(p, e);
    assert forall|a: int, b: int| 0 <= a < b < nv.len() implies name_lt(
        #[trigger] nv[a].0,
        #[trigger] nv[b].0,
    ) by {
        if b < p {
        } else if b == p {
        } else if a < p {
            assert(nv[b] == cv[b - 1]);
            lemma_name_lt_transitive(nv[a].0, e.0, nv[b].0);
        } else if a == p {
            assert(nv[b] == cv[b - 1]);
        } else {
            assert(nv[a] == cv[a - 1]);
            assert(nv[b] == cv[b - 1]);
        }
    }
}

proof fn lemma_insert_same(
    cv: Seq<(Seq<char>, ContentHash)>,
    done: Seq<(Seq<char>, ContentHash)>,
    p: int,
    e: (Seq<char>, ContentHash),
)
    requires
        same_entries(cv, done),
        0 <= p <= cv.len(),
    ensures
        same_entries(cv.insert(p, e), done.push(e)),
{
    let nv = cv.insert(p, e);
    let nd = done.push(e);
    assert(nv.len() == nd.len());
    assert forall|jj: int| 0 <= jj < nd.len() implies nv.contains(#[trigger] nd[jj]) by {
        if jj == done.len() {
            assert(nv[p] == nd[jj]);
        } else {
            assert(nd[jj] == done[jj]);
            let kk = choose|kk: int| 0 <= kk < cv.len() && cv[kk] == done[jj];
            if kk < p {
                assert(nv[kk] == cv[kk]);
                assert(nv[kk] == nd[jj]);
            } else {
                assert(nv[kk + 1] == cv[kk]);
                assert(nv[kk + 1] == nd[jj]);
            }
        }
    }
    assert forall|kk: int| 0 <= kk < nv.len() implies nd.contains(#[trigger] nv[kk]) by {
        if kk == p {
            assert(nv[kk] == nd[done.len() as int]);
        } else {
            let ck = if kk < p {
                kk
            } else {
                kk - 1
            };
            assert(nv[kk] == cv[ck]);
            let jj = choose|jj: int| 0 <= jj < done.len() && cv[ck] == done[jj];
            assert(nd[jj] == done[jj]);
            assert(nv[kk] == nd[jj]);
        }
    }
}

proof fn lemma_distinct_push(
    records: Seq<ImportRecord>,
    j: int,
    cv: Seq<(Seq<char>, ContentHash)>,
    p: int,
)
    requires
        0 <= j < records.len(),
        0 <= p <= cv.len(),
        names_distinct(records.take(j)),
        same_entries(cv, record_entries(records.take(j))),
        forall|m: int| 0 <= m < p ==> name_lt(#[trigger] cv[m].0, records[j].name@),
        forall|m: int| p <= m < cv.len() ==> name_lt(records[j].name@, #[trigger] cv[m].0),
    ensures
        names_distinct(records.take(j + 1)),
{
    let done = record_entries(records.take(j));
    let tk = records.take(j + 1);
    let x = records[j].name@;
    lemma_name_lt_irreflexive(x);
    assert forall|a: int, b: int| 0 <= a < b < tk.len() implies (#[trigger] tk[a]).name@
        != (#[trigger] tk[b]).name@ by {
        assert(tk[a] == records.take(j)[a]);
        if b == j {
            assert(done[a] == entry_of(tk[a].name@, tk[a].hash));
            let kk = choose|kk: int| 0 <= kk < cv.len() && cv[kk] == done[a];
            if kk >= p {
                assert(name_lt(x, cv[kk].0));
            } else {
                assert(name_lt(cv[kk].0, x));
            }
        } else {
            assert(tk[b] == records.take(j)[b]);
        }
    }
}

/// One report of the storage engine while it imports a file.
pub enum AddProgressItem {
    /// The file's size is known.
    Size(u64),
    /// Bytes copied so far.
    CopyProgress(u64),
    /// The copy is complete.
    CopyDone,
    /// Progress of computing the integrity structure.
    OutboardProgress(u64),
    /// The import failed, for the given reason.
    Error(String),
    /// The file is stored under this hash.
    Done(ContentHash),
}

/// What follows one report.
pub enum ImportStep {
    /// Wait for the next report.
    Continue,
    /// The file could not be imported.
    Failed(ImportError),
    /// The file is stored.
    Finished(ImportRecord),
}

/// The import of one file, as far as its reports have gone.
pub struct FileImport {
    pub name: String,
    pub size: u64,
}

impl FileImport {
    /// Starts following the import of the file with the given name.
    pub fn new(name: String) -> (r: FileImport)
        ensures
            r.name == name,
            r.size == 0,
    {
        FileImport { name, size: 0 }
    }

    /// Takes one report into account.
    ///
    /// The size of the file is the last one reported. A failure ends the
    /// import of this file at once; a final hash gives its record.
    pub fn observe(&mut self, item: AddProgressItem) -> (r: ImportStep)
        ensures
            final(self).name == old(self).name,
            match item {
                AddProgressItem::Size(n) => final(self).size == n && r is Continue,
                AddProgressItem::Error(_) => final(self).size == old(self).size && r == ImportStep::Failed(
                    ImportError::Failed(old(self).name),
                ),
                AddProgressItem::Done(h) => final(self).size == old(self).size && r == ImportStep::Finished(
                    (ImportRecord { name: old(self).name, hash: h, size: old(self).size }),
                ),
                _ => final(self).size == old(self).size && r is Continue,
            },
    {
        match item {
            AddProgressItem::Size(n) => {
                self.size = n;
                ImportStep::Continue
            },
            AddProgressItem::Error(_) => ImportStep::Failed(ImportError::Failed(self.name.clone())),
            AddProgressItem::Done(h) => ImportStep::Finished(
                ImportRecord { name: self.name.clone(), hash: h, size: self.size },
            ),
            _ => ImportStep::Continue,
        }
    }

    /// The error for a report stream that ended before the file was stored.
    pub fn stream_ended(&self) -> (r: ImportError)
        ensures
            r == ImportError::StreamEnded(self.name),
    {
        ImportError::StreamEnded(self.name.clone())
    }
}

impl ImportRecord {
    /// A copy of this record.
    pub fn duplicate(&self) -> (r: ImportRecord)
        ensures
            r == *self,
    {
        ImportRecord { name: self.name.clone(), hash: self.hash, size: self.size }
    }
}

impl ImportError {
    /// A copy of this error.
    pub fn duplicate(&self) -> (r: ImportError)
        ensures
            r == *self,
    {
        match self {
            ImportError::SourceMissing => ImportError::SourceMissing,
            ImportError::Failed(n) => ImportError::Failed(n.clone()),
            ImportError::StreamEnded(n) => ImportError::StreamEnded(n.clone()),
            ImportError::DuplicateName => ImportError::DuplicateName,
            ImportError::SizeOverflow => ImportError::SizeOverflow,
        }
    }
}

/// The error of the earliest failed import, if any.
pub open spec fn first_import_error(results: Seq<Result<ImportRecord, ImportError>>) -> Option<
    ImportError,
>
    decreases results.len(),
{
    if results.len() == 0 {
        None
    } else {
        match first_import_error(results.drop_last()) {
            Some(e) => Some(e),
            None => match results.last() {
                Err(e) => Some(e),
                Ok(_) => None,
            },
        }
    }
}

/// The records of imports that all succeeded.
pub open spec fn imported_records(results: Seq<Result<ImportRecord, ImportError>>) -> Seq<ImportRecord> {
    results.map_values(|x: Result<ImportRecord, ImportError>| x->Ok_0)
}

proof fn lemma_first_import_error_extends(results: Seq<Result<ImportRecord, ImportError>>, k: int)
    requires
        0 <= k <= results.len(),
        first_import_error(results.take(k)) is Some,
    ensures
        first_import_error(results) == first_import_error(results.take(k)),
    decreases results.len() - k,
{
    if k < results.len() {
        assert(results.take(k + 1).drop_last() =~= results.take(k));
        lemma_first_import_error_extends(results, k + 1);
    } else {
        assert(results.take(k) =~= results);
    }
}

/// Ends an import from the outcomes of its files, in any order.
///
/// One failed file fails the whole import with the earliest failure in
/// `results`, and no collection is produced; when every file was imported,
/// the outcome is that of `build_collection` on their records.
pub fn finish_import(results: &Vec<Result<ImportRecord, ImportError>>) -> (r: Result<
    (u64, Collection),
    ImportError,
>)
    ensures
        first_import_error(results@) matches Some(e) ==> r == Err::<(u64, Collection), ImportError>(
            e,
        ),
        first_import_error(results@) is None ==> collection_built(imported_records(results@), r),
{
    let mut records: Vec<ImportRecord> = Vec::new();
    let mut i: usize = 0;
    while i < results.len()
        invariant
            i <= results@.len(),
            first_import_error(results@.take(i as int)) is None,
            records@ == imported_records(results@.take(i as int)),
        decreases results@.len() - i,
    {
        proof {
            let t = results@.take(i as int + 1);
            assert(t.drop_last() =~= results@.take(i as int));
            assert(t.last() == results@[i as int]);
        }
        match &results[i] {
            Ok(rec) => {
                records.push(rec.duplicate());
                proof {
                    assert(records@ =~= imported_records(results@.take(i as int + 1)));
                }
            },
            Err(e) => {
                proof {
                    lemma_first_import_error_extends(results@, i as int + 1);
                }
                return Err(e.duplicate());
            },
        }
        i = i + 1;
    }
    assert(results@.take(i as int) =~= results@);
    build_collection(&records)
}

} // verus!
