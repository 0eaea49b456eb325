//! The index: text that was extracted from files, kept so that unchanged files
//! need not be extracted again.

use crate::paths::path_key;
use crate::text::{copied, decimal, joined};
use crate::types::FileType;
use std::time::{Duration, SystemTime, SystemTimeError, UNIX_EPOCH};
use vstd::hash_map::StringHashMap;
use vstd::prelude::*;

verus! {

/// Current index format version. Increment when making breaking changes.
pub const INDEX_VERSION: u32 = 1;

// ---- Time -----------------------------------------------------------------

/// A point in time of the system's clock.
#[verifier::external_type_specification]
#[verifier::external_body]
pub struct ExSystemTime(SystemTime);

/// What is returned for a point in time before another one.
#[verifier::external_type_specification]
#[verifier::external_body]
pub struct ExSystemTimeError(SystemTimeError);

/// `SystemTime::now`: the system's clock. Nothing is promised of the time.
pub assume_specification[ SystemTime::now ]() -> SystemTime
;

/// The whole seconds of a duration.
pub uninterp spec fn seconds_of(duration: Duration) -> u64;

/// `Duration::as_secs`: the whole seconds, a function of the duration alone.
pub assume_specification[ Duration::as_secs ](duration: &Duration) -> (r: u64)
    ensures
        r == seconds_of(*duration),
;

/// What `SystemTime::duration_since` returns for a time and the Unix epoch.
pub uninterp spec fn passed_at(time: SystemTime) -> Result<Duration, SystemTimeError>;

/// `SystemTime::duration_since` with the Unix epoch, a function of the time alone.
#[verifier::external_body]
fn since_epoch(time: &SystemTime) -> (r: Result<Duration, SystemTimeError>)
    ensures
        r == passed_at(*time),
{
    time.duration_since(UNIX_EPOCH)
}

/// Whole seconds since the Unix epoch; 0 for a time before it.
pub open spec fn seconds_after_epoch(since: Result<Duration, SystemTimeError>) -> u64 {
    match since {
        Ok(duration) => seconds_of(duration),
        Err(_) => 0,
    }
}

/// Whole seconds since the Unix epoch; 0 for a time before it.
pub fn seconds_since_epoch(since: Result<Duration, SystemTimeError>) -> (r: u64)
    ensures
        r == seconds_after_epoch(since),
{
    match since {
        Ok(duration) => duration.as_secs(),
        Err(_) => 0,
    }
}

/// Get the current Unix timestamp in seconds: that of some time of the clock.
pub fn current_timestamp() -> (r: u64)
    ensures
        exists|time: SystemTime| r == seconds_after_epoch(#[trigger] passed_at(time)),
{
    let now = SystemTime::now();
    seconds_since_epoch(since_epoch(&now))
}

/// Get the timestamp of a file from its modification time, if that is known and
/// not before the Unix epoch.
pub fn get_file_timestamp(modified: Option<SystemTime>) -> (r: Option<u64>)
    ensures
        r == (match modified {
            Some(time) => match passed_at(time) {
                Ok(duration) => Some(seconds_of(duration)),
                Err(_) => None,
            },
            None => None,
        }),
{
    match modified {
        Some(time) => match since_epoch(&time) {
            Ok(duration) => Some(duration.as_secs()),
            Err(_) => None,
        },
        None => None,
    }
}

// ---- Entries --------------------------------------------------------------

/// What the file system says of a file.
#[derive(Debug, Clone, Copy, PartialEq, Eq, Structural)]
pub struct FileMeta {
    /// Modification time in seconds since the Unix epoch, 0 if it is not known.
    pub modified: u64,
    /// Size in bytes.
    pub size: u64,
}

/// A single entry in the index representing a cached file.
#[derive(Debug, Clone)]
pub struct IndexEntry {
    /// Path to the file.
    pub path: String,
    /// Type of the file.
    pub file_type: FileType,
    /// Extracted text content from the file.
    pub extracted_text: String,
    /// File modification timestamp (Unix timestamp in seconds).
    pub modified_timestamp: u64,
    /// File size in bytes.
    pub file_size: u64,
}

impl IndexEntry {
    /// Create a new index entry.
    pub fn new(
        path: String,
        file_type: FileType,
        extracted_text: String,
        modified_timestamp: u64,
        file_size: u64,
    ) -> (r: IndexEntry)
        ensures
            r == (IndexEntry { path, file_type, extracted_text, modified_timestamp, file_size }),
    {
        IndexEntry { path, file_type, extracted_text, modified_timestamp, file_size }
    }

    /// The file is not as it was when the entry was made.
    pub open spec fn stale(self, modified: u64, size: u64) -> bool {
        self.modified_timestamp != modified || self.file_size != size
    }

    /// Check if this entry is stale (file has been modified since indexing).
    pub fn is_stale(&self, current_modified: u64, current_size: u64) -> (r: bool)
        ensures
            r == self.stale(current_modified, current_size),
    {
        self.modified_timestamp != current_modified || self.file_size != current_size
    }
}

// ---- Errors ---------------------------------------------------------------

/// Errors that can occur during index operations.
#[derive(Debug)]
pub enum IndexError {
    /// Index file not found.
    NotFound(String),
    /// IO error during read/write.
    IoError(String),
    /// Failed to parse index file.
    ParseError(String),
    /// Index version mismatch.
    VersionMismatch { expected: u32, found: u32 },
}

impl IndexError {
    /// The text that describes the error.
    pub open spec fn message_of(self) -> Seq<char> {
        match self {
            IndexError::NotFound(path) => "Index file not found: "@ + path@,
            IndexError::IoError(msg) => "IO error: "@ + msg@,
            IndexError::ParseError(msg) => "Failed to parse index: "@ + msg@,
            IndexError::VersionMismatch { expected, found } => "Index version mismatch: expected "@
                + crate::text::decimal_of(expected as nat) + ", found "@ + crate::text::decimal_of(
                found as nat,
            ),
        }
    }

    /// Describes the error.
    pub fn message(&self) -> (r: String)
        ensures
            r@ == self.message_of(),
    {
        match self {
            IndexError::NotFound(path) => joined("Index file not found: ", path.as_str()),
            IndexError::IoError(msg) => joined("IO error: ", msg.as_str()),
            IndexError::ParseError(msg) => joined("Failed to parse index: ", msg.as_str()),
            IndexError::VersionMismatch { expected, found } => {
                let mut s = joined(
                    "Index version mismatch: expected ",
                    decimal(*expected as u64).as_str(),
                );
                s.append(", found ");
                s.append(decimal(*found as u64).as_str());
                s
            },
        }
    }
}

// ---- The index ------------------------------------------------------------

/// The main index structure containing all cached file entries.
pub struct Index {
    /// Index format version for compatibility checking.
    pub version: u32,
    /// The directory this index covers.
    pub directory: String,
    /// When this index was created (Unix timestamp).
    pub created_at: u64,
    /// When this index was last updated (Unix timestamp).
    pub updated_at: u64,
    /// The cached entries, each with the path that it is found under.
    pub entries: Vec<(String, IndexEntry)>,
    /// The place in `entries` of the entry for each path key.
    pub slots: StringHashMap<usize>,
}

/// What came of reading an index file.
pub enum IndexRead {
    /// There is no such file.
    Missing,
    /// The file cannot be opened.
    Unreadable(String),
    /// The file holds no index.
    Malformed(String),
    /// The index that the file holds.
    Parsed(Index),
}

/// What was read is an index of the current version.
pub open spec fn is_usable(read: IndexRead) -> bool {
    read matches IndexRead::Parsed(index) && index.version == INDEX_VERSION
}

/// Entries by path key. Of entries for the same path, the last one counts.
pub open spec fn collected(entries: Seq<(String, IndexEntry)>) -> Map<Seq<char>, IndexEntry>
    decreases entries.len(),
{
    if entries.len() == 0 {
        Map::empty()
    } else {
        collected(entries.drop_last()).insert(
            crate::paths::key_of(entries.last().0@),
            entries.last().1,
        )
    }
}

impl Index {
    /// Each entry stands in the place that is noted for its path, and every
    /// place that is noted is that of an entry: no path occurs twice.
    pub open spec fn wf(self) -> bool {
        &&& forall|i: int|
            0 <= i < self.entries@.len() ==> self.slots@.contains_key(
                #[trigger] crate::paths::key_of(self.entries@[i].0@),
            ) && self.slots@[crate::paths::key_of(self.entries@[i].0@)] == i
        &&& forall|key: Seq<char>| #[trigger]
            self.slots@.contains_key(key) ==> {
                &&& self.slots@[key] < self.entries@.len()
                &&& crate::paths::key_of(self.entries@[self.slots@[key] as int].0@) == key
            }
    }

    /// The entries by path key.
    pub open spec fn map(self) -> Map<Seq<char>, IndexEntry> {
        Map::new(
            |key: Seq<char>| self.slots@.contains_key(key),
            |key: Seq<char>| self.entries@[self.slots@[key] as int].1,
        )
    }

    /// The entry for a path, if there is one.
    pub open spec fn entry_for(self, path: Seq<char>) -> Option<IndexEntry> {
        let key = crate::paths::key_of(path);
        if self.map().contains_key(key) {
            Some(self.map()[key])
        } else {
            None
        }
    }

    /// The entry for a path, if there is one and the file is still as it was.
    pub open spec fn valid_entry_for(self, path: Seq<char>, meta: Option<FileMeta>) -> Option<
        IndexEntry,
    > {
        match (self.entry_for(path), meta) {
            (Some(entry), Some(m)) => if entry.stale(m.modified, m.size) {
                None
            } else {
                Some(entry)
            },
            _ => None,
        }
    }

    /// An index without entries.
    pub fn without_entries(
        version: u32,
        directory: String,
        created_at: u64,
        updated_at: u64,
    ) -> (r: Index)
        ensures
            r.wf(),
            r.version == version,
            r.directory == directory,
            r.created_at == created_at,
            r.updated_at == updated_at,
            r.map() == Map::<Seq<char>, IndexEntry>::empty(),
            r.entries@.len() == 0,
    {
        let r = Index {
            version,
            directory,
            created_at,
            updated_at,
            entries: Vec::new(),
            slots: StringHashMap::new(),
        };
        proof {
            assert(r.map() =~= Map::<Seq<char>, IndexEntry>::empty());
        }
        r
    }

    /// The index that holds the given entries, such as an index file lists them.
    pub fn from_entries(
        version: u32,
        directory: String,
        created_at: u64,
        updated_at: u64,
        entries: Vec<(String, IndexEntry)>,
    ) -> (r: Index)
        ensures
            r.wf(),
            r.version == version,
            r.directory == directory,
            r.created_at == created_at,
            r.updated_at == updated_at,
            r.map() == collected(entries@),
    {
        let mut index = Index::without_entries(version, directory, created_at, updated_at);
        let ghost all = entries@;
        proof {
            assert(all.take(0) =~= Seq::empty());
        }
        for pair in it: entries
            invariant
                it.seq() == all,
                index.wf(),
                index.version == version,
                index.directory == directory,
                index.created_at == created_at,
                index.updated_at == updated_at,
                index.map() == collected(all.take(it.index())),
        {
            proof {
                let next = all.take(it.index() + 1);
                assert(next.drop_last() =~= all.take(it.index()));
                assert(next.last() == pair);
            }
            index.insert(pair.0, pair.1);
        }
        proof {
            assert(all.take(all.len() as int) =~= all);
        }
        index
    }

    /// Create a new empty index for the given directory, made at the time `now`.
    pub fn new_at(directory: String, now: u64) -> (r: Index)
        ensures
            r.wf(),
            r.version == INDEX_VERSION,
            r.directory == directory,
            r.created_at == now,
            r.updated_at == now,
            r.map() == Map::<Seq<char>, IndexEntry>::empty(),
            r.entries@.len() == 0,
    {
        Index::without_entries(INDEX_VERSION, directory, now, now)
    }

    /// Create a new empty index for the given directory, made at a time of the clock.
    pub fn new(directory: String) -> (r: Index)
        ensures
            r.wf(),
            r.version == INDEX_VERSION,
            r.directory == directory,
            exists|time: SystemTime| r.created_at == seconds_after_epoch(#[trigger] passed_at(time)),
            r.updated_at == r.created_at,
            r.map() == Map::<Seq<char>, IndexEntry>::empty(),
            r.entries@.len() == 0,
    {
        Index::new_at(directory, current_timestamp())
    }

    /// The index in a file, given what came of reading it.
    pub fn load(path: &str, read: IndexRead) -> (r: Result<Index, IndexError>)
        ensures
            r is Ok <==> is_usable(read),
            match read {
                IndexRead::Missing => r matches Err(IndexError::NotFound(p)) && p@ == path@,
                IndexRead::Unreadable(msg) => r == Err::<Index, IndexError>(
                    IndexError::IoError(msg),
                ),
                IndexRead::Malformed(msg) => r == Err::<Index, IndexError>(
                    IndexError::ParseError(msg),
                ),
                IndexRead::Parsed(index) => if index.version == INDEX_VERSION {
                    r == Ok::<Index, IndexError>(index)
                } else {
                    r == Err::<Index, IndexError>(
                        IndexError::VersionMismatch {
                            expected: INDEX_VERSION,
                            found: index.version,
                        },
                    )
                },
            },
    {
        match read {
            IndexRead::Missing => Err(IndexError::NotFound(copied(path))),
            IndexRead::Unreadable(msg) => Err(IndexError::IoError(msg)),
            IndexRead::Malformed(msg) => Err(IndexError::ParseError(msg)),
            IndexRead::Parsed(index) => {
                if index.version != INDEX_VERSION {
                    Err(
                        IndexError::VersionMismatch {
                            expected: INDEX_VERSION,
                            found: index.version,
                        },
                    )
                } else {
                    Ok(index)
                }
            },
        }
    }

    /// Notes the time at which the index is written.
    pub fn stamp(&mut self, now: u64)
        ensures
            *final(self) == (Index { updated_at: now, ..*old(self) }),
    {
        self.updated_at = now;
    }

    /// The place of the entry for a path.
    fn slot_of(&self, path: &str) -> (r: Option<usize>)
        requires
            self.wf(),
        ensures
            match r {
                Some(i) => self.slots@.contains_key(crate::paths::key_of(path@)) && i
                    == self.slots@[crate::paths::key_of(path@)],
                None => !self.slots@.contains_key(crate::paths::key_of(path@)),
            },
    {
        let key = path_key(path);
        match self.slots.get(key.as_str()) {
            Some(i) => Some(*i),
            None => None,
        }
    }

    /// The entry for a path.
    pub fn get(&self, path: &str) -> (r: Option<&IndexEntry>)
        requires
            self.wf(),
        ensures
            match r {
                Some(e) => self.entry_for(path@) == Some(*e),
                None => self.entry_for(path@) is None,
            },
    {
        match self.slot_of(path) {
            Some(i) => Some(&self.entries[i].1),
            None => None,
        }
    }

    /// Get a cached entry if it exists and is not stale, given what the file
    /// system says of the file (nothing if the file is gone).
    pub fn get_valid_entry(&self, path: &str, meta: Option<FileMeta>) -> (r: Option<&IndexEntry>)
        requires
            self.wf(),
        ensures
            match r {
                Some(e) => self.valid_entry_for(path@, meta) == Some(*e),
                None => self.valid_entry_for(path@, meta) is None,
            },
    {
        match self.get(path) {
            None => None,
            Some(entry) => match meta {
                None => None,
                Some(m) => {
                    if entry.is_stale(m.modified, m.size) {
                        None
                    } else {
                        Some(entry)
                    }
                },
            },
        }
    }

    /// Puts an entry under a path, in place of one that is already there.
    pub fn insert(&mut self, path: String, entry: IndexEntry)
        requires
            old(self).wf(),
        ensures
            final(self).wf(),
            final(self).map() == old(self).map().insert(crate::paths::key_of(path@), entry),
            final(self).version == old(self).version,
            final(self).directory == old(self).directory,
            final(self).created_at == old(self).created_at,
            final(self).updated_at == old(self).updated_at,
    {
        let ghost before = *self;
        let ghost key = crate::paths::key_of(path@);
        match self.slot_of(path.as_str()) {
            Some(i) => {
                let known = self.entries[i].0.clone();
                self.entries.set(i, (known, entry));
                proof {
                    assert forall|j: int| 0 <= j < self.entries@.len() implies (
                    #[trigger] self.entries@[j]).0@ == before.entries@[j].0@ by {}
                }
            },
            None => {
                let place = self.entries.len();
                self.slots.insert(path_key(path.as_str()), place);
                self.entries.push((path, entry));
                proof {
                    assert forall|j: int| 0 <= j < before.entries@.len() implies (
                    #[trigger] self.entries@[j]) == before.entries@[j] by {}
                }
            },
        }
        proof {
            assert(self.map() =~= before.map().insert(key, entry));
        }
    }

    /// Add or update an entry in the index.
    pub fn upsert_entry(&mut self, entry: IndexEntry)
        requires
            old(self).wf(),
        ensures
            final(self).wf(),
            final(self).map() == old(self).map().insert(
                crate::paths::key_of(entry.path@),
                entry,
            ),
            final(self).version == old(self).version,
            final(self).directory == old(self).directory,
            final(self).created_at == old(self).created_at,
            final(self).updated_at == old(self).updated_at,
    {
        let path = entry.path.clone();
        self.insert(path, entry);
    }

    /// The paths that entries are found under, in the order of `entries`.
    pub fn paths(&self) -> (r: Vec<String>)
        ensures
            r@.len() == self.entries@.len(),
            forall|i: int| 0 <= i < r@.len() ==> (#[trigger] r@[i])@ == self.entries@[i].0@,
    {
        let mut out: Vec<String> = Vec::new();
        let mut i: usize = 0;
        while i < self.entries.len()
            invariant
                i <= self.entries@.len(),
                out@.len() == i,
                forall|k: int| 0 <= k < i ==> (#[trigger] out@[k])@ == self.entries@[k].0@,
            decreases self.entries@.len() - i,
        {
            out.push(self.entries[i].0.clone());
            i += 1;
        }
        out
    }

    /// The path keys of the entries that are marked.
    pub open spec fn keys_where(self, marked: Seq<bool>) -> Set<Seq<char>> {
        Set::new(|key: Seq<char>| marked[self.slots@[key] as int])
    }

    /// Remove entries for files that no longer exist: `present[i]` says whether
    /// the file of `entries[i]` is there.
    pub fn prune_missing(&mut self, present: &Vec<bool>)
        requires
            old(self).wf(),
            present@.len() == old(self).entries@.len(),
        ensures
            final(self).wf(),
            final(self).map() == old(self).map().restrict(old(self).keys_where(present@)),
            final(self).version == old(self).version,
            final(self).directory == old(self).directory,
            final(self).created_at == old(self).created_at,
            final(self).updated_at == old(self).updated_at,
    {
        let ghost before = *self;
        let mut rest: Vec<(String, IndexEntry)> = Vec::new();
        std::mem::swap(&mut rest, &mut self.entries);
        let mut kept: Vec<(String, IndexEntry)> = Vec::new();
        while rest.len() > 0
            invariant
                before.wf(),
                present@.len() == before.entries@.len(),
                rest@.len() <= before.entries@.len(),
                rest@ == before.entries@.take(rest@.len() as int),
                forall|k: int|
                    0 <= k < kept@.len() ==> {
                        let key = crate::paths::key_of((#[trigger] kept@[k]).0@);
                        &&& before.slots@.contains_key(key)
                        &&& rest@.len() <= before.slots@[key]
                        &&& present@[before.slots@[key] as int]
                        &&& kept@[k] == before.entries@[before.slots@[key] as int]
                    },
                forall|i: int|
                    rest@.len() <= i < before.entries@.len() && present@[i] ==> kept@.contains(
                        #[trigger] before.entries@[i],
                    ),
            decreases rest@.len(),
        {
            let ghost kept0 = kept@;
            match rest.pop() {
                Some(pair) => {
                    let i = rest.len();
                    proof {
                        assert(pair == before.entries@[i as int]);
                        assert(before.slots@.contains_key(
                            crate::paths::key_of(before.entries@[i as int].0@),
                        ));
                    }
                    if present[i] {
                        kept.push(pair);
                        proof {
                            assert(kept@[kept@.len() - 1] == pair);
                            assert forall|j: int|
                                rest@.len() <= j < before.entries@.len()
                                    && present@[j] implies kept@.contains(
                                #[trigger] before.entries@[j],
                            ) by {
                                if j > i {
                                    let k = choose|k: int|
                                        0 <= k < kept0.len() && kept0[k] == before.entries@[j];
                                    assert(kept@[k] == before.entries@[j]);
                                }
                            }
                        }
                    }
                },
                None => {},
            }
        }
        self.slots.clear();
        let ghost chosen = kept@;
        proof {
            assert(self.map() =~= Map::<Seq<char>, IndexEntry>::empty());
        }
        while kept.len() > 0
            invariant
                self.wf(),
                self.version == before.version,
                self.directory == before.directory,
                self.created_at == before.created_at,
                self.updated_at == before.updated_at,
                before.wf(),
                present@.len() == before.entries@.len(),
                kept@.len() <= chosen.len(),
                kept@ == chosen.take(kept@.len() as int),
                forall|k: int|
                    0 <= k < chosen.len() ==> {
                        let key = crate::paths::key_of((#[trigger] chosen[k]).0@);
                        &&& before.slots@.contains_key(key)
                        &&& present@[before.slots@[key] as int]
                        &&& chosen[k] == before.entries@[before.slots@[key] as int]
                    },
                forall|key: Seq<char>| #[trigger]
                    self.map().contains_key(key) ==> {
                        &&& before.slots@.contains_key(key)
                        &&& present@[before.slots@[key] as int]
                        &&& self.map()[key] == before.map()[key]
                    },
                forall|k: int|
                    kept@.len() <= k < chosen.len() ==> self.map().contains_key(
                        crate::paths::key_of((#[trigger] chosen[k]).0@),
                    ),
            decreases kept@.len(),
        {
            let ghost at = kept@.len() - 1;
            match kept.pop() {
                Some(pair) => {
                    proof {
                        assert(pair == chosen[at]);
                    }
                    self.insert(pair.0, pair.1);
                },
                None => {},
            }
        }
        proof {
            let wanted = before.map().restrict(
                Set::new(|key: Seq<char>| present@[before.slots@[key] as int]),
            );
            assert forall|key: Seq<char>| #[trigger]
                wanted.contains_key(key) implies self.map().contains_key(key) by {
                let i = before.slots@[key] as int;
                assert(chosen.contains(before.entries@[i]));
                let k = choose|k: int| 0 <= k < chosen.len() && chosen[k] == before.entries@[i];
                assert(self.map().contains_key(crate::paths::key_of(chosen[k].0@)));
            }
            assert(self.map() =~= wanted);
        }
    }

    /// Get the number of entries in the index.
    pub fn len(&self) -> (r: usize)
        requires
            self.wf(),
        ensures
            r == self.map().len(),
    {
        proof {
            lemma_len(*self);
        }
        self.entries.len()
    }

    /// Check if the index is empty.
    pub fn is_empty(&self) -> (r: bool)
        requires
            self.wf(),
        ensures
            r == (self.map().len() == 0),
    {
        proof {
            lemma_len(*self);
        }
        self.entries.len() == 0
    }
}

/// There are as many keys as entries.
proof fn lemma_len(index: Index)
    requires
        index.wf(),
    ensures
        index.map().dom().finite(),
        index.map().len() == index.entries@.len(),
{
    let keys = Seq::new(
        index.entries@.len(),
        |i: int| crate::paths::key_of(index.entries@[i].0@),
    );
    assert(keys.no_duplicates()) by {
        assert forall|i: int, j: int| 0 <= i < keys.len() && 0 <= j < keys.len() && i != j implies keys[i]
            != keys[j] by {
            let k = crate::paths::key_of(index.entries@[i].0@);
            let l = crate::paths::key_of(index.entries@[j].0@);
            assert(index.slots@[k] == i);
            assert(index.slots@[l] == j);
        }
    }
    keys.unique_seq_to_set();
    assert(keys.to_set() =~= index.map().dom()) by {
        assert forall|key: Seq<char>| keys.to_set().contains(key) <==> index.map().dom().contains(
            key,
        ) by {
            if index.slots@.contains_key(key) {
                assert(keys[index.slots@[key] as int] == key);
            }
            if keys.contains(key) {
                let i = choose|i: int| 0 <= i < keys.len() && keys[i] == key;
                assert(index.slots@.contains_key(crate::paths::key_of(index.entries@[i].0@)));
            }
        }
    }
}

/// A path has an entry where one is listed for it, and its entry is one of those.
proof fn lemma_collected(entries: Seq<(String, IndexEntry)>, key: Seq<char>)
    ensures
        collected(entries).contains_key(key) <==> exists|i: int|
            0 <= i < entries.len() && crate::paths::key_of((#[trigger] entries[i]).0@) == key,
        collected(entries).contains_key(key) ==> exists|i: int|
            0 <= i < entries.len() && crate::paths::key_of((#[trigger] entries[i]).0@) == key
                && entries[i].1 == collected(entries)[key],
    decreases entries.len(),
{
    if entries.len() > 0 {
        let init = entries.drop_last();
        let at = entries.len() - 1;
        lemma_collected(init, key);
        if crate::paths::key_of(entries[at].0@) != key {
            if collected(init).contains_key(key) {
                let i = choose|i: int|
                    0 <= i < init.len() && crate::paths::key_of((#[trigger] init[i]).0@) == key
                        && init[i].1 == collected(init)[key];
                assert(entries[i] == init[i]);
            } else {
                assert forall|i: int| 0 <= i < entries.len() implies crate::paths::key_of(
                    (#[trigger] entries[i]).0@,
                ) != key by {
                    if i < at {
                        assert(init[i] == entries[i]);
                    }
                }
            }
        }
    }
}

// ---- Laws -----------------------------------------------------------------

/// An index that is made again from its own entries, in whatever order they are
/// listed, leads every path where it led before.
pub proof fn law_listed_index_is_rebuilt(index: Index, listed: Seq<(String, IndexEntry)>)
    requires
        index.wf(),
        listed.to_set() == index.entries@.to_set(),
    ensures
        collected(listed) == index.map(),
{
    let all = index.entries@;
    let made = collected(listed);
    let map = index.map();
    assert forall|key: Seq<char>|
        #![trigger made.dom().contains(key)]
        #![trigger map.dom().contains(key)]
        made.dom().contains(key) == map.dom().contains(key) && (made.dom().contains(key)
            ==> made[key] == map[key]) by {
        lemma_collected(listed, key);
        if collected(listed).contains_key(key) {
            let i = choose|i: int|
                0 <= i < listed.len() && crate::paths::key_of((#[trigger] listed[i]).0@) == key
                    && listed[i].1 == collected(listed)[key];
            assert(listed.to_set().contains(listed[i]));
            assert(all.contains(listed[i]));
            let j = choose|j: int| 0 <= j < all.len() && all[j] == listed[i];
            assert(crate::paths::key_of(all[j].0@) == key);
        } else if index.map().contains_key(key) {
            let j = index.slots@[key] as int;
            assert(crate::paths::key_of(all[j].0@) == key);
            assert(all.to_set().contains(all[j]));
            assert(listed.contains(all[j]));
            let i = choose|i: int| 0 <= i < listed.len() && listed[i] == all[j];
            assert(crate::paths::key_of(listed[i].0@) == key);
        }
    }
    assert(made =~= map);
}

/// After an upsert the path of the entry leads to it, as long as the file stays
/// as it was, and every other path leads where it led before.
pub proof fn law_upserted_entry_is_found(
    before: Index,
    after: Index,
    entry: IndexEntry,
    other: Seq<char>,
    meta: Option<FileMeta>,
)
    requires
        after.map() == before.map().insert(crate::paths::key_of(entry.path@), entry),
    ensures
        after.valid_entry_for(
            entry.path@,
            Some(FileMeta { modified: entry.modified_timestamp, size: entry.file_size }),
        ) == Some(entry),
        crate::paths::components_of(other) != crate::paths::components_of(entry.path@)
            ==> after.valid_entry_for(other, meta) == before.valid_entry_for(other, meta),
        crate::paths::components_of(other) == crate::paths::components_of(entry.path@)
            ==> after.entry_for(other) == Some(entry),
{
    crate::paths::law_key_identifies_path(other, entry.path@);
}

/// An entry is handed out only for a file whose time and size are those of the
/// entry; a file that is gone has none.
pub proof fn law_stale_entries_are_not_used(
    index: Index,
    path: Seq<char>,
    meta: Option<FileMeta>,
)
    ensures
        meta is None ==> index.valid_entry_for(path, meta) is None,
        index.valid_entry_for(path, meta) matches Some(entry) ==> meta == Some(
            FileMeta { modified: entry.modified_timestamp, size: entry.file_size },
        ) && index.entry_for(path) == Some(entry),
{
}

/// An index has as many paths as entries.
pub proof fn law_as_many_paths_as_entries(index: Index)
    requires
        index.wf(),
    ensures
        index.map().dom().finite(),
        index.map().len() == index.entries@.len(),
{
    lemma_len(index);
}

/// An upsert adds one entry for a new path, and none for a path that is there.
pub proof fn law_upsert_counts_paths(before: Index, after: Index, entry: IndexEntry)
    requires
        before.wf(),
        after.map() == before.map().insert(crate::paths::key_of(entry.path@), entry),
    ensures
        after.map().len() == before.map().len() + (if before.entry_for(entry.path@) is None {
            1int
        } else {
            0int
        }),
{
    lemma_len(before);
    let key = crate::paths::key_of(entry.path@);
    assert(after.map().dom() =~= before.map().dom().insert(key));
}

} // verus!
