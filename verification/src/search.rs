//! The search engine: which files are searched, and what becomes of each.

use crate::index::{FileMeta, Index, IndexEntry, IndexRead};
use crate::matching::{PatternError, SearchPattern};
use crate::paths::{extension, file_name, same_path};
use crate::ranking::rank;
use crate::text::{chars_of, copied, lowercase, one_of, same_text, trim_leading};
use crate::types::{
    FileType, IndexConfig, Match, SearchConfig, SearchResult, SearchStats, INDEX_FILE_NAME,
};
use vstd::prelude::*;

verus! {

/// Directories that are never entered.
pub const SKIP_DIRS: [&'static str; 12] = [
    "node_modules", "target", "__pycache__", ".git", ".svn", ".hg", "vendor", "dist", "build",
    ".cache", ".npm", ".cargo",
];

/// The largest file that is read, in bytes.
pub const MAX_FILE_BYTES: u64 = 0x320_0000;

/// Whether a file is too large to be read.
pub fn is_oversized(size: u64) -> (r: bool)
    ensures
        r == (size > MAX_FILE_BYTES),
{
    size > MAX_FILE_BYTES
}

/// The extension of a path, empty where it has none.
pub open spec fn extension_or_empty(path: Seq<char>) -> Seq<char> {
    match crate::paths::extension_of(path) {
        Some(ext) => ext,
        None => Seq::empty(),
    }
}

/// The file type that the extension of a path stands for.
pub open spec fn type_of_path(path: Seq<char>) -> FileType {
    crate::types::type_of_extension(crate::text::lower_of(extension_or_empty(path)))
}

/// The type of a file by its extension.
pub fn file_type_of(path: &str) -> (r: FileType)
    ensures
        r == type_of_path(path@),
{
    match extension(path) {
        Some(ext) => FileType::from_extension(ext.as_str()),
        None => {
            let none = String::new();
            proof {
                assert(none@ =~= Seq::<char>::empty());
            }
            FileType::from_extension(none.as_str())
        },
    }
}

// ---- Which files are searched ---------------------------------------------

/// A file that was found in the searched directory.
#[derive(Debug, Clone)]
pub struct WalkedFile {
    /// Its path.
    pub path: String,
    /// Its canonical path, if that can be had.
    pub canonical: Option<String>,
    /// Whether it looks like a binary file.
    pub binary: bool,
}

/// An extension as it is compared: in lowercase, without dots at the start.
pub open spec fn normal_extension(ext: Seq<char>) -> Seq<char> {
    crate::text::without_leading(crate::text::lower_of(ext), '.')
}

/// Whether the first bytes of a file look binary: whether a zero byte is among
/// them.
pub fn looks_binary(prefix: &[u8]) -> (r: bool)
    ensures
        r == prefix@.contains(0u8),
{
    let mut i: usize = 0;
    while i < prefix.len()
        invariant
            i <= prefix@.len(),
            forall|k: int| 0 <= k < i ==> prefix@[k] != 0u8,
        decreases prefix@.len() - i,
    {
        if prefix[i] == 0 {
            proof {
                assert(prefix@[i as int] == 0u8);
            }
            return true;
        }
        i += 1;
    }
    false
}

/// The search engine that coordinates file discovery and text matching.
pub struct SearchEngine {
    pub config: SearchConfig,
    pub index_config: IndexConfig,
    pub pattern: SearchPattern,
    pub index: Option<Index>,
    pub quiet: bool,
}

impl SearchEngine {
    /// The index, if there is one, is well-formed.
    pub open spec fn wf(self) -> bool {
        self.index matches Some(index) ==> index.wf()
    }

    /// An index is loaded for this search.
    pub open spec fn wants_index_of(index_config: IndexConfig) -> bool {
        index_config.use_index || index_config.save_index
    }

    /// Whether an index is loaded for this search.
    pub fn wants_index(index_config: &IndexConfig) -> (r: bool)
        ensures
            r == Self::wants_index_of(*index_config),
    {
        index_config.use_index || index_config.save_index
    }

    /// The engine is made for the given configuration, with what came of reading
    /// the index file at the time `now`.
    pub open spec fn made_from(
        self,
        config: SearchConfig,
        index_config: IndexConfig,
        read: IndexRead,
        now: u64,
    ) -> bool {
        &&& self.wf()
        &&& self.config == config
        &&& self.index_config == index_config
        &&& self.pattern.made_from(config.pattern@, config.use_regex, config.case_sensitive)
        &&& if !Self::wants_index_of(index_config) {
            self.index is None
        } else if read matches IndexRead::Parsed(index) && index.version
            == crate::index::INDEX_VERSION {
            self.index == Some(read->Parsed_0)
        } else if index_config.save_index {
            self.index matches Some(index) && index.version == crate::index::INDEX_VERSION
                && index.directory@ == config.directory@ && index.created_at == now
                && index.updated_at == now && index.map() == Map::<
                Seq<char>,
                IndexEntry,
            >::empty()
        } else {
            self.index is None
        }
    }

    /// Create a new search engine with the given configuration. `read` is what
    /// came of reading the index file, and `now` the time; both count only where
    /// an index is wanted. An index that cannot be used is replaced by an empty
    /// one where it is going to be saved.
    pub fn new(
        config: SearchConfig,
        index_config: IndexConfig,
        read: IndexRead,
        now: u64,
    ) -> (r: Result<SearchEngine, PatternError>)
        requires
            read matches IndexRead::Parsed(index) ==> index.wf(),
        ensures
            match r {
                Ok(engine) => engine.made_from(config, index_config, read, now) && !engine.quiet,
                Err(e) => crate::matching::refused_with(
                    config.pattern@,
                    config.use_regex,
                    config.case_sensitive,
                    e.message@,
                ),
            },
    {
        let pattern = match SearchPattern::new(
            config.pattern.as_str(),
            config.use_regex,
            config.case_sensitive,
        ) {
            Ok(pattern) => pattern,
            Err(e) => {
                return Err(e);
            },
        };
        let index = if Self::wants_index(&index_config) {
            let path = index_config.get_index_path(config.directory.as_str());
            match Index::load(path.as_str(), read) {
                Ok(index) => Some(index),
                Err(_) => {
                    if index_config.save_index {
                        Some(Index::new_at(copied(config.directory.as_str()), now))
                    } else {
                        None
                    }
                },
            }
        } else {
            None
        };
        Ok(SearchEngine { config, index_config, pattern, index, quiet: false })
    }

    /// Suppress the progress bar and the messages on standard error.
    pub fn set_quiet(&mut self, quiet: bool)
        ensures
            *final(self) == (SearchEngine { quiet, ..*old(self) }),
    {
        self.quiet = quiet;
    }

    /// The entry of the walk is looked at, and entered if it is a directory: not
    /// a hidden one, unless those are searched too, and not one of the
    /// directories that are never entered. The root always is.
    pub open spec fn processes(self, depth: nat, name: Seq<char>, is_dir: bool) -> bool {
        ||| depth == 0
        ||| {
            &&& self.config.include_hidden || !(name.len() > 0 && name[0] == '.')
            &&& !(is_dir && crate::text::listed(name, SKIP_DIRS@))
        }
    }

    /// Check if a directory entry should be processed.
    pub fn should_process_entry(&self, depth: usize, name: &str, is_dir: bool) -> (r: bool)
        ensures
            r == self.processes(depth as nat, name@, is_dir),
    {
        if depth == 0 {
            return true;
        }
        if !self.config.include_hidden {
            let v = chars_of(name);
            if v.len() > 0 && v[0] == '.' {
                return false;
            }
        }
        if is_dir && one_of(name, &SKIP_DIRS) {
            return false;
        }
        true
    }

    /// The file is an index file: by its name, or because it is the configured
    /// index file by its path or by its canonical path.
    pub open spec fn is_index_file(
        self,
        path: Seq<char>,
        canonical: Option<Seq<char>>,
        index_canonical: Option<Seq<char>>,
    ) -> bool {
        ||| crate::paths::file_name_of(path) == Some(INDEX_FILE_NAME@)
        ||| crate::paths::components_of(path) == crate::paths::components_of(
            self.index_config.index_path_of(self.config.directory@),
        )
        ||| index_canonical is Some && canonical is Some && crate::paths::components_of(
            canonical->0,
        ) == crate::paths::components_of(index_canonical->0)
    }

    /// The extensions that are searched, as they are compared.
    pub open spec fn extensions_of(self) -> Seq<Seq<char>> {
        self.config.extensions@.map_values(|e: String| normal_extension(e@))
    }

    /// The extension of the file is one of those that are searched.
    pub open spec fn extension_admitted(self, path: Seq<char>) -> bool {
        ||| self.config.extensions@.len() == 0
        ||| crate::paths::extension_of(path) matches Some(ext) && self.extensions_of().contains(
            crate::text::lower_of(ext),
        )
    }

    /// A file of this type is searched: documents always, images where text in
    /// them is recognised, any other file unless it is binary.
    pub open spec fn type_admitted(self, path: Seq<char>, binary: bool) -> bool {
        match crate::types::type_of_extension(
            crate::text::lower_of(crate::text::lower_of(extension_or_empty(path))),
        ) {
            FileType::Pdf | FileType::Docx => true,
            FileType::Image => self.config.ocr.enabled,
            _ => !binary,
        }
    }

    /// The file is searched.
    pub open spec fn selects(self, file: WalkedFile, index_canonical: Option<Seq<char>>) -> bool {
        &&& !self.is_index_file(
            file.path@,
            crate::paths::opt_view(file.canonical),
            index_canonical,
        )
        &&& self.extension_admitted(file.path@)
        &&& self.type_admitted(file.path@, file.binary)
    }

    fn names_index_file(
        &self,
        path: &str,
        canonical: &Option<String>,
        index_canonical: &Option<String>,
    ) -> (r: bool)
        ensures
            r == self.is_index_file(
                path@,
                crate::paths::opt_view(*canonical),
                crate::paths::opt_view(*index_canonical),
            ),
    {
        match file_name(path) {
            Some(name) => {
                if same_text(name.as_str(), INDEX_FILE_NAME) {
                    return true;
                }
            },
            None => {},
        }
        let index_path = self.index_config.get_index_path(self.config.directory.as_str());
        if same_path(path, index_path.as_str()) {
            return true;
        }
        match (canonical, index_canonical) {
            (Some(a), Some(b)) => same_path(a.as_str(), b.as_str()),
            _ => false,
        }
    }

    fn admits_extension(&self, path: &str) -> (r: bool)
        ensures
            r == self.extension_admitted(path@),
    {
        if self.config.extensions.len() == 0 {
            return true;
        }
        match extension(path) {
            None => false,
            Some(ext) => {
                let wanted = lowercase(ext.as_str());
                let mut i: usize = 0;
                while i < self.config.extensions.len()
                    invariant
                        i <= self.config.extensions@.len(),
                        crate::paths::extension_of(path@) == Some(ext@),
                        wanted@ == crate::text::lower_of(ext@),
                        forall|k: int|
                            0 <= k < i ==> (#[trigger] self.extensions_of()[k]) != wanted@,
                    decreases self.config.extensions@.len() - i,
                {
                    let lower = lowercase(self.config.extensions[i].as_str());
                    let normal = trim_leading(lower.as_str(), '.');
                    proof {
                        assert(self.extensions_of()[i as int] == normal@);
                    }
                    if same_text(normal.as_str(), wanted.as_str()) {
                        return true;
                    }
                    i += 1;
                }
                false
            },
        }
    }

    /// The type by which a file is admitted.
    fn admission_type(path: &str) -> (r: FileType)
        ensures
            r == crate::types::type_of_extension(
                crate::text::lower_of(crate::text::lower_of(extension_or_empty(path@))),
            ),
    {
        let ext = match extension(path) {
            Some(ext) => ext,
            None => String::new(),
        };
        proof {
            assert(ext@ =~= extension_or_empty(path@));
        }
        FileType::from_extension(lowercase(ext.as_str()).as_str())
    }

    /// Whether the contents of a file have to be looked at before it can be
    /// said whether it is searched.
    pub fn needs_probe(&self, path: &str) -> (r: bool)
        ensures
            r == (self.type_admitted(path@, true) != self.type_admitted(path@, false)),
    {
        match Self::admission_type(path) {
            FileType::Pdf | FileType::Docx | FileType::Image => false,
            _ => true,
        }
    }

    /// Whether a file is searched.
    pub fn select_file(&self, file: &WalkedFile, index_canonical: &Option<String>) -> (r: bool)
        ensures
            r == self.selects(*file, crate::paths::opt_view(*index_canonical)),
    {
        let path = file.path.as_str();
        if self.names_index_file(path, &file.canonical, index_canonical) {
            return false;
        }
        if !self.admits_extension(path) {
            return false;
        }
        match Self::admission_type(path) {
            FileType::Pdf | FileType::Docx => true,
            FileType::Image => self.config.ocr.enabled,
            _ => !file.binary,
        }
    }

    /// Collect all files to search, out of those that the walk found.
    pub fn collect_files(&self, walked: &Vec<WalkedFile>, index_canonical: &Option<String>) -> (r:
        Vec<String>)
        ensures
            crate::text::views(r@) == walked@.filter(
                |f: WalkedFile| self.selects(f, crate::paths::opt_view(*index_canonical)),
            ).map_values(|f: WalkedFile| f.path@),
    {
        let ghost keep = |f: WalkedFile|
            self.selects(f, crate::paths::opt_view(*index_canonical));
        let ghost path_of = |f: WalkedFile| f.path@;
        let mut out: Vec<String> = Vec::new();
        let mut i: usize = 0;
        proof {
            reveal(Seq::filter);
            assert(crate::text::views(out@) =~= walked@.take(0).filter(keep).map_values(path_of));
        }
        while i < walked.len()
            invariant
                i <= walked@.len(),
                keep == (|f: WalkedFile|
                    self.selects(f, crate::paths::opt_view(*index_canonical))),
                path_of == (|f: WalkedFile| f.path@),
                crate::text::views(out@) == walked@.take(i as int).filter(keep).map_values(path_of),
            decreases walked@.len() - i,
        {
            let ghost before = out@;
            proof {
                reveal(Seq::filter);
                assert(walked@.take(i + 1).drop_last() =~= walked@.take(i as int));
                assert(walked@.take(i + 1).last() == walked@[i as int]);
            }
            if self.select_file(&walked[i], index_canonical) {
                out.push(walked[i].path.clone());
                proof {
                    assert(crate::text::views(out@) =~= crate::text::views(before).push(
                        walked@[i as int].path@,
                    ));
                    assert(walked@.take(i + 1).filter(keep).map_values(path_of)
                        =~= walked@.take(i as int).filter(keep).map_values(path_of).push(
                        walked@[i as int].path@,
                    ));
                }
            }
            i += 1;
        }
        proof {
            assert(walked@.take(walked@.len() as int) =~= walked@);
        }
        out
    }
}

// ---- One file -------------------------------------------------------------

/// What came of extracting the text of a file.
#[derive(Debug, Clone)]
pub struct Extraction {
    /// The text.
    pub text: String,
    /// Whether the text could be extracted.
    pub success: bool,
    /// Why it could not.
    pub error: Option<String>,
}

/// What has to be done to get at the text of a file.
pub enum Lookup {
    /// Nothing: the file is gone.
    Gone,
    /// Nothing: this is the text.
    Cached(String),
    /// The text has to be extracted from a file of this type.
    Extract(FileType),
}

/// Where the text of a file comes from.
pub enum TextSource {
    /// From the index.
    Cached(String),
    /// From the file.
    Extracted(Extraction),
}

/// What became of one file.
pub enum FileOutcome {
    /// Its text could not be extracted.
    Failed(SearchResult),
    /// Nothing was found in it.
    NoMatch,
    /// It has matches.
    Matched { file_type: FileType, matches: Vec<Match> },
}

/// What became of one file, and the entry that it leaves for the index.
pub struct FileFinding {
    pub outcome: FileOutcome,
    pub entry: Option<IndexEntry>,
}

/// The text of a failed extraction's error.
pub open spec fn reason_of(extraction: Extraction) -> Seq<char> {
    match extraction.error {
        Some(reason) => reason@,
        None => "Unknown error"@,
    }
}

impl TextSource {
    /// The text, if there is one.
    pub open spec fn text_of(self) -> Option<Seq<char>> {
        match self {
            TextSource::Cached(text) => Some(text@),
            TextSource::Extracted(extraction) => if extraction.success {
                Some(extraction.text@)
            } else {
                None
            },
        }
    }
}

/// The outcome says that the text of the file could not be extracted, and why.
pub open spec fn is_failure(outcome: FileOutcome, path: Seq<char>, reason: Seq<char>) -> bool {
    outcome matches FileOutcome::Failed(result) && {
        &&& result.wf()
        &&& result.path@ == path
        &&& result.file_type == type_of_path(path)
        &&& result.matches@.len() == 0
        &&& crate::paths::opt_view(result.error) == Some(reason)
    }
}

impl SearchEngine {
    /// The matches of the pattern in a text.
    pub open spec fn matches_of(self, text: Seq<char>) -> Seq<crate::types::MatchView> {
        self.pattern.matches_of(self.config.case_sensitive, text)
    }

    /// Find all matches in the given text.
    pub fn find_matches(&self, text: &str) -> (r: Vec<Match>)
        ensures
            crate::types::match_views(r@) == self.matches_of(text@),
    {
        self.pattern.find(self.config.case_sensitive, text)
    }

    /// What has to be done to get at the text of a file: nothing where the index
    /// has a valid entry for it.
    pub fn lookup(&self, path: &str, meta: Option<FileMeta>) -> (r: Lookup)
        requires
            self.wf(),
        ensures
            match meta {
                None => r is Gone,
                Some(m) => match self.index {
                    Some(index) => match index.valid_entry_for(path@, meta) {
                        Some(entry) => r matches Lookup::Cached(text) && text@
                            == entry.extracted_text@,
                        None => r == Lookup::Extract(type_of_path(path@)),
                    },
                    None => r == Lookup::Extract(type_of_path(path@)),
                },
            },
    {
        if meta.is_none() {
            return Lookup::Gone;
        }
        match &self.index {
            Some(index) => match index.get_valid_entry(path, meta) {
                Some(entry) => Lookup::Cached(copied(entry.extracted_text.as_str())),
                None => Lookup::Extract(file_type_of(path)),
            },
            None => Lookup::Extract(file_type_of(path)),
        }
    }

    /// What the file leaves for the index: its text, where the index is saved,
    /// there is one, and the text was extracted just now.
    pub open spec fn leaves_entry(self, source: TextSource) -> bool {
        &&& self.index is Some
        &&& self.index_config.save_index
        &&& source matches TextSource::Extracted(extraction) && extraction.success
    }

    /// The outcome is what the text of a file comes to: its matches, if it has any.
    pub open spec fn is_outcome(
        self,
        outcome: FileOutcome,
        path: Seq<char>,
        text: Seq<char>,
    ) -> bool {
        match outcome {
            FileOutcome::Failed(_) => false,
            FileOutcome::NoMatch => self.matches_of(text).len() == 0,
            FileOutcome::Matched { file_type, matches } => {
                &&& self.matches_of(text).len() > 0
                &&& file_type == type_of_path(path)
                &&& crate::types::match_views(matches@) == self.matches_of(text)
            },
        }
    }

    /// Search a single file for matches, given its text.
    pub fn search_file_with_index(
        &self,
        path: &str,
        meta: FileMeta,
        source: TextSource,
    ) -> (r: FileFinding)
        ensures
            match source.text_of() {
                None => is_failure(r.outcome, path@, reason_of(source->Extracted_0)),
                Some(text) => self.is_outcome(r.outcome, path@, text),
            },
            match r.entry {
                None => !self.leaves_entry(source),
                Some(entry) => {
                    &&& self.leaves_entry(source)
                    &&& entry.path@ == path@
                    &&& entry.file_type == type_of_path(path@)
                    &&& entry.extracted_text@ == source.text_of()->0
                    &&& entry.modified_timestamp == meta.modified
                    &&& entry.file_size == meta.size
                },
            },
    {
        let file_type = file_type_of(path);
        let mut entry: Option<IndexEntry> = None;
        let text = match source {
            TextSource::Cached(text) => text,
            TextSource::Extracted(extraction) => {
                if !extraction.success {
                    let reason = match extraction.error {
                        Some(reason) => reason,
                        None => copied("Unknown error"),
                    };
                    return FileFinding {
                        outcome: FileOutcome::Failed(
                            SearchResult::with_error(copied(path), file_type, reason),
                        ),
                        entry: None,
                    };
                }
                if self.index.is_some() && self.index_config.save_index {
                    entry = Some(
                        IndexEntry::new(
                            copied(path),
                            file_type,
                            copied(extraction.text.as_str()),
                            meta.modified,
                            meta.size,
                        ),
                    );
                }
                extraction.text
            },
        };
        let matches = self.find_matches(text.as_str());
        proof {
            assert(crate::types::match_views(matches@).len() == matches@.len());
        }
        let outcome = if matches.is_empty() {
            FileOutcome::NoMatch
        } else {
            FileOutcome::Matched { file_type, matches }
        };
        FileFinding { outcome, entry }
    }

    /// Search a single file for matches (without index), given what came of
    /// extracting its text.
    pub fn search_file(&self, path: &str, extraction: Extraction) -> (r: FileOutcome)
        ensures
            if extraction.success {
                self.is_outcome(r, path@, extraction.text@)
            } else {
                is_failure(r, path@, reason_of(extraction))
            },
    {
        let meta = FileMeta { modified: 0, size: 0 };
        self.search_file_with_index(path, meta, TextSource::Extracted(extraction)).outcome
    }
}

impl FileOutcome {
    /// The result for a file, if it is worth one. `score` rates a file that has
    /// matches.
    pub fn into_result(self, path: &str, score: u64) -> (r: Option<SearchResult>)
        ensures
            match self {
                FileOutcome::Failed(result) => r == Some(result),
                FileOutcome::NoMatch => r is None,
                FileOutcome::Matched { file_type, matches } => r matches Some(result) && {
                    &&& result.path@ == path@
                    &&& result.file_type == file_type
                    &&& result.matches@ == matches@
                    &&& result.error is None
                    &&& result.wf()
                    &&& result.confidence == (if matches@.len() == 0 {
                        0
                    } else if score > crate::types::FULL_CONFIDENCE {
                        crate::types::FULL_CONFIDENCE
                    } else {
                        score
                    })
                },
            },
    {
        match self {
            FileOutcome::Failed(result) => Some(result),
            FileOutcome::NoMatch => None,
            FileOutcome::Matched { file_type, matches } => Some(
                SearchResult::new(copied(path), file_type, matches, score),
            ),
        }
    }
}

// ---- Progress -------------------------------------------------------------

/// How far a search is. `total` is 0 until the files have been collected, and then
/// their number; `current` is how many of them are done.
#[derive(Debug, Clone, Copy, PartialEq, Eq, Structural)]
pub struct ProgressHandle {
    pub current: usize,
    pub total: usize,
}

impl Default for ProgressHandle {
    fn default() -> (r: ProgressHandle)
        ensures
            r == (ProgressHandle { current: 0, total: 0 }),
    {
        ProgressHandle { current: 0, total: 0 }
    }
}

impl ProgressHandle {
    /// A search starts: it counts from zero, whatever was counted before.
    pub fn reset(&mut self)
        ensures
            *final(self) == (ProgressHandle { current: 0, total: 0 }),
    {
        self.current = 0;
        self.total = 0;
    }

    /// The files have been collected.
    pub fn set_total(&mut self, total: usize)
        ensures
            *final(self) == (ProgressHandle { total, ..*old(self) }),
    {
        self.total = total;
    }

    /// The counters when one more file is done.
    pub open spec fn advanced(self) -> ProgressHandle {
        ProgressHandle {
            current: if self.current == usize::MAX {
                0
            } else {
                (self.current + 1) as usize
            },
            ..self
        }
    }

    /// One more file is done. Returns how many are.
    pub fn advance(&mut self) -> (r: usize)
        ensures
            *final(self) == old(self).advanced(),
            r == final(self).current,
    {
        self.current = self.current.wrapping_add(1);
        self.current
    }
}

// ---- The whole search -----------------------------------------------------

/// What a search has found so far.
pub struct Tally {
    /// The results with matches, in the order in which they came.
    pub results: Vec<SearchResult>,
    /// The statistics.
    pub stats: SearchStats,
    /// New entries for the index, in the order in which they came.
    pub new_entries: Vec<IndexEntry>,
}

/// The number of matches in some results.
pub open spec fn total_matches_of(results: Seq<SearchResult>) -> nat
    decreases results.len(),
{
    if results.len() == 0 {
        0
    } else {
        total_matches_of(results.drop_last()) + results.last().matches@.len()
    }
}

/// The number of results for files of a type.
pub open spec fn count_of(results: Seq<SearchResult>, file_type: FileType) -> nat
    decreases results.len(),
{
    if results.len() == 0 {
        0
    } else {
        count_of(results.drop_last(), file_type) + (if results.last().file_type == file_type {
            1nat
        } else {
            0nat
        })
    }
}

proof fn lemma_count_bound(results: Seq<SearchResult>, file_type: FileType)
    ensures
        count_of(results, file_type) <= results.len(),
    decreases results.len(),
{
    if results.len() > 0 {
        lemma_count_bound(results.drop_last(), file_type);
    }
}

impl Tally {
    /// The statistics are those of the results: a file is counted as matched
    /// where it has a result, its matches are in the total, and it is counted
    /// under its type. Every skipped file has its error.
    pub open spec fn wf(self) -> bool {
        &&& self.stats.wf()
        &&& self.stats.files_matched == self.results@.len()
        &&& self.stats.total_matches == total_matches_of(self.results@)
        &&& self.stats.files_skipped == self.stats.errors@.len()
        &&& self.stats.files_matched + self.stats.files_skipped <= self.stats.files_scanned
        &&& forall|k: int|
            0 <= k < self.results@.len() ==> (#[trigger] self.results@[k]).matches@.len() > 0
                && self.results@[k].error is None && self.results@[k].wf()
        &&& forall|t: FileType| #[trigger]
            self.stats.by_type.as_map().contains_key(t) <==> count_of(self.results@, t) > 0
        &&& forall|t: FileType| #[trigger]
            self.stats.by_type.as_map().contains_key(t) ==> self.stats.by_type.as_map()[t]
                == count_of(self.results@, t)
    }

    /// Nothing found yet.
    pub fn new() -> (r: Tally)
        ensures
            r.wf(),
            r.results@.len() == 0,
            r.new_entries@.len() == 0,
            r.stats.files_scanned == 0,
            r.stats.errors@.len() == 0,
            r.stats.duration_ms == 0,
    {
        Tally { results: Vec::new(), stats: SearchStats::new(), new_entries: Vec::new() }
    }

    /// Note was taken of one file.
    pub open spec fn recorded(
        self,
        before: Tally,
        result: Option<SearchResult>,
        entry: Option<IndexEntry>,
    ) -> bool {
        &&& self.wf()
        &&& self.stats.files_scanned == before.stats.files_scanned + 1
        &&& self.stats.duration_ms == before.stats.duration_ms
        &&& self.new_entries@ == (match entry {
            Some(e) => before.new_entries@.push(e),
            None => before.new_entries@,
        })
        &&& match result {
            None => {
                &&& self.results@ == before.results@
                &&& self.stats.errors@ == before.stats.errors@
            },
            Some(res) => match res.error {
                Some(error) => {
                    &&& self.results@ == before.results@
                    &&& self.stats.errors@ == before.stats.errors@.push((res.path, error))
                },
                None => {
                    &&& self.results@ == (if res.matches@.len() == 0 {
                        before.results@
                    } else {
                        before.results@.push(res)
                    })
                    &&& self.stats.errors@ == before.stats.errors@
                },
            },
        }
    }

    /// Takes note of one file: of its result and of the entry that it leaves for
    /// the index. A result with an error counts as a skipped file.
    pub fn record(&mut self, result: Option<SearchResult>, entry: Option<IndexEntry>)
        requires
            old(self).wf(),
            old(self).stats.files_scanned < usize::MAX,
            result matches Some(res) ==> {
                &&& res.wf()
                &&& res.error is Some ==> res.matches@.len() == 0
                &&& old(self).stats.total_matches + res.matches@.len() <= usize::MAX
            },
        ensures
            final(self).recorded(*old(self), result, entry),
    {
        let ghost before = *self;
        match entry {
            Some(e) => {
                self.new_entries.push(e);
            },
            None => {},
        }
        self.stats.inc_scanned();
        match result {
            None => {},
            Some(res) => {
                if res.error.is_some() {
                    self.stats.inc_skipped();
                    match res.error {
                        Some(error) => {
                            self.stats.errors.push((res.path, error));
                        },
                        None => {},
                    }
                } else {
                    proof {
                        lemma_count_bound(self.results@, res.file_type);
                    }
                    self.stats.add_result(&res);
                    if !res.matches.is_empty() {
                        self.results.push(res);
                        proof {
                            assert(self.results@.drop_last() =~= before.results@);
                            assert(forall|t: FileType|
                                count_of(self.results@, t) == count_of(before.results@, t) + (
                                if res.file_type == t {
                                    1nat
                                } else {
                                    0nat
                                }));
                        }
                    }
                }
            },
        }
    }
}

/// The entries of an index after new ones were put into it, one after the other.
pub open spec fn upserted(
    entries: Map<Seq<char>, IndexEntry>,
    new_entries: Seq<IndexEntry>,
) -> Map<Seq<char>, IndexEntry>
    decreases new_entries.len(),
{
    if new_entries.len() == 0 {
        entries
    } else {
        upserted(entries, new_entries.drop_last()).insert(
            crate::paths::key_of(new_entries.last().path@),
            new_entries.last(),
        )
    }
}

/// What is shown of the results that were found: the first `limit` of them in
/// order.
pub open spec fn shown_of(
    found: Seq<SearchResult>,
    limit: nat,
    shown: Seq<SearchResult>,
) -> bool {
    exists|all: Seq<SearchResult>| #[trigger]
        crate::ranking::stably_ranked(found, all) && shown == (if all.len() > limit {
            all.take(limit as int)
        } else {
            all
        })
}

/// The results in order, and no more than `limit` of them.
pub fn limited(results: Vec<SearchResult>, limit: usize) -> (r: Vec<SearchResult>)
    ensures
        shown_of(results@, limit as nat, r@),
{
    let mut all = rank(results);
    let ghost sorted = all@;
    proof {
        assert(crate::ranking::stably_ranked(results@, sorted));
    }
    if all.len() > limit {
        all.truncate(limit);
        proof {
            assert(all@ =~= sorted.take(limit as int));
        }
    }
    all
}

impl SearchEngine {
    /// The engine is as it was before, but that new entries were put into its index,
    /// where it has one that is going to be saved.
    pub open spec fn updated_from(
        self,
        before: SearchEngine,
        new_entries: Seq<IndexEntry>,
    ) -> bool {
        &&& self.wf()
        &&& self.config == before.config
        &&& self.index_config == before.index_config
        &&& self.pattern == before.pattern
        &&& self.quiet == before.quiet
        &&& match before.index {
            Some(index) if before.index_config.save_index => {
                &&& self.index is Some
                &&& self.index->0.map() == upserted(index.map(), new_entries)
                &&& self.index->0.version == index.version
                &&& self.index->0.directory == index.directory
                &&& self.index->0.created_at == index.created_at
                &&& self.index->0.updated_at == index.updated_at
            },
            _ => self.index == before.index,
        }
    }

    /// Puts new entries into the index, one after the other, where the index is
    /// going to be saved.
    pub fn update_index(&mut self, new_entries: Vec<IndexEntry>)
        requires
            old(self).wf(),
        ensures
            final(self).updated_from(*old(self), new_entries@),
    {
        if !self.index_config.save_index {
            return ;
        }
        let mut index: Option<Index> = None;
        std::mem::swap(&mut index, &mut self.index);
        match index {
            None => {},
            Some(mut known) => {
                let ghost start = known;
                let mut rest: Vec<IndexEntry> = Vec::new();
                let mut pending = new_entries;
                let ghost all = pending@;
                while pending.len() > 0
                    invariant
                        pending@.len() <= all.len(),
                        pending@ == all.take(pending@.len() as int),
                        pending@.len() + rest@.len() == all.len(),
                        forall|k: int|
                            0 <= k < rest@.len() ==> rest@[k] == all[all.len() - 1 - k],
                    decreases pending@.len(),
                {
                    match pending.pop() {
                        Some(entry) => {
                            rest.push(entry);
                        },
                        None => {},
                    }
                }
                proof {
                    assert(all.take(0) =~= Seq::<IndexEntry>::empty());
                }
                while rest.len() > 0
                    invariant
                        known.wf(),
                        rest@.len() <= all.len(),
                        forall|k: int|
                            0 <= k < rest@.len() ==> rest@[k] == all[all.len() - 1 - k],
                        known.map() == upserted(start.map(), all.take(all.len() - rest@.len())),
                        known.version == start.version,
                        known.directory == start.directory,
                        known.created_at == start.created_at,
                        known.updated_at == start.updated_at,
                    decreases rest@.len(),
                {
                    let ghost done = all.len() - rest@.len();
                    match rest.pop() {
                        Some(entry) => {
                            proof {
                                assert(entry == all[done]);
                                assert(all.take(done + 1).drop_last() =~= all.take(done));
                                assert(all.take(done + 1).last() == entry);
                            }
                            known.upsert_entry(entry);
                        },
                        None => {},
                    }
                }
                proof {
                    assert(all.take(all.len() as int) =~= all);
                }
                self.index = Some(known);
            },
        }
    }

    /// Ends a search: brings the index up to date with what was found, and
    /// returns the results in order, no more than the limit, with the statistics.
    pub fn search(&mut self, tally: Tally) -> (r: (Vec<SearchResult>, SearchStats))
        requires
            old(self).wf(),
        ensures
            final(self).updated_from(*old(self), tally.new_entries@),
            shown_of(tally.results@, old(self).config.limit as nat, r.0@),
            r.1 == tally.stats,
    {
        self.update_index(tally.new_entries);
        (limited(tally.results, self.config.limit), tally.stats)
    }
}

// ---- Laws -----------------------------------------------------------------

/// Putting results in order neither loses nor adds one.
proof fn lemma_same_members(
    found: Seq<SearchResult>,
    all: Seq<SearchResult>,
    x: SearchResult,
)
    requires
        crate::ranking::stably_ranked(found, all),
    ensures
        found.contains(x) <==> all.contains(x),
{
    let count = x.matches@.len();
    let confidence = x.confidence;
    let same = |r: SearchResult| r.matches@.len() == count && r.confidence == confidence;
    assert(crate::ranking::rank_class(all, count, confidence) == crate::ranking::rank_class(
        found,
        count,
        confidence,
    ));
    if found.contains(x) {
        let k = choose|k: int| 0 <= k < found.len() && found[k] == x;
        found.lemma_filter_contains(same, k);
        all.lemma_filter_contains_rev(same, x);
    }
    if all.contains(x) {
        let k = choose|k: int| 0 <= k < all.len() && all[k] == x;
        all.lemma_filter_contains(same, k);
        found.lemma_filter_contains_rev(same, x);
    }
}

/// What is shown is in order, as long as the limit lets it be, made of results
/// that were found; and no result that is left out belongs before one that is
/// shown.
pub proof fn law_shown_results(found: Seq<SearchResult>, limit: nat, shown: Seq<SearchResult>)
    requires
        shown_of(found, limit, shown),
    ensures
        crate::ranking::ranked(shown),
        shown.len() == (if found.len() < limit {
            found.len()
        } else {
            limit
        }),
        forall|x: SearchResult| #[trigger] shown.contains(x) ==> found.contains(x),
        forall|x: SearchResult, k: int|
            found.contains(x) && !shown.contains(x) && 0 <= k < shown.len()
                ==> #[trigger] crate::ranking::not_after(shown[k], x),
{
    let all = choose|all: Seq<SearchResult>| #[trigger]
        crate::ranking::stably_ranked(found, all) && shown == (if all.len() > limit {
            all.take(limit as int)
        } else {
            all
        });
    assert forall|x: SearchResult| #[trigger] shown.contains(x) implies found.contains(x) by {
        let k = choose|k: int| 0 <= k < shown.len() && shown[k] == x;
        assert(all[k] == x);
        lemma_same_members(found, all, x);
    }
    assert forall|x: SearchResult, k: int|
        found.contains(x) && !shown.contains(x) && 0 <= k < shown.len() implies
        #[trigger] crate::ranking::not_after(shown[k], x) by {
        lemma_same_members(found, all, x);
        let j = choose|j: int| 0 <= j < all.len() && all[j] == x;
        if j < shown.len() {
            assert(shown[j] == x);
        }
        assert(crate::ranking::not_after(all[k], all[j]));
    }
}

/// No index file is ever searched, whatever the options are.
pub proof fn law_index_file_is_not_searched(
    engine: SearchEngine,
    file: WalkedFile,
    index_canonical: Option<Seq<char>>,
)
    ensures
        crate::paths::file_name_of(file.path@) == Some(INDEX_FILE_NAME@) ==> !engine.selects(
            file,
            index_canonical,
        ),
        crate::paths::components_of(file.path@) == crate::paths::components_of(
            engine.index_config.index_path_of(engine.config.directory@),
        ) ==> !engine.selects(file, index_canonical),
{
}

/// Hidden entries below the root are passed over unless they are asked for, and
/// the directories that are never entered are not entered even then.
pub proof fn law_skipped_entries(
    engine: SearchEngine,
    depth: nat,
    name: Seq<char>,
    is_dir: bool,
)
    requires
        depth > 0,
    ensures
        !engine.config.include_hidden && name.len() > 0 && name[0] == '.' ==> !engine.processes(
            depth,
            name,
            is_dir,
        ),
        is_dir && crate::text::listed(name, SKIP_DIRS@) ==> !engine.processes(depth, name, is_dir),
{
}

/// The last entry that a search left for a path is the one that the index has.
proof fn lemma_last_entry_stays(
    entries: Map<Seq<char>, IndexEntry>,
    new_entries: Seq<IndexEntry>,
    k: int,
)
    requires
        0 <= k < new_entries.len(),
        forall|j: int|
            k < j < new_entries.len() ==> crate::paths::key_of((#[trigger] new_entries[j]).path@)
                != crate::paths::key_of(new_entries[k].path@),
    ensures
        ({
            let key = crate::paths::key_of(new_entries[k].path@);
            upserted(entries, new_entries).contains_key(key) && upserted(entries, new_entries)[key]
                == new_entries[k]
        }),
    decreases new_entries.len(),
{
    if k < new_entries.len() - 1 {
        let init = new_entries.drop_last();
        assert(init[k] == new_entries[k]);
        assert forall|j: int| k < j < init.len() implies crate::paths::key_of(
            (#[trigger] init[j]).path@,
        ) != crate::paths::key_of(init[k].path@) by {
            assert(init[j] == new_entries[j]);
        }
        lemma_last_entry_stays(entries, init, k);
        assert(new_entries[new_entries.len() - 1] == new_entries.last());
    }
}

/// What a search saved of a file is what the next search is given for it, as
/// long as the file keeps its time and its size: it is not extracted again.
pub proof fn law_saved_text_is_used_again(
    before: Index,
    after: Index,
    new_entries: Seq<IndexEntry>,
    k: int,
)
    requires
        after.map() == upserted(before.map(), new_entries),
        0 <= k < new_entries.len(),
        forall|j: int|
            k < j < new_entries.len() ==> crate::paths::components_of(
                (#[trigger] new_entries[j]).path@,
            ) != crate::paths::components_of(new_entries[k].path@),
    ensures
        after.valid_entry_for(
            new_entries[k].path@,
            Some(
                FileMeta {
                    modified: new_entries[k].modified_timestamp,
                    size: new_entries[k].file_size,
                },
            ),
        ) == Some(new_entries[k]),
{
    assert forall|j: int| k < j < new_entries.len() implies crate::paths::key_of(
        (#[trigger] new_entries[j]).path@,
    ) != crate::paths::key_of(new_entries[k].path@) by {
        crate::paths::law_key_identifies_path(new_entries[j].path@, new_entries[k].path@);
    }
    lemma_last_entry_stays(before.map(), new_entries, k);
}

/// A path that a search left no entry for keeps the entry that it had.
pub proof fn law_other_entries_are_kept(
    entries: Map<Seq<char>, IndexEntry>,
    new_entries: Seq<IndexEntry>,
    key: Seq<char>,
)
    requires
        forall|j: int|
            0 <= j < new_entries.len() ==> crate::paths::key_of((#[trigger] new_entries[j]).path@)
                != key,
    ensures
        upserted(entries, new_entries).contains_key(key) == entries.contains_key(key),
        entries.contains_key(key) ==> upserted(entries, new_entries)[key] == entries[key],
    decreases new_entries.len(),
{
    if new_entries.len() > 0 {
        let init = new_entries.drop_last();
        assert forall|j: int| 0 <= j < init.len() implies crate::paths::key_of(
            (#[trigger] init[j]).path@,
        ) != key by {
            assert(init[j] == new_entries[j]);
        }
        assert(new_entries[new_entries.len() - 1] == new_entries.last());
        law_other_entries_are_kept(entries, init, key);
    }
}

/// An index that a search saves is one that can be loaded again. What is loaded
/// has the entries that the index had at the start of the search and those that
/// the search left, except for files that are gone. `there` says of a path key
/// whether its file is there, and `listed` is what the index file lists.
pub proof fn law_saved_index_is_loaded_again(
    config: SearchConfig,
    index_config: IndexConfig,
    read: IndexRead,
    now: u64,
    before: SearchEngine,
    new_entries: Seq<IndexEntry>,
    after: SearchEngine,
    there: spec_fn(Seq<char>) -> bool,
    present: Seq<bool>,
    saved: Index,
    listed: Seq<(String, IndexEntry)>,
    loaded: Index,
)
    requires
        index_config.save_index,
        before.made_from(config, index_config, read, now),
        after.updated_from(before, new_entries),
        after.index matches Some(index) && {
            &&& present.len() == index.entries@.len()
            &&& forall|i: int|
                0 <= i < present.len() ==> (#[trigger] present[i]) == there(
                    crate::paths::key_of(index.entries@[i].0@),
                )
            &&& saved.wf()
            &&& saved.version == index.version
            &&& saved.map() == index.map().restrict(index.keys_where(present))
        },
        listed.to_set() == saved.entries@.to_set(),
        loaded.version == saved.version,
        loaded.map() == crate::index::collected(listed),
    ensures
        before.index is Some,
        crate::index::is_usable(IndexRead::Parsed(loaded)),
        loaded.map() == upserted(before.index->0.map(), new_entries).restrict(Set::new(there)),
{
    let index = after.index->0;
    crate::index::law_listed_index_is_rebuilt(saved, listed);
    let kept = index.map().restrict(index.keys_where(present));
    let expected = index.map().restrict(Set::new(there));
    assert forall|key: Seq<char>| index.map().contains_key(key) implies index.keys_where(
        present,
    ).contains(key) == there(key) by {
        let at = index.slots@[key] as int;
        assert(present[at] == there(crate::paths::key_of(index.entries@[at].0@)));
    }
    assert(kept =~= expected);
}

/// The results among what became of some files.
pub open spec fn found_in(results: Seq<Option<SearchResult>>) -> Seq<SearchResult>
    decreases results.len(),
{
    if results.len() == 0 {
        Seq::empty()
    } else {
        let before = found_in(results.drop_last());
        match results.last() {
            Some(res) if res.error is None && res.matches@.len() > 0 => before.push(res),
            _ => before,
        }
    }
}

/// The errors among what became of some files.
pub open spec fn errors_in(results: Seq<Option<SearchResult>>) -> Seq<(String, String)>
    decreases results.len(),
{
    if results.len() == 0 {
        Seq::empty()
    } else {
        let before = errors_in(results.drop_last());
        match results.last() {
            Some(res) if res.error is Some => before.push((res.path, res.error->0)),
            _ => before,
        }
    }
}

/// The tallies are those of a run: the first one holds nothing, and each other one
/// took note of one more file.
pub open spec fn is_run(
    tallies: Seq<Tally>,
    results: Seq<Option<SearchResult>>,
    entries: Seq<Option<IndexEntry>>,
) -> bool {
    &&& tallies.len() == results.len() + 1
    &&& entries.len() == results.len()
    &&& tallies[0].wf()
    &&& tallies[0].stats.files_scanned == 0
    &&& tallies[0].results@.len() == 0
    &&& tallies[0].stats.errors@.len() == 0
    &&& forall|k: int|
        0 <= k < results.len() ==> (#[trigger] tallies[k + 1]).recorded(
            tallies[k],
            results[k],
            entries[k],
        )
}

/// After a run every file has been counted once as scanned. Those with matches are
/// the results and are counted as matched, with all their matches, and the counts
/// by type add up to them. Those that failed are counted as skipped and have their
/// errors; none of them is among the results.
pub proof fn law_statistics_of_a_run(
    tallies: Seq<Tally>,
    results: Seq<Option<SearchResult>>,
    entries: Seq<Option<IndexEntry>>,
)
    requires
        is_run(tallies, results, entries),
    ensures
        ({
            let end = tallies.last();
            &&& end.stats.files_scanned == results.len()
            &&& end.results@ == found_in(results)
            &&& end.stats.errors@ == errors_in(results)
            &&& end.stats.files_matched == found_in(results).len()
            &&& end.stats.total_matches == total_matches_of(found_in(results))
            &&& end.stats.files_skipped == errors_in(results).len()
            &&& crate::types::sum_of(end.stats.by_type.counts@) == end.stats.files_matched
            &&& forall|k: int|
                0 <= k < end.results@.len() ==> (#[trigger] end.results@[k]).error is None
        }),
    decreases results.len(),
{
    let end = tallies.last();
    if results.len() > 0 {
        let n = results.len() - 1;
        let some = tallies.drop_last();
        assert forall|k: int| 0 <= k < n implies (#[trigger] some[k + 1]).recorded(
            some[k],
            results.drop_last()[k],
            entries.drop_last()[k],
        ) by {
            assert(tallies[k + 1].recorded(tallies[k], results[k], entries[k]));
        }
        law_statistics_of_a_run(some, results.drop_last(), entries.drop_last());
        assert(tallies[n + 1].recorded(tallies[n], results[n], entries[n]));
        assert(some.last() == tallies[n]);
    } else {
        assert(end.results@ =~= found_in(results));
        assert(end.stats.errors@ =~= errors_in(results));
    }
    law_types_add_up(end);
}

/// The counters are those of a run over `files` files: they start from zero when
/// the files have been collected, and count each file that is done.
pub open spec fn is_counted(handles: Seq<ProgressHandle>, files: nat) -> bool {
    &&& handles.len() == files + 1
    &&& handles[0].current == 0
    &&& handles[0].total == files
    &&& forall|k: int| 0 <= k < files ==> (#[trigger] handles[k + 1]) == handles[k].advanced()
}

/// At every moment of a run the counters say how many files have been scanned, out
/// of how many; at its end, all of them.
pub proof fn law_progress_of_a_run(
    tallies: Seq<Tally>,
    results: Seq<Option<SearchResult>>,
    entries: Seq<Option<IndexEntry>>,
    handles: Seq<ProgressHandle>,
)
    requires
        is_run(tallies, results, entries),
        is_counted(handles, results.len()),
    ensures
        forall|k: int|
            0 <= k <= results.len() ==> {
                &&& (#[trigger] handles[k]).current == k
                &&& handles[k].total == results.len()
                &&& tallies[k].stats.files_scanned == k
            },
        handles.last().current == handles.last().total,
        handles.last().current == tallies.last().stats.files_scanned,
{
    assert forall|k: int| 0 <= k <= results.len() implies {
        &&& (#[trigger] handles[k]).current == k
        &&& handles[k].total == results.len()
        &&& tallies[k].stats.files_scanned == k
    } by {
        lemma_progress(tallies, results, entries, handles, k);
    }
}

proof fn lemma_progress(
    tallies: Seq<Tally>,
    results: Seq<Option<SearchResult>>,
    entries: Seq<Option<IndexEntry>>,
    handles: Seq<ProgressHandle>,
    k: int,
)
    requires
        is_run(tallies, results, entries),
        is_counted(handles, results.len()),
        0 <= k <= results.len(),
    ensures
        handles[k].current == k,
        handles[k].total == results.len(),
        tallies[k].stats.files_scanned == k,
    decreases k,
{
    if k > 0 {
        lemma_progress(tallies, results, entries, handles, k - 1);
        assert(tallies[k - 1 + 1].recorded(tallies[k - 1], results[k - 1], entries[k - 1]));
        assert(handles[k - 1 + 1] == handles[k - 1].advanced());
    }
}

/// The counts by type of the results add up to the number of results.
proof fn lemma_counts_add_up(results: Seq<SearchResult>)
    ensures
        count_of(results, FileType::Text) + count_of(results, FileType::Code) + count_of(
            results,
            FileType::Pdf,
        ) + count_of(results, FileType::Docx) + count_of(results, FileType::Image) + count_of(
            results,
            FileType::Other,
        ) == results.len(),
    decreases results.len(),
{
    if results.len() > 0 {
        lemma_counts_add_up(results.drop_last());
    }
}

/// The counts by type add up to the files that are counted as matched.
pub proof fn law_types_add_up(tally: Tally)
    requires
        tally.wf(),
    ensures
        crate::types::sum_of(tally.stats.by_type.counts@) == tally.stats.files_matched,
{
    let by_type = tally.stats.by_type;
    lemma_counts_add_up(tally.results@);
    crate::types::lemma_sum_by_type(by_type.counts@);
    assert forall|t: FileType| crate::types::counted_as(by_type.counts@, t) == #[trigger] count_of(
        tally.results@,
        t,
    ) by {
        crate::types::lemma_counted_as(by_type, t);
        assert(by_type.as_map().contains_key(t) <==> count_of(tally.results@, t) > 0);
    }
}

} // verus!
