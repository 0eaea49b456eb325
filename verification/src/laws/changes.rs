//! What the functions that change a search and its index do to them.

use crate::index::{FileMeta, Index, IndexEntry, IndexError, IndexRead};
use crate::matching::PatternError;
use crate::search::{ProgressHandle, SearchEngine, Tally};
use crate::types::{IndexConfig, SearchConfig, SearchResult, SearchStats};
use vstd::prelude::*;

verus! {

// ---- The index ------------------------------------------------------------

/// An entry that is put into the index is the entry of its path, however the path is
/// written, and every other path keeps the entry that it had.
pub proof fn law_put_entry_is_found(index: &mut Index, entry: IndexEntry, path: Seq<char>)
    requires
        old(index).wf(),
        call_ensures(Index::upsert_entry, (index, entry), ()),
    ensures
        crate::paths::components_of(path) == crate::paths::components_of(entry.path@) ==> final(index).entry_for(path) == Some(entry),
        crate::paths::components_of(path) != crate::paths::components_of(entry.path@) ==> final(index).entry_for(path) == old(index).entry_for(path),
        final(index).version == old(index).version,
        final(index).directory == old(index).directory,
        final(index).created_at == old(index).created_at,
        final(index).updated_at == old(index).updated_at,
{
    crate::paths::law_key_identifies_path(path, entry.path@);
}

/// An entry that is put under a path is the entry of this path.
pub proof fn law_entry_under_a_path(
    index: &mut Index,
    key: String,
    entry: IndexEntry,
    path: Seq<char>,
)
    requires
        old(index).wf(),
        call_ensures(Index::insert, (index, key, entry), ()),
    ensures
        crate::paths::components_of(path) == crate::paths::components_of(key@) ==> final(index).entry_for(path) == Some(entry),
        crate::paths::components_of(path) != crate::paths::components_of(key@) ==> final(index).entry_for(path) == old(index).entry_for(path),
{
    crate::paths::law_key_identifies_path(path, key@);
}

/// Taking out the files that are gone keeps the entry of a file exactly if it is there.
pub proof fn law_gone_files_go(index: &mut Index, present: Vec<bool>, i: int)
    requires
        old(index).wf(),
        present@.len() == old(index).entries@.len(),
        call_ensures(Index::prune_missing, (index, &present), ()),
        0 <= i < present@.len(),
    ensures
        present@[i] ==> final(index).entry_for(old(index).entries@[i].0@) == Some(
            old(index).entries@[i].1,
        ),
        !present@[i] ==> final(index).entry_for(old(index).entries@[i].0@) is None,
        final(index).version == old(index).version,
{
    crate::laws::cache::law_entries_of_missing_files_go(*old(index), present@, *final(index), i);
}

/// What is handed out for a path is the entry of a file that is there and is as it was.
pub proof fn law_valid_entry_is_handed_out(
    index: Index,
    path: &str,
    meta: Option<FileMeta>,
    r: Option<&IndexEntry>,
)
    requires
        index.wf(),
        call_ensures(Index::get_valid_entry, (&index, path, meta), r),
    ensures
        r matches Some(entry) ==> index.entry_for(path@) == Some(*entry) && meta == Some(
            FileMeta { modified: entry.modified_timestamp, size: entry.file_size },
        ),
        r is None ==> index.entry_for(path@) is None || meta is None || (
        index.entry_for(path@)->0).modified_timestamp != meta->0.modified || (index.entry_for(
            path@,
        )->0).file_size != meta->0.size,
{
}

/// An index that is read can be used exactly if it is one of version 1; else what is wrong
/// is told.
pub proof fn law_loaded_index(path: &str, read: IndexRead, r: Result<Index, IndexError>)
    requires
        call_ensures(Index::load, (path, read), r),
    ensures
        read matches IndexRead::Parsed(index) ==> {
            &&& index.version == 1 ==> r == Ok::<Index, IndexError>(index)
            &&& index.version != 1 ==> r == Err::<Index, IndexError>(
                IndexError::VersionMismatch { expected: 1, found: index.version },
            )
        },
        read is Missing ==> (r matches Err(IndexError::NotFound(p)) && p@ == path@),
        read matches IndexRead::Unreadable(why) ==> r == Err::<Index, IndexError>(
            IndexError::IoError(why),
        ),
        read matches IndexRead::Malformed(why) ==> r == Err::<Index, IndexError>(
            IndexError::ParseError(why),
        ),
{
}

/// What is wrong with an index, in words.
pub proof fn law_words_of_index_errors(error: IndexError)
    ensures
        error matches IndexError::NotFound(path) ==> error.message_of() == "Index file not found: "@
            + path@,
        error matches IndexError::IoError(why) ==> error.message_of() == "IO error: "@ + why@,
        error matches IndexError::ParseError(why) ==> error.message_of()
            == "Failed to parse index: "@ + why@,
        error matches IndexError::VersionMismatch { expected, found } ==> error.message_of()
            == "Index version mismatch: expected "@ + crate::text::decimal_of(expected as nat)
            + ", found "@ + crate::text::decimal_of(found as nat),
{
}

/// The index counts its entries.
pub proof fn law_index_counts(index: Index, n: usize, empty: bool)
    requires
        index.wf(),
        call_ensures(Index::len, (&index,), n),
        call_ensures(Index::is_empty, (&index,), empty),
    ensures
        n == index.entries@.len(),
        empty <==> index.entries@.len() == 0,
{
    crate::index::law_as_many_paths_as_entries(index);
}

/// Stamping an index notes the time of its last change and nothing else.
pub proof fn law_stamp(index: &mut Index, now: u64)
    requires
        call_ensures(Index::stamp, (index, now), ()),
    ensures
        final(index).updated_at == now,
        final(index).created_at == old(index).created_at,
        final(index).version == old(index).version,
        final(index).directory == old(index).directory,
        final(index).entries == old(index).entries,
        final(index).slots == old(index).slots,
{
}

// ---- A search -------------------------------------------------------------

/// A literal query is always accepted; an engine is then made of the configuration.
pub proof fn law_literal_engine(
    config: SearchConfig,
    index_config: IndexConfig,
    read: IndexRead,
    now: u64,
    r: Result<SearchEngine, PatternError>,
)
    requires
        read matches IndexRead::Parsed(index) ==> index.wf(),
        call_ensures(SearchEngine::new, (config, index_config, read, now), r),
    ensures
        !config.use_regex ==> r is Ok,
        r matches Ok(engine) ==> engine.config == config && engine.index_config == index_config
            && !engine.quiet,
{
}

/// Taking note of a file counts it as scanned. Its result is kept if it has matches and no
/// error, its error if it has one, and the entry that it leaves in any case.
pub proof fn law_note_of_a_file(
    tally: &mut Tally,
    result: Option<SearchResult>,
    entry: Option<IndexEntry>,
)
    requires
        old(tally).wf(),
        old(tally).stats.files_scanned < usize::MAX,
        result matches Some(res) ==> res.wf() && (res.error is Some ==> res.matches@.len() == 0)
            && old(tally).stats.total_matches + res.matches@.len() <= usize::MAX,
        call_ensures(Tally::record, (tally, result, entry), ()),
    ensures
        final(tally).stats.files_scanned == old(tally).stats.files_scanned + 1,
        result is None ==> final(tally).results@ == old(tally).results@ && final(tally).stats.errors@ == old(tally).stats.errors@,
        result matches Some(res) ==> {
            &&& res.error is None && res.matches@.len() > 0 ==> final(tally).results@ == old(tally).results@.push(res)
            &&& res.error is Some || res.matches@.len() == 0 ==> final(tally).results@ == old(tally).results@
            &&& res.error matches Some(why) ==> final(tally).stats.errors@ == old(tally).stats.errors@.push((res.path, why))
            &&& res.error is None ==> final(tally).stats.errors@ == old(tally).stats.errors@
        },
        entry matches Some(e) ==> final(tally).new_entries@ == old(tally).new_entries@.push(e),
        entry is None ==> final(tally).new_entries@ == old(tally).new_entries@,
{
}

/// A search ends with its best results, in order and no more than the limit, and with the
/// statistics as they were counted.
pub proof fn law_end_of_a_search(
    engine: &mut SearchEngine,
    tally: Tally,
    r: (Vec<SearchResult>, SearchStats),
)
    requires
        old(engine).wf(),
        call_ensures(SearchEngine::search, (engine, tally), r),
    ensures
        ({
            let shown = r.0@;
            let limit = old(engine).config.limit;
            &&& r.1 == tally.stats
            &&& shown.len() == (if tally.results@.len() < limit {
                tally.results@.len()
            } else {
                limit as nat
            })
            &&& forall|i: int, j: int|
                0 <= i < j < shown.len() ==> (#[trigger] shown[i]).matches@.len() >= (
                #[trigger] shown[j]).matches@.len() && (shown[i].matches@.len()
                    == shown[j].matches@.len() ==> shown[i].confidence >= shown[j].confidence)
            &&& forall|x: SearchResult, k: int|
                #![trigger tally.results@.contains(x), shown[k]]
                tally.results@.contains(x) && !shown.contains(x) && 0 <= k < shown.len()
                    ==> shown[k].matches@.len() >= x.matches@.len()
        }),
        final(engine).config == old(engine).config,
        !old(engine).index_config.save_index ==> final(engine).index == old(engine).index,
{
    crate::laws::shown::law_most_matches_first(
        tally.results@,
        old(engine).config.limit as nat,
        r.0@,
    );
}

/// A search counts from zero, knows the number of its files once they are collected, and
/// moves on by one for each that is done.
pub proof fn law_counters(handle: &mut ProgressHandle, r: usize)
    requires
        old(handle).current < usize::MAX,
        call_ensures(ProgressHandle::advance, (handle,), r),
    ensures
        final(handle).current == old(handle).current + 1,
        final(handle).total == old(handle).total,
        r == final(handle).current,
{
}

/// A reset counter is at zero, and so is its total.
pub proof fn law_counters_start_at_zero(handle: &mut ProgressHandle)
    requires
        call_ensures(ProgressHandle::reset, (handle,), ()),
    ensures
        final(handle).current == 0,
        final(handle).total == 0,
{
}

/// A file is too large from one byte above 50 MiB on.
pub proof fn law_too_large(size: u64, r: bool)
    requires
        call_ensures(crate::search::is_oversized, (size,), r),
    ensures
        r <==> size > 50 * 1024 * 1024,
{
}

/// A file looks binary exactly if a zero byte is among the bytes that are looked at.
pub proof fn law_looks_binary(prefix: &[u8], r: bool)
    requires
        call_ensures(crate::search::looks_binary, (prefix,), r),
    ensures
        r <==> exists|i: int| 0 <= i < prefix@.len() && #[trigger] prefix@[i] == 0,
{
    if r {
        let i = choose|i: int| 0 <= i < prefix@.len() && prefix@[i] == 0u8;
        assert(prefix@[i] == 0);
    }
}

/// Only text, code and files of no known type have to be looked into before it is known
/// whether they are searched.
pub proof fn law_needs_probe(engine: SearchEngine, path: &str, r: bool)
    requires
        call_ensures(SearchEngine::needs_probe, (&engine, path), r),
    ensures
        ({
            let ext = match crate::paths::extension_of(path@) {
                Some(ext) => ext,
                None => Seq::<char>::empty(),
            };
            let t = crate::types::type_of_extension(
                crate::text::lower_of(crate::text::lower_of(ext)),
            );
            r <==> t != crate::types::FileType::Pdf && t != crate::types::FileType::Docx && t
                != crate::types::FileType::Image
        }),
{
}

} // verus!
