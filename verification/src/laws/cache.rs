//! The index: which entry a file has, and when it is used.

use crate::index::{FileMeta, Index, IndexEntry, IndexRead};
use crate::search::SearchEngine;
use crate::types::{IndexConfig, SearchConfig};
use vstd::prelude::*;

verus! {

/// A path has the entry that the index lists for it, however the path is written, and
/// has none if the index lists none.
pub proof fn law_entry_of_a_path(index: Index, path: Seq<char>)
    requires
        index.wf(),
    ensures
        forall|i: int|
            0 <= i < index.entries@.len() && crate::paths::components_of(
                (#[trigger] index.entries@[i]).0@,
            ) == crate::paths::components_of(path) ==> index.entry_for(path) == Some(
                index.entries@[i].1,
            ),
        index.entry_for(path) matches Some(entry) ==> exists|i: int|
            0 <= i < index.entries@.len() && crate::paths::components_of(
                (#[trigger] index.entries@[i]).0@,
            ) == crate::paths::components_of(path) && index.entries@[i].1 == entry,
{
    let key = crate::paths::key_of(path);
    assert forall|i: int|
        0 <= i < index.entries@.len() && crate::paths::components_of(
            (#[trigger] index.entries@[i]).0@,
        ) == crate::paths::components_of(path) implies index.entry_for(path) == Some(
        index.entries@[i].1,
    ) by {
        crate::paths::law_key_identifies_path(index.entries@[i].0@, path);
        assert(index.slots@[crate::paths::key_of(index.entries@[i].0@)] == i);
    }
    if index.entry_for(path) is Some {
        let at = index.slots@[key] as int;
        crate::paths::law_key_identifies_path(index.entries@[at].0@, path);
        assert(index.entries@[at].1 == index.entry_for(path)->0);
    }
}

/// The entry of a file is used exactly if the file is there and has the time and the
/// size that the entry noted.
pub proof fn law_when_an_entry_is_used(index: Index, path: Seq<char>, meta: Option<FileMeta>)
    ensures
        match (index.entry_for(path), meta) {
            (Some(entry), Some(m)) => {
                &&& entry.modified_timestamp == m.modified && entry.file_size == m.size
                    ==> index.valid_entry_for(path, meta) == Some(entry)
                &&& entry.modified_timestamp != m.modified || entry.file_size != m.size
                    ==> index.valid_entry_for(path, meta) is None
            },
            _ => index.valid_entry_for(path, meta) is None,
        },
        forall|entry: IndexEntry, modified: u64, size: u64| #[trigger]
            entry.stale(modified, size) <==> entry.modified_timestamp != modified
                || entry.file_size != size,
{
}

/// Of the entries that are listed for a path the last one counts, and a path that is
/// not listed has none.
pub proof fn law_last_listed_entry_counts(
    listed: Seq<(String, IndexEntry)>,
    path: Seq<char>,
    i: int,
)
    ensures
        ({
            let map = crate::index::collected(listed);
            let key = crate::paths::key_of(path);
            &&& 0 <= i < listed.len() && crate::paths::components_of(listed[i].0@)
                == crate::paths::components_of(path) && (forall|j: int|
                i < j < listed.len() ==> crate::paths::components_of((#[trigger] listed[j]).0@)
                    != crate::paths::components_of(path)) ==> map.contains_key(key) && map[key]
                == listed[i].1
            &&& (forall|j: int|
                0 <= j < listed.len() ==> crate::paths::components_of((#[trigger] listed[j]).0@)
                    != crate::paths::components_of(path)) ==> !map.contains_key(key)
        }),
    decreases listed.len(),
{
    if listed.len() > 0 {
        let init = listed.drop_last();
        let last = listed.len() - 1;
        law_last_listed_entry_counts(init, path, i);
        crate::paths::law_key_identifies_path(listed[last].0@, path);
        assert(forall|j: int| 0 <= j < last ==> init[j] == #[trigger] listed[j]);
        if 0 <= i < last && crate::paths::components_of(listed[last].0@)
            == crate::paths::components_of(path) {
            assert(i < last < listed.len());
        }
    }
}

/// When the files that are gone are taken out, the entry of a file stays exactly if
/// the file is there, and stays as it was.
pub proof fn law_entries_of_missing_files_go(index: Index, present: Seq<bool>, after: Index, i: int)
    requires
        index.wf(),
        present.len() == index.entries@.len(),
        after.map() == index.map().restrict(index.keys_where(present)),
        0 <= i < present.len(),
    ensures
        present[i] ==> after.entry_for(index.entries@[i].0@) == Some(index.entries@[i].1),
        !present[i] ==> after.entry_for(index.entries@[i].0@) is None,
        forall|path: Seq<char>|
            index.entry_for(path) is None ==> #[trigger] after.entry_for(path) is None,
{
    let key = crate::paths::key_of(index.entries@[i].0@);
    assert(index.slots@[key] == i);
    assert(index.map().contains_key(key));
}

/// An engine keeps the configuration that it is made with. It searches for the
/// expression that the query is compiled to, or for the query itself. It has an index
/// only if one is to be used or saved: the one that was read, if that is of the
/// version of the program, or else an empty one where it is to be saved.
pub proof fn law_what_an_engine_is_made_of(
    engine: SearchEngine,
    config: SearchConfig,
    index_config: IndexConfig,
    read: IndexRead,
    now: u64,
)
    requires
        engine.made_from(config, index_config, read, now),
    ensures
        engine.config == config,
        engine.index_config == index_config,
        config.use_regex ==> engine.pattern == crate::matching::SearchPattern::Regex(
            crate::matching::compiled(config.pattern@, !config.case_sensitive, true),
        ),
        !config.use_regex ==> (engine.pattern matches crate::matching::SearchPattern::Literal(p)
            && p.pattern() == config.pattern@),
        !index_config.use_index && !index_config.save_index ==> engine.index is None,
        index_config.use_index || index_config.save_index ==> {
            &&& read is Parsed && read->Parsed_0.version == 1 ==> engine.index
                == Some(read->Parsed_0)
            &&& !(read is Parsed && read->Parsed_0.version == 1) ==> {
                &&& !index_config.save_index ==> engine.index is None
                &&& index_config.save_index ==> {
                    &&& engine.index is Some
                    &&& engine.index->0.version == 1
                    &&& engine.index->0.directory@ == config.directory@
                    &&& engine.index->0.created_at == now
                    &&& engine.index->0.updated_at == now
                    &&& forall|path: Seq<char>| #[trigger]
                        engine.index->0.entry_for(path) is None
                }
            }
        },
{
}

/// A search changes nothing of an engine but the entries of its index, and those only
/// where the index is to be saved.
pub proof fn law_what_a_search_changes(
    before: SearchEngine,
    new_entries: Seq<IndexEntry>,
    after: SearchEngine,
)
    requires
        after.updated_from(before, new_entries),
    ensures
        after.config == before.config,
        after.index_config == before.index_config,
        after.pattern == before.pattern,
        after.quiet == before.quiet,
        !before.index_config.save_index ==> after.index == before.index,
        before.index is None <==> after.index is None,
        before.index is Some ==> {
            &&& after.index->0.version == before.index->0.version
            &&& after.index->0.directory == before.index->0.directory
            &&& after.index->0.created_at == before.index->0.created_at
            &&& after.index->0.updated_at == before.index->0.updated_at
        },
{
}

/// Where the index is to be saved, the last entry that a search left for a file is its
/// entry; a file that it left none for keeps the entry that it had.
pub proof fn law_what_a_search_leaves(
    before: SearchEngine,
    new_entries: Seq<IndexEntry>,
    after: SearchEngine,
    path: Seq<char>,
    k: int,
)
    requires
        after.updated_from(before, new_entries),
        before.index is Some,
        before.index_config.save_index,
        -1 <= k < new_entries.len(),
        k >= 0 ==> crate::paths::components_of(new_entries[k].path@)
            == crate::paths::components_of(path),
        forall|j: int|
            k < j < new_entries.len() ==> crate::paths::components_of(
                (#[trigger] new_entries[j]).path@,
            ) != crate::paths::components_of(path),
    ensures
        after.index is Some,
        k >= 0 ==> after.index->0.entry_for(path) == Some(new_entries[k]),
        k < 0 ==> after.index->0.entry_for(path) == before.index->0.entry_for(path),
{
    lemma_upserted(before.index->0.map(), new_entries, path, k);
}

proof fn lemma_upserted(
    entries: Map<Seq<char>, IndexEntry>,
    new_entries: Seq<IndexEntry>,
    path: Seq<char>,
    k: int,
)
    requires
        -1 <= k < new_entries.len(),
        k >= 0 ==> crate::paths::components_of(new_entries[k].path@)
            == crate::paths::components_of(path),
        forall|j: int|
            k < j < new_entries.len() ==> crate::paths::components_of(
                (#[trigger] new_entries[j]).path@,
            ) != crate::paths::components_of(path),
    ensures
        ({
            let map = crate::search::upserted(entries, new_entries);
            let key = crate::paths::key_of(path);
            &&& k >= 0 ==> map.contains_key(key) && map[key] == new_entries[k]
            &&& k < 0 ==> map.contains_key(key) == entries.contains_key(key) && (map.contains_key(
                key,
            ) ==> map[key] == entries[key])
        }),
    decreases new_entries.len(),
{
    if new_entries.len() > 0 {
        let init = new_entries.drop_last();
        let last = new_entries.len() - 1;
        crate::paths::law_key_identifies_path(new_entries[last].path@, path);
        if k < last {
            assert forall|j: int| k < j < init.len() implies crate::paths::components_of(
                (#[trigger] init[j]).path@,
            ) != crate::paths::components_of(path) by {
                assert(init[j] == new_entries[j]);
            }
            assert(crate::paths::components_of(new_entries[last].path@)
                != crate::paths::components_of(path));
            lemma_upserted(entries, init, path, k);
        }
    }
}

} // verus!
