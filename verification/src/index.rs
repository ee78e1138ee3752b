//! The raw index: the files under the active roots whose extension is allowed,
//! newest first.
//!
//! Walking the roots is the caller's part. It hands over what it saw as
//! `ScannedEntry` values; which of them are indexed, and in what sequence, is
//! decided here.

use crate::order::{
    arrange, descending_order, is_descending_order, is_nonincreasing, lemma_arrange_identity,
    lemma_arranged_holds_all, lemma_descending_order_ranks, lemma_order_of_nonincreasing,
    precedes, rank_descending,
};
use vstd::prelude::*;

verus! {

/// One indexed file: a snapshot taken when the index was rebuilt.
#[derive(Debug)]
pub struct FileEntry {
    /// Full path, by which the file is identified.
    pub path: String,
    /// Last component of the path, against which a filter is matched.
    pub name: String,
    /// Creation time, in nanoseconds since the Unix epoch.
    pub created_at: u64,
    /// Extension of the file name, without the dot.
    pub extension: String,
}

/// What a walk of the roots saw of one directory entry.
#[derive(Debug)]
pub struct ScannedEntry {
    pub path: String,
    pub name: String,
    /// Whether the entry is a regular file.
    pub is_file: bool,
    /// The extension of the file name, where it has one.
    pub extension: Option<String>,
    /// The creation time, where the entry's metadata could be read.
    pub created_at: Option<u64>,
}

impl Clone for FileEntry {
    fn clone(&self) -> (copy: Self)
        ensures
            copy == *self,
    {
        FileEntry {
            path: self.path.clone(),
            name: self.name.clone(),
            created_at: self.created_at,
            extension: self.extension.clone(),
        }
    }
}

/// Whether `extension` is one of `extensions`.
pub open spec fn allows(extensions: Seq<String>, extension: Seq<char>) -> bool {
    exists|i: int| 0 <= i < extensions.len() && (#[trigger] extensions[i])@ == extension
}

/// The index entry that a scanned entry gives: one for a regular file with an
/// allowed extension and a readable creation time, and none otherwise.
pub open spec fn index_entry(entry: ScannedEntry, extensions: Seq<String>) -> Option<FileEntry> {
    if entry.is_file && entry.extension is Some && entry.created_at is Some && allows(
        extensions,
        entry.extension->0@,
    ) {
        Some(
            FileEntry {
                path: entry.path,
                name: entry.name,
                created_at: entry.created_at->0,
                extension: entry.extension->0,
            },
        )
    } else {
        None
    }
}

/// The scanned entries that are indexed, in the sequence of the scan.
pub open spec fn indexed(scanned: Seq<ScannedEntry>, extensions: Seq<String>) -> Seq<FileEntry> {
    scanned.filter_map(|entry: ScannedEntry| index_entry(entry, extensions))
}

/// The creation times of the entries, as ranking keys.
pub open spec fn creation_keys(entries: Seq<FileEntry>) -> Seq<i128> {
    Seq::new(entries.len(), |i: int| entries[i].created_at as i128)
}

/// The raw index of a scan: the indexed entries, newest first, entries of
/// equal age in the sequence of the scan.
pub open spec fn raw_index(scanned: Seq<ScannedEntry>, extensions: Seq<String>) -> Seq<FileEntry> {
    let kept = indexed(scanned, extensions);
    arrange(kept, descending_order(creation_keys(kept)))
}

/// Whether the entries are in descending sequence of creation time.
pub open spec fn newest_first(entries: Seq<FileEntry>) -> bool {
    forall|i: int, j: int|
        0 <= i < j < entries.len() ==> entries[i].created_at >= entries[j].created_at
}

/// Whether every entry has an allowed extension.
pub open spec fn all_allowed(entries: Seq<FileEntry>, extensions: Seq<String>) -> bool {
    forall|i: int| 0 <= i < entries.len() ==> allows(extensions, (#[trigger] entries[i]).extension@)
}

/// An index entry seen again by a scan that finds it unchanged.
pub open spec fn rescanned(entry: FileEntry) -> ScannedEntry {
    ScannedEntry {
        path: entry.path,
        name: entry.name,
        is_file: true,
        extension: Some(entry.extension),
        created_at: Some(entry.created_at),
    }
}

/// Tells whether `extension` is in the allow-list.
pub fn is_allowed(extensions: &Vec<String>, extension: &String) -> (found: bool)
    ensures
        found == allows(extensions@, extension@),
{
    let mut i: usize = 0;
    while i < extensions.len()
        invariant
            i <= extensions.len(),
            forall|k: int| 0 <= k < i ==> (#[trigger] extensions@[k])@ != extension@,
        decreases extensions.len() - i,
    {
        if extensions[i] == *extension {
            return true;
        }
        i += 1;
    }
    false
}

/// Picks the entries of a scan that belong in the index, in the sequence of the scan.
pub fn select_indexed(scanned: &Vec<ScannedEntry>, extensions: &Vec<String>) -> (kept: Vec<
    FileEntry,
>)
    ensures
        kept@ == indexed(scanned@, extensions@),
        all_allowed(kept@, extensions@),
{
    let mut kept: Vec<FileEntry> = Vec::new();
    let mut i: usize = 0;
    let ghost keep = |entry: ScannedEntry| index_entry(entry, extensions@);
    proof {
        assert(scanned@.take(0).filter_map(keep) =~= Seq::<FileEntry>::empty());
    }
    while i < scanned.len()
        invariant
            i <= scanned.len(),
            keep == |entry: ScannedEntry| index_entry(entry, extensions@),
            kept@ == scanned@.take(i as int).filter_map(keep),
            all_allowed(kept@, extensions@),
        decreases scanned.len() - i,
    {
        proof {
            scanned@.lemma_filter_map_take_succ(keep, i as int);
        }
        let entry = &scanned[i];
        if entry.is_file {
            match (&entry.extension, entry.created_at) {
                (Some(extension), Some(created_at)) => {
                    if is_allowed(extensions, extension) {
                        kept.push(
                            FileEntry {
                                path: entry.path.clone(),
                                name: entry.name.clone(),
                                created_at,
                                extension: extension.clone(),
                            },
                        );
                    }
                },
                _ => {},
            }
        }
        i += 1;
    }
    proof {
        assert(scanned@.take(scanned.len() as int) =~= scanned@);
    }
    kept
}

/// Puts the entries newest first; entries of equal age keep their sequence.
pub fn sort_newest_first(entries: &Vec<FileEntry>) -> (sorted: Vec<FileEntry>)
    ensures
        sorted@ == arrange(entries@, descending_order(creation_keys(entries@))),
        newest_first(sorted@),
{
    let mut keys: Vec<i128> = Vec::new();
    let mut i: usize = 0;
    while i < entries.len()
        invariant
            i <= entries.len(),
            keys@ == creation_keys(entries@).take(i as int),
        decreases entries.len() - i,
    {
        keys.push(entries[i].created_at as i128);
        proof {
            assert(keys@ =~= creation_keys(entries@).take(i + 1));
        }
        i += 1;
    }
    proof {
        assert(keys@ =~= creation_keys(entries@));
    }
    let order = rank_descending(&keys);
    let mut sorted: Vec<FileEntry> = Vec::new();
    let mut k: usize = 0;
    while k < order.len()
        invariant
            k <= order.len(),
            is_descending_order(keys@, order@),
            keys@ == creation_keys(entries@),
            sorted@ == arrange(entries@, order@).take(k as int),
        decreases order.len() - k,
    {
        sorted.push(entries[order[k]].clone());
        proof {
            assert(sorted@ =~= arrange(entries@, order@).take(k + 1));
        }
        k += 1;
    }
    proof {
        assert(sorted@ =~= arrange(entries@, order@));
        lemma_ranked_newest_first(entries@);
    }
    sorted
}

/// Builds the raw index from a scan of the active roots.
///
/// An entry is indexed when it is a regular file, its extension is in
/// `extensions` and its creation time could be read; the others are passed over.
/// The index lists the newest file first, and files of equal age in the
/// sequence in which the scan saw them.
pub fn rebuild(scanned: &Vec<ScannedEntry>, extensions: &Vec<String>) -> (index: Vec<FileEntry>)
    ensures
        index@ == raw_index(scanned@, extensions@),
        all_allowed(index@, extensions@),
        newest_first(index@),
{
    let kept = select_indexed(scanned, extensions);
    let index = sort_newest_first(&kept);
    proof {
        assert(kept@.len() == kept.len());
        lemma_ranked_all_allowed(kept@, extensions@);
    }
    index
}

/// Entries ranked by creation time come out newest first.
pub proof fn lemma_ranked_newest_first(entries: Seq<FileEntry>)
    requires
        entries.len() <= usize::MAX,
    ensures
        newest_first(arrange(entries, descending_order(creation_keys(entries)))),
{
    let keys = creation_keys(entries);
    let order = descending_order(keys);
    lemma_descending_order_ranks(keys);
    let ranked = arrange(entries, order);
    assert forall|i: int, j: int| 0 <= i < j < ranked.len() implies ranked[i].created_at
        >= ranked[j].created_at by {
        assert(precedes(keys, order[i] as int, order[j] as int));
    }
}

/// Ranking keeps every entry's extension allowed.
pub proof fn lemma_ranked_all_allowed(entries: Seq<FileEntry>, extensions: Seq<String>)
    requires
        entries.len() <= usize::MAX,
        all_allowed(entries, extensions),
    ensures
        all_allowed(arrange(entries, descending_order(creation_keys(entries))), extensions),
{
    let keys = creation_keys(entries);
    let order = descending_order(keys);
    lemma_descending_order_ranks(keys);
    let ranked = arrange(entries, order);
    assert forall|i: int| 0 <= i < ranked.len() implies allows(
        extensions,
        (#[trigger] ranked[i]).extension@,
    ) by {
        assert(ranked[i] == entries[order[i] as int]);
    }
}

/// Every indexed entry has an allowed extension.
pub proof fn lemma_indexed_all_allowed(scanned: Seq<ScannedEntry>, extensions: Seq<String>)
    ensures
        all_allowed(indexed(scanned, extensions), extensions),
        indexed(scanned, extensions).len() <= scanned.len(),
    decreases scanned.len(),
{
    let keep = |entry: ScannedEntry| index_entry(entry, extensions);
    if scanned.len() > 0 {
        lemma_indexed_all_allowed(scanned.drop_last(), extensions);
        let rest = scanned.drop_last().filter_map(keep);
        assert(indexed(scanned.drop_last(), extensions) == rest);
        let kept = indexed(scanned, extensions);
        assert forall|i: int| 0 <= i < kept.len() implies allows(
            extensions,
            (#[trigger] kept[i]).extension@,
        ) by {
            if i < rest.len() {
                assert(kept[i] == rest[i]);
            }
        }
    }
}

/// Every rebuild gives entries whose extensions are in the allow-list, sorted
/// by creation time, newest first.
pub proof fn lemma_raw_index_allowed_and_sorted(
    scanned: Seq<ScannedEntry>,
    extensions: Seq<String>,
)
    requires
        scanned.len() <= usize::MAX,
    ensures
        all_allowed(raw_index(scanned, extensions), extensions),
        newest_first(raw_index(scanned, extensions)),
{
    lemma_indexed_all_allowed(scanned, extensions);
    let kept = indexed(scanned, extensions);
    lemma_ranked_all_allowed(kept, extensions);
    lemma_ranked_newest_first(kept);
}

/// The raw index holds every entry that the scan gives, and as many entries
/// as the scan gives.
pub proof fn lemma_raw_index_holds_indexed(
    scanned: Seq<ScannedEntry>,
    extensions: Seq<String>,
    at: int,
)
    requires
        scanned.len() <= usize::MAX,
        0 <= at < indexed(scanned, extensions).len(),
    ensures
        raw_index(scanned, extensions).len() == indexed(scanned, extensions).len(),
        raw_index(scanned, extensions).contains(indexed(scanned, extensions)[at]),
{
    lemma_indexed_all_allowed(scanned, extensions);
    let kept = indexed(scanned, extensions);
    lemma_arranged_holds_all(kept, creation_keys(kept), at);
}

/// A scan that finds exactly the entries of an index selects them all.
pub proof fn lemma_indexed_of_rescanned(entries: Seq<FileEntry>, extensions: Seq<String>)
    requires
        all_allowed(entries, extensions),
    ensures
        indexed(entries.map_values(|entry: FileEntry| rescanned(entry)), extensions) == entries,
    decreases entries.len(),
{
    let keep = |entry: ScannedEntry| index_entry(entry, extensions);
    let again = entries.map_values(|entry: FileEntry| rescanned(entry));
    if entries.len() == 0 {
        assert(again.filter_map(keep) =~= entries);
    } else {
        lemma_indexed_of_rescanned(entries.drop_last(), extensions);
        assert(again.drop_last() =~= entries.drop_last().map_values(
            |entry: FileEntry| rescanned(entry),
        ));
        assert(allows(extensions, entries.last().extension@));
        assert(index_entry(again.last(), extensions) == Some(entries.last()));
        assert(again.filter_map(keep) =~= entries);
    }
}

/// Rebuilding is repeatable: two rebuilds of one scan give the same index,
/// entry for entry, and a rebuild from a scan that finds exactly the files
/// of an index gives that index again.
pub proof fn lemma_rebuild_idempotent(
    scanned: Seq<ScannedEntry>,
    extensions: Seq<String>,
    first: Seq<FileEntry>,
    second: Seq<FileEntry>,
)
    requires
        scanned.len() <= usize::MAX,
        first == raw_index(scanned, extensions),
        second == raw_index(scanned, extensions),
    ensures
        first == second,
        raw_index(first.map_values(|entry: FileEntry| rescanned(entry)), extensions) == first,
{
    lemma_raw_index_allowed_and_sorted(scanned, extensions);
    lemma_indexed_all_allowed(scanned, extensions);
    lemma_indexed_of_rescanned(first, extensions);
    lemma_descending_order_ranks(creation_keys(indexed(scanned, extensions)));
    let keys = creation_keys(first);
    assert(is_nonincreasing(keys));
    lemma_order_of_nonincreasing(keys, keys.len());
    lemma_arrange_identity(first);
}

} // verus!
