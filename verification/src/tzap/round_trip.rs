//! What creating and extracting an archive say of each other: an archive that
//! holds what was collected of a manifest is listed and extracted as the manifest
//! has it. That an archive holds what was handed to its writer is up to the writer
//! and the reader.
use crate::tzap::archive::{
    ArchiveEntry, TarEntryKind, TzapArchive, TzapListing, is_listing, listed_kind,
};
use crate::tzap::create::{
    CollectedView, ManifestEntry, ManifestFileType, SourceEntryKind, SourceScope, SourceView,
    collected,
};
use crate::tzap::error::{TzapError, TzapFault};
use crate::tzap::extract::{
    MemberAnswer, extracted, file_bytes, law_untroubled_extractions_write_everything, went_well,
};
use vstd::prelude::*;

verus! {

/// The kind that an entry has as a member of an archive.
pub open spec fn member_kind(kind: SourceEntryKind) -> TarEntryKind {
    match kind {
        SourceEntryKind::Regular => TarEntryKind::Regular,
        SourceEntryKind::Directory => TarEntryKind::Directory,
        SourceEntryKind::Symlink => TarEntryKind::Symlink,
    }
}

/// Whether a member is what was handed to the writer.
pub open spec fn is_member_of(member: ArchiveEntry, source: SourceView) -> bool {
    &&& member.path@ == source.archive_path
    &&& member.kind == member_kind(source.kind)
    &&& member.file_data_size == source.size
    &&& member.mode == source.mode
    &&& member.mtime == source.mtime.seconds
    &&& member.mtime_nanoseconds == source.mtime.nanoseconds
}

/// Whether the members of an archive are what was handed to the writer, in order.
pub open spec fn holds_sources(members: Seq<ArchiveEntry>, sources: Seq<SourceView>) -> bool {
    &&& members.len() == sources.len()
    &&& forall|k: int| 0 <= k < members.len() ==> is_member_of(#[trigger] members[k], sources[k])
}

/// How many of the first `n` entries of a manifest an archive takes.
pub open spec fn entries_taken(entries: Seq<ManifestEntry>, n: nat) -> nat
    decreases n,
{
    if n == 0 {
        0
    } else {
        entries_taken(entries, (n - 1) as nat) + (if entries[n - 1].file_type
            == ManifestFileType::Other {
            0nat
        } else {
            1nat
        })
    }
}

/// The bytes of the files among the first `n` entries of a manifest.
pub open spec fn manifest_bytes(entries: Seq<ManifestEntry>, n: nat) -> int
    decreases n,
{
    if n == 0 {
        0
    } else {
        manifest_bytes(entries, (n - 1) as nat) + (if entries[n - 1].file_type
            == ManifestFileType::File {
            entries[n - 1].size as int
        } else {
            0
        })
    }
}

/// The bytes of the files that are handed to the writer.
spec fn source_bytes(sources: Seq<SourceView>) -> int
    decreases sources.len(),
{
    if sources.len() == 0 {
        0
    } else {
        source_bytes(sources.drop_last()) + (if sources.last().kind == SourceEntryKind::Regular {
            sources.last().size as int
        } else {
            0
        })
    }
}

proof fn lemma_collected_bytes(
    entries: Seq<ManifestEntry>,
    preserve: bool,
    captured: Seq<Result<(), TzapError>>,
    cancelled_from: Option<usize>,
    n: nat,
)
    requires
        collected(entries, preserve, SourceScope::AllEntries, captured, cancelled_from, n) is Ok,
    ensures
        ({
            let c = collected(
                entries,
                preserve,
                SourceScope::AllEntries,
                captured,
                cancelled_from,
                n,
            )->Ok_0;
            &&& c.sources.len() == entries_taken(entries, n)
            &&& source_bytes(c.sources) == manifest_bytes(entries, n)
        }),
    decreases n,
{
    if n > 0 {
        let before = collected(
            entries,
            preserve,
            SourceScope::AllEntries,
            captured,
            cancelled_from,
            (n - 1) as nat,
        )->Ok_0;
        let after = collected(
            entries,
            preserve,
            SourceScope::AllEntries,
            captured,
            cancelled_from,
            n,
        )->Ok_0;
        lemma_collected_bytes(entries, preserve, captured, cancelled_from, (n - 1) as nat);
        if entries[n - 1].file_type != ManifestFileType::Other {
            assert(after.sources.drop_last() =~= before.sources);
        }
    }
}

proof fn lemma_member_bytes(members: Seq<ArchiveEntry>, sources: Seq<SourceView>, n: nat)
    requires
        holds_sources(members, sources),
        n <= members.len(),
    ensures
        file_bytes(members, n) == source_bytes(sources.take(n as int)),
    decreases n,
{
    if n > 0 {
        lemma_member_bytes(members, sources, (n - 1) as nat);
        assert(sources.take(n as int).drop_last() =~= sources.take(n - 1));
        assert(is_member_of(members[n - 1], sources[n - 1]));
    }
}

/// An archive that holds what was collected of a manifest gives all of it back: where
/// nothing stands in the way, every entry that the archive took is written, the
/// bytes of every file of the manifest are counted, and nothing is skipped.
pub proof fn law_archived_manifests_are_extracted_whole(
    entries: Seq<ManifestEntry>,
    preserve: bool,
    captured: Seq<Result<(), TzapError>>,
    cancelled_from: Option<usize>,
    collection: CollectedView,
    members: Seq<ArchiveEntry>,
    answers: Seq<MemberAnswer>,
)
    requires
        collected(
            entries,
            preserve,
            SourceScope::AllEntries,
            captured,
            cancelled_from,
            entries.len(),
        ) == Ok::<CollectedView, TzapFault>(collection),
        holds_sources(members, collection.sources),
        forall|k: int| 0 <= k < members.len() ==> went_well(#[trigger] members[k], answers[k]),
    ensures
        extracted(members, answers, members.len()) matches Ok(p) && p.report.written_entries
            == entries_taken(entries, entries.len()) && p.report.written_bytes == manifest_bytes(
            entries,
            entries.len(),
        ) && p.report.skipped_entries == 0 && p.report.warnings.len() == 0,
{
    law_untroubled_extractions_write_everything(members, answers);
    lemma_collected_bytes(entries, preserve, captured, cancelled_from, entries.len());
    lemma_member_bytes(members, collection.sources, members.len());
    assert(collection.sources.take(members.len() as int) =~= collection.sources);
}

/// An archive that holds what was collected of a manifest is listed as the manifest
/// has it: one entry for each that was collected, in order, with its path, its kind,
/// its size, its permission bits and its time.
pub proof fn law_archived_manifests_are_listed_whole(
    entries: Seq<ManifestEntry>,
    preserve: bool,
    captured: Seq<Result<(), TzapError>>,
    cancelled_from: Option<usize>,
    collection: CollectedView,
    archive: TzapArchive,
    members: Seq<ArchiveEntry>,
    listing: Result<TzapListing, TzapError>,
)
    requires
        collected(
            entries,
            preserve,
            SourceScope::AllEntries,
            captured,
            cancelled_from,
            entries.len(),
        ) == Ok::<CollectedView, TzapFault>(collection),
        archive.files matches Ok(files) && files@ == members,
        holds_sources(members, collection.sources),
        is_listing(listing, Ok(archive)),
    ensures
        listing matches Ok(listed) && listed.entries@.len() == entries_taken(entries, entries.len())
            && forall|k: int|
            0 <= k < listed.entries@.len() ==> {
                let source = collection.sources[k];
                let entry = #[trigger] listed.entries@[k];
                &&& entry.path@ == source.archive_path
                &&& entry.kind == listed_kind(member_kind(source.kind))
                &&& entry.size == source.size
                &&& entry.mode == source.mode
                &&& entry.mtime == source.mtime.seconds
                &&& entry.mtime_nanoseconds == source.mtime.nanoseconds
            },
{
    lemma_collected_bytes(entries, preserve, captured, cancelled_from, entries.len());
}

} // verus!
