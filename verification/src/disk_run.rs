//! Listing, testing, copying from and extracting disk and disc images.
use crate::failure::{IoFailure, IoKind};
#[allow(unused_imports)]
use crate::failure::IoFailureView;
use crate::disk_mount::{ImageProbe, image_entries, open_and_collect};
use crate::report::{TestOptions, TestReport, stream_views};
use crate::text::{concat2, concat3, concat5, decimal, decimal_text, same_text};
use crate::virtual_disk::{
    CollectedEntries, CollectedView, DiskFault, EntryKindView, EntryView, ExtractionEntry,
    ExtractionEntryKind, ListEntryView, VirtualDiskBackendError, VirtualDiskEntryKind,
    VirtualDiskListEntry, entry_views, WalkedView, collected, first_component,
    is_ntfs_metadata_name, node_path,
};
use vstd::prelude::*;

verus! {

/// How an entry is listed.
pub open spec fn listed_entry(e: EntryView) -> ListEntryView {
    ListEntryView {
        path: e.archive_path,
        kind: match e.kind {
            EntryKindView::Directory => VirtualDiskEntryKind::Directory,
            EntryKindView::Symlink(_) => VirtualDiskEntryKind::Symlink,
            EntryKindView::File => VirtualDiskEntryKind::File,
            EntryKindView::Device => VirtualDiskEntryKind::File,
        },
        size: match e.uncompressed_size {
            Some(size) => size,
            None => 0,
        },
        link_target: match e.kind {
            EntryKindView::Symlink(target) => Some(target),
            _ => None,
        },
    }
}

/// The listing of a list of entries.
pub open spec fn listed(entries: Seq<EntryView>) -> Seq<ListEntryView> {
    entries.map_values(|e: EntryView| listed_entry(e))
}

/// The listing of an image, or why there is none.
pub open spec fn listing_of(image: ImageProbe, allow_logical: bool) -> Result<
    Seq<ListEntryView>,
    DiskFault,
> {
    match image_entries(image, allow_logical) {
        Ok(c) => Ok(listed(c.entries)),
        Err(fault) => Err(fault),
    }
}

/// The views of a listing.
pub open spec fn list_views(listing: Seq<VirtualDiskListEntry>) -> Seq<ListEntryView> {
    listing.map_values(|e: VirtualDiskListEntry| e@)
}

/// A listing, or an error, with its texts taken as sequences.
pub open spec fn listing_view(
    r: Result<Vec<VirtualDiskListEntry>, VirtualDiskBackendError>,
) -> Result<Seq<ListEntryView>, DiskFault> {
    match r {
        Ok(listing) => Ok(list_views(listing@)),
        Err(error) => Err(error@),
    }
}

/// How an entry is listed.
fn list_entry(entry: &ExtractionEntry) -> (listed: VirtualDiskListEntry)
    ensures
        listed@ == listed_entry(entry@),
{
    let size: u64 = match entry.uncompressed_size {
        Some(size) => size,
        None => 0,
    };
    let path: String = entry.archive_path.clone();
    match &entry.kind {
        ExtractionEntryKind::Directory => VirtualDiskListEntry {
            path,
            kind: VirtualDiskEntryKind::Directory,
            size,
            link_target: None,
        },
        ExtractionEntryKind::Symlink { target } => VirtualDiskListEntry {
            path,
            kind: VirtualDiskEntryKind::Symlink,
            size,
            link_target: Some(target.clone()),
        },
        ExtractionEntryKind::File => VirtualDiskListEntry {
            path,
            kind: VirtualDiskEntryKind::File,
            size,
            link_target: None,
        },
        ExtractionEntryKind::Device => VirtualDiskListEntry {
            path,
            kind: VirtualDiskEntryKind::File,
            size,
            link_target: None,
        },
    }
}

/// Lists the entries of an image. With `allow_logical` clear the logical
/// containers are refused.
pub fn list_container_inner(image: &ImageProbe, allow_logical: bool) -> (listing: Result<
    Vec<VirtualDiskListEntry>,
    VirtualDiskBackendError,
>)
    ensures
        listing_view(listing) == listing_of(*image, allow_logical),
{
    let found: CollectedEntries = match open_and_collect(image, allow_logical) {
        Ok(found) => found,
        Err(error) => {
            return Err(error);
        },
    };
    let ghost spec = listed(entry_views(found.entries@));
    let mut listing: Vec<VirtualDiskListEntry> = Vec::new();
    let mut i: usize = 0;
    while i < found.entries.len()
        invariant
            spec == listed(entry_views(found.entries@)),
            i <= found.entries@.len(),
            list_views(listing@) == spec.take(i as int),
        decreases found.entries@.len() - i,
    {
        let ghost before = listing@;
        listing.push(list_entry(&found.entries[i]));
        proof {
            assert(entry_views(found.entries@)[i as int] == found.entries@[i as int]@);
            assert(list_views(listing@) =~= list_views(before).push(listing@.last()@));
            assert(spec.take(i + 1) =~= spec.take(i as int).push(spec[i as int]));
        }
        i = i + 1;
    }
    assert(spec.take(spec.len() as int) == spec);
    Ok(listing)
}

/// Lists the entries of a `.vhd` archive without extracting them.
pub fn list_vhd(image: &ImageProbe) -> (listing: Result<
    Vec<VirtualDiskListEntry>,
    VirtualDiskBackendError,
>)
    ensures
        listing_view(listing) == listing_of(*image, false),
{
    list_container_inner(image, false)
}

/// Lists the entries of a `.vmdk` archive without extracting them.
pub fn list_vmdk(image: &ImageProbe) -> (listing: Result<
    Vec<VirtualDiskListEntry>,
    VirtualDiskBackendError,
>)
    ensures
        listing_view(listing) == listing_of(*image, false),
{
    list_container_inner(image, false)
}

/// Lists the entries of a `.udf` archive without extracting them.
pub fn list_udf(image: &ImageProbe) -> (listing: Result<
    Vec<VirtualDiskListEntry>,
    VirtualDiskBackendError,
>)
    ensures
        listing_view(listing) == listing_of(*image, false),
{
    list_container_inner(image, false)
}

/// Lists the entries of an Oracle `VirtualBox` `.vdi` image without extracting them.
pub fn list_vdi(image: &ImageProbe) -> (listing: Result<
    Vec<VirtualDiskListEntry>,
    VirtualDiskBackendError,
>)
    ensures
        listing_view(listing) == listing_of(*image, false),
{
    list_container_inner(image, false)
}

/// Lists the entries of a Nero `.nrg` image without extracting them.
pub fn list_nrg(image: &ImageProbe) -> (listing: Result<
    Vec<VirtualDiskListEntry>,
    VirtualDiskBackendError,
>)
    ensures
        listing_view(listing) == listing_of(*image, false),
{
    list_container_inner(image, false)
}

/// Lists the entries of an Alcohol 120% `.mdf`/`.mds` image without extracting them.
pub fn list_mdf(image: &ImageProbe) -> (listing: Result<
    Vec<VirtualDiskListEntry>,
    VirtualDiskBackendError,
>)
    ensures
        listing_view(listing) == listing_of(*image, false),
{
    list_container_inner(image, false)
}

/// Lists the entries of an `UltraISO` compressed `.isz` image without extracting them.
pub fn list_isz(image: &ImageProbe) -> (listing: Result<
    Vec<VirtualDiskListEntry>,
    VirtualDiskBackendError,
>)
    ensures
        listing_view(listing) == listing_of(*image, false),
{
    list_container_inner(image, false)
}

/// Lists the entries of a `CloneCD` `.ccd`/`.img` image without extracting them.
pub fn list_ccd(image: &ImageProbe) -> (listing: Result<
    Vec<VirtualDiskListEntry>,
    VirtualDiskBackendError,
>)
    ensures
        listing_view(listing) == listing_of(*image, false),
{
    list_container_inner(image, false)
}

/// Lists the entries of a `CUE/BIN` sheet without extracting them.
pub fn list_cue(image: &ImageProbe) -> (listing: Result<
    Vec<VirtualDiskListEntry>,
    VirtualDiskBackendError,
>)
    ensures
        listing_view(listing) == listing_of(*image, false),
{
    list_container_inner(image, false)
}

/// Lists the entries of a `.vhdx` virtual disk without extracting them.
pub fn list_vhdx(image: &ImageProbe) -> (listing: Result<
    Vec<VirtualDiskListEntry>,
    VirtualDiskBackendError,
>)
    ensures
        listing_view(listing) == listing_of(*image, false),
{
    list_container_inner(image, false)
}

/// Lists the entries of a `.qcow2` virtual disk without extracting them.
pub fn list_qcow2(image: &ImageProbe) -> (listing: Result<
    Vec<VirtualDiskListEntry>,
    VirtualDiskBackendError,
>)
    ensures
        listing_view(listing) == listing_of(*image, false),
{
    list_container_inner(image, false)
}

/// Lists the entries of an Expert Witness (`.e01`/`.ex01`) image without extracting them.
pub fn list_ewf(image: &ImageProbe) -> (listing: Result<
    Vec<VirtualDiskListEntry>,
    VirtualDiskBackendError,
>)
    ensures
        listing_view(listing) == listing_of(*image, false),
{
    list_container_inner(image, false)
}

/// Lists the entries of an `AccessData` AD1 (`.ad1`) logical image without extracting them.
pub fn list_ad1(image: &ImageProbe) -> (listing: Result<
    Vec<VirtualDiskListEntry>,
    VirtualDiskBackendError,
>)
    ensures
        listing_view(listing) == listing_of(*image, true),
{
    list_container_inner(image, true)
}

/// Lists the entries of a DAR (`.dar`) archive without extracting them.
pub fn list_dar(image: &ImageProbe) -> (listing: Result<
    Vec<VirtualDiskListEntry>,
    VirtualDiskBackendError,
>)
    ensures
        listing_view(listing) == listing_of(*image, true),
{
    list_container_inner(image, true)
}

/// Lists the entries of an AFF4 (`.aff4`) container without extracting them.
pub fn list_aff4(image: &ImageProbe) -> (listing: Result<
    Vec<VirtualDiskListEntry>,
    VirtualDiskBackendError,
>)
    ensures
        listing_view(listing) == listing_of(*image, true),
{
    list_container_inner(image, true)
}

/// Lists the entries of a raw sector disk dump (`.raw`/`.dd`/`.dsk`/`.img`) without
/// extracting them.
pub fn list_raw_disk(image: &ImageProbe) -> (listing: Result<
    Vec<VirtualDiskListEntry>,
    VirtualDiskBackendError,
>)
    ensures
        listing_view(listing) == listing_of(*image, false),
{
    list_container_inner(image, false)
}

/// What reading the content of an entry gave: how many bytes it yielded, or
/// why it could not be read.
pub type Streamed = Result<u64, Seq<char>>;

/// The entry `i` of a test.
pub open spec fn test_step(
    report: TestReport,
    e: EntryView,
    i: int,
    options: TestOptions,
    streamed: Streamed,
) -> Result<TestReport, DiskFault> {
    if options.stops_at(i) {
        Err(DiskFault::Cancelled)
    } else if !options.wants(e.archive_path) {
        Ok(report.with_skipped())
    } else if e.kind is File {
        match streamed {
            Err(message) => Err(
                DiskFault::Vfs("read "@ + e.archive_path + ": "@ + message),
            ),
            Ok(bytes) => if Some(bytes) == e.uncompressed_size {
                Ok(report.with_tested(bytes))
            } else {
                Err(
                    DiskFault::Vfs(
                        "test "@ + e.archive_path + ": filesystem declares "@ + decimal(
                            match e.uncompressed_size {
                                Some(size) => size as nat,
                                None => 0,
                            },
                        ) + (" bytes but yielded "@ + decimal(bytes as nat)),
                    ),
                )
            },
        }
    } else {
        Ok(report.with_tested(0))
    }
}

/// The outcome of testing the entries in order; the first failure ends it.
pub open spec fn tested(
    entries: Seq<EntryView>,
    options: TestOptions,
    streamed: Seq<Streamed>,
) -> Result<TestReport, DiskFault>
    decreases entries.len(),
{
    if entries.len() == 0 {
        Ok(TestReport { tested_entries: 0, skipped_entries: 0, tested_bytes: 0 })
    } else {
        let i = entries.len() - 1;
        match tested(entries.drop_last(), options, streamed) {
            Err(fault) => Err(fault),
            Ok(report) => test_step(report, entries.last(), i, options, streamed[i]),
        }
    }
}

/// A test's outcome, or an error, with its texts taken as sequences.
pub open spec fn test_view(r: Result<TestReport, VirtualDiskBackendError>) -> Result<
    TestReport,
    DiskFault,
> {
    match r {
        Ok(report) => Ok(report),
        Err(error) => Err(error@),
    }
}

/// The outcome of testing an image.
pub open spec fn image_tested(
    image: ImageProbe,
    options: TestOptions,
    streamed: Seq<Streamed>,
    allow_logical: bool,
) -> Result<TestReport, DiskFault> {
    match image_entries(image, allow_logical) {
        Err(fault) => Err(fault),
        Ok(c) => tested(c.entries, options, streamed),
    }
}

/// How many entries an image has; none if it is refused.
pub open spec fn entry_count(image: ImageProbe, allow_logical: bool) -> int {
    match image_entries(image, allow_logical) {
        Err(_) => 0,
        Ok(c) => c.entries.len() as int,
    }
}

proof fn lemma_tested_fails(
    entries: Seq<EntryView>,
    options: TestOptions,
    streamed: Seq<Streamed>,
    k: int,
)
    requires
        0 <= k <= entries.len(),
    ensures
        tested(entries.take(k), options, streamed) matches Err(fault) ==> tested(
            entries,
            options,
            streamed,
        ) == Err::<TestReport, DiskFault>(fault),
    decreases entries.len() - k,
{
    if k < entries.len() {
        lemma_tested_fails(entries, options, streamed, k + 1);
        assert(entries.take(k + 1).drop_last() == entries.take(k));
    } else {
        assert(entries.take(k) == entries);
    }
}

/// Tests one entry.
fn test_entry(
    report: &mut TestReport,
    entry: &ExtractionEntry,
    i: usize,
    options: &TestOptions,
    streamed: &Result<u64, String>,
) -> (done: Result<(), VirtualDiskBackendError>)
    ensures
        match (
            done,
            test_step(
                *old(report),
                entry@,
                i as int,
                *options,
                crate::text::viewed(*streamed),
            ),
        ) {
            (Ok(_), Ok(spec)) => *final(report) == spec,
            (Err(error), Err(spec)) => error@ == spec,
            _ => false,
        },
{
    if options.is_cancelled(i) {
        return Err(VirtualDiskBackendError::Cancelled);
    }
    if !options.selects(entry.archive_path.as_str()) {
        report.skip();
        return Ok(());
    }
    let file: bool = match &entry.kind {
        ExtractionEntryKind::File => true,
        _ => false,
    };
    if !file {
        report.tested(0);
        return Ok(());
    }
    match streamed {
        Err(message) => Err(
            VirtualDiskBackendError::Vfs(
                crate::text::concat4("read ", entry.archive_path.as_str(), ": ", message.as_str()),
            ),
        ),
        Ok(bytes) => {
            let declared: u64 = match entry.uncompressed_size {
                Some(size) => size,
                None => 0,
            };
            if entry.uncompressed_size.is_some() && *bytes == declared {
                report.tested(*bytes);
                return Ok(());
            }
            let size: String = decimal_text(declared);
            let yielded: String = concat2(" bytes but yielded ", decimal_text(*bytes).as_str());
            Err(
                VirtualDiskBackendError::Vfs(
                    concat5(
                        "test ",
                        entry.archive_path.as_str(),
                        ": filesystem declares ",
                        size.as_str(),
                        yielded.as_str(),
                    ),
                ),
            )
        },
    }
}

/// Tests the entries of an image: every selected file must yield as many bytes
/// as the filesystem declares. `streamed` holds what reading the content of each
/// entry gave, in order; it is looked at for selected files only.
pub fn test_container_payloads(
    image: &ImageProbe,
    options: &TestOptions,
    streamed: &Vec<Result<u64, String>>,
    allow_logical: bool,
) -> (report: Result<TestReport, VirtualDiskBackendError>)
    requires
        streamed@.len() >= entry_count(*image, allow_logical),
    ensures
        test_view(report) == image_tested(
            *image,
            *options,
            stream_views(streamed@),
            allow_logical,
        ),
{
    let found: CollectedEntries = match open_and_collect(image, allow_logical) {
        Ok(found) => found,
        Err(error) => {
            return Err(error);
        },
    };
    let ghost spec = entry_views(found.entries@);
    let ghost given = stream_views(streamed@);
    let mut report: TestReport = TestReport::default();
    assert(spec.take(0) == Seq::<EntryView>::empty());
    let mut i: usize = 0;
    while i < found.entries.len()
        invariant
            image_entries(*image, allow_logical) == Ok::<CollectedView, DiskFault>(found@),
            spec == entry_views(found.entries@),
            given == stream_views(streamed@),
            i <= found.entries@.len() <= streamed@.len(),
            tested(spec.take(i as int), *options, given) == Ok::<TestReport, DiskFault>(report),
        decreases found.entries@.len() - i,
    {
        proof {
            assert(spec.take(i + 1).drop_last() == spec.take(i as int));
            assert(spec.take(i + 1).last() == found.entries@[i as int]@);
            assert(given[i as int] == crate::text::viewed(streamed@[i as int]));
            lemma_tested_fails(spec, *options, given, i + 1);
        }
        match test_entry(&mut report, &found.entries[i], i, options, &streamed[i]) {
            Ok(_) => {},
            Err(error) => {
                return Err(error);
            },
        }
        i = i + 1;
    }
    assert(spec.take(spec.len() as int) == spec);
    Ok(report)
}

/// Verifies selected optical image payloads.
pub fn test_optical(
    image: &ImageProbe,
    options: &TestOptions,
    streamed: &Vec<Result<u64, String>>,
) -> (report: Result<TestReport, VirtualDiskBackendError>)
    requires
        streamed@.len() >= entry_count(*image, false),
    ensures
        test_view(report) == image_tested(*image, *options, stream_views(streamed@), false),
{
    test_container_payloads(image, options, streamed, false)
}

/// Verifies selected virtual-disk payloads (VHD, VMDK, UDF, VDI, VHDX, QCOW2, EWF,
/// raw disk).
pub fn test_virtual_disk(
    image: &ImageProbe,
    options: &TestOptions,
    streamed: &Vec<Result<u64, String>>,
) -> (report: Result<TestReport, VirtualDiskBackendError>)
    requires
        streamed@.len() >= entry_count(*image, false),
    ensures
        test_view(report) == image_tested(*image, *options, stream_views(streamed@), false),
{
    test_container_payloads(image, options, streamed, false)
}

/// Verifies selected logical container payloads (AD1, DAR, AFF4).
pub fn test_logical_container(
    image: &ImageProbe,
    options: &TestOptions,
    streamed: &Vec<Result<u64, String>>,
) -> (report: Result<TestReport, VirtualDiskBackendError>)
    requires
        streamed@.len() >= entry_count(*image, true),
    ensures
        test_view(report) == image_tested(*image, *options, stream_views(streamed@), true),
{
    test_container_payloads(image, options, streamed, true)
}

/// How many of the first `k` entries have the path `path`.
pub open spec fn occurrences(entries: Seq<EntryView>, path: Seq<char>, k: int) -> int
    decreases k,
{
    if k <= 0 {
        0
    } else {
        occurrences(entries, path, k - 1) + if entries[k - 1].archive_path == path {
            1int
        } else {
            0int
        }
    }
}

/// Whether the entry `i` is the occurrence `n` of the path `path`, counting
/// from zero.
pub open spec fn is_occurrence(entries: Seq<EntryView>, path: Seq<char>, n: int, i: int) -> bool {
    &&& 0 <= i < entries.len()
    &&& entries[i].archive_path == path
    &&& occurrences(entries, path, i) == n
}

proof fn lemma_occurrences(entries: Seq<EntryView>, path: Seq<char>, j: int, k: int)
    requires
        0 <= j <= k <= entries.len(),
    ensures
        0 <= occurrences(entries, path, j) <= occurrences(entries, path, k),
        j < k && entries[j].archive_path == path ==> occurrences(entries, path, j) < occurrences(
            entries,
            path,
            k,
        ),
    decreases k,
{
    if j < k {
        lemma_occurrences(entries, path, j, k - 1);
    } else if k > 0 {
        lemma_occurrences(entries, path, j - 1, k - 1);
    }
}

/// What copying from an image comes to.
pub open spec fn copy_choice(
    image: ImageProbe,
    path: Seq<char>,
    n: int,
    allow_logical: bool,
    label: Seq<char>,
    chosen: Result<u64, DiskFault>,
) -> bool {
    match image_entries(image, allow_logical) {
        Err(fault) => chosen == Err::<u64, DiskFault>(fault),
        Ok(c) => {
            &&& (forall|i: int| !is_occurrence(c.entries, path, n, i)) ==> chosen == Err::<
                u64,
                DiskFault,
            >(
                DiskFault::Io {
                    path: image.path@,
                    source: IoFailureView {
                        kind: IoKind::NotFound,
                        message: "retained "@ + label + " entry is not present"@,
                    },
                },
            )
            &&& forall|i: int| #[trigger]
                is_occurrence(c.entries, path, n, i) ==> chosen == if c.entries[i].kind is File {
                    Ok::<u64, DiskFault>(c.entries[i].id)
                } else {
                    Err::<u64, DiskFault>(
                        DiskFault::Vfs("retained "@ + label + " entry is not a regular file"@),
                    )
                }
        },
    }
}

/// A chosen file, or an error, with its texts taken as sequences.
pub open spec fn choice_view(r: Result<u64, VirtualDiskBackendError>) -> Result<u64, DiskFault> {
    match r {
        Ok(id) => Ok(id),
        Err(error) => Err(error@),
    }
}

/// Resolves a path and the number of its occurrence to the file to copy, and
/// returns the handle of that file. Only entries with exactly that path are
/// counted.
pub fn copy_container_by_path_occurrence(
    image: &ImageProbe,
    selected_path: &str,
    selected_occurrence: usize,
    allow_logical: bool,
    label: &str,
) -> (chosen: Result<u64, VirtualDiskBackendError>)
    ensures
        copy_choice(
            *image,
            selected_path@,
            selected_occurrence as int,
            allow_logical,
            label@,
            choice_view(chosen),
        ),
{
    let found: CollectedEntries = match open_and_collect(image, allow_logical) {
        Ok(found) => found,
        Err(error) => {
            return Err(error);
        },
    };
    let ghost spec = entry_views(found.entries@);
    let ghost n = selected_occurrence as int;
    let mut seen: usize = 0;
    let mut i: usize = 0;
    while i < found.entries.len()
        invariant
            image_entries(*image, allow_logical) == Ok::<CollectedView, DiskFault>(found@),
            spec == entry_views(found.entries@),
            n == selected_occurrence,
            i <= found.entries@.len(),
            seen == occurrences(spec, selected_path@, i as int),
            seen <= i,
            forall|k: int| 0 <= k < i ==> !is_occurrence(spec, selected_path@, n, k),
        decreases found.entries@.len() - i,
    {
        let entry: &ExtractionEntry = &found.entries[i];
        assert(spec[i as int] == entry@);
        if same_text(entry.archive_path.as_str(), selected_path) {
            if seen == selected_occurrence {
                proof {
                    assert(is_occurrence(spec, selected_path@, n, i as int));
                    assert forall|k: int| #[trigger]
                        is_occurrence(spec, selected_path@, n, k) implies k == i by {
                        if k < i {
                            lemma_occurrences(spec, selected_path@, k, i as int);
                        } else if k > i {
                            lemma_occurrences(spec, selected_path@, i as int, k);
                        }
                    }
                }
                return match &entry.kind {
                    ExtractionEntryKind::File => Ok(entry.id),
                    _ => Err(
                        VirtualDiskBackendError::Vfs(
                            concat3("retained ", label, " entry is not a regular file"),
                        ),
                    ),
                };
            }
            seen = seen + 1;
        }
        i = i + 1;
    }
    Err(
        VirtualDiskBackendError::Io {
            path: image.path.clone(),
            source: IoFailure {
                kind: IoKind::NotFound,
                message: concat3("retained ", label, " entry is not present"),
            },
        },
    )
}

/// Resolves a virtual-disk file to copy by its path and occurrence.
pub fn copy_virtual_disk_by_path_occurrence(
    image: &ImageProbe,
    selected_path: &str,
    selected_occurrence: usize,
) -> (chosen: Result<u64, VirtualDiskBackendError>)
    ensures
        copy_choice(
            *image,
            selected_path@,
            selected_occurrence as int,
            false,
            "virtual disk"@,
            choice_view(chosen),
        ),
{
    copy_container_by_path_occurrence(
        image,
        selected_path,
        selected_occurrence,
        false,
        "virtual disk",
    )
}

/// Resolves a VDI file to copy by its path and occurrence.
pub fn copy_vdi_by_path_occurrence(
    image: &ImageProbe,
    selected_path: &str,
    selected_occurrence: usize,
) -> (chosen: Result<u64, VirtualDiskBackendError>)
    ensures
        copy_choice(
            *image,
            selected_path@,
            selected_occurrence as int,
            false,
            "virtual disk"@,
            choice_view(chosen),
        ),
{
    copy_virtual_disk_by_path_occurrence(image, selected_path, selected_occurrence)
}

/// Resolves a logical container file to copy by its path and occurrence.
pub fn copy_logical_container_by_path_occurrence(
    image: &ImageProbe,
    selected_path: &str,
    selected_occurrence: usize,
) -> (chosen: Result<u64, VirtualDiskBackendError>)
    ensures
        copy_choice(
            *image,
            selected_path@,
            selected_occurrence as int,
            true,
            "logical container"@,
            choice_view(chosen),
        ),
{
    copy_container_by_path_occurrence(
        image,
        selected_path,
        selected_occurrence,
        true,
        "logical container",
    )
}

/// What copying a file's content came to.
#[derive(Debug)]
pub enum StreamOutcome {
    /// All of it was written.
    Done(u64),
    /// The image could not be read.
    ReadFailed(String),
    /// The writer failed.
    WriteFailed(IoFailure),
}

/// The number of bytes that were copied, or the error that ended the copy.
pub fn stream_file(archive_path: &str, outcome: &StreamOutcome) -> (copied: Result<
    u64,
    VirtualDiskBackendError,
>)
    ensures
        match *outcome {
            StreamOutcome::Done(bytes) => copied == Ok::<u64, VirtualDiskBackendError>(bytes),
            StreamOutcome::ReadFailed(m) => copied matches Err(error) && error@ == DiskFault::Vfs(
                "read "@ + archive_path@ + ": "@ + m@,
            ),
            StreamOutcome::WriteFailed(m) => copied matches Err(error) && error@ == (DiskFault::Io {
                path: archive_path@,
                source: m@,
            }),
        },
{
    match outcome {
        StreamOutcome::Done(bytes) => Ok(*bytes),
        StreamOutcome::ReadFailed(m) => Err(
            VirtualDiskBackendError::Vfs(
                crate::text::concat4("read ", archive_path, ": ", m.as_str()),
            ),
        ),
        StreamOutcome::WriteFailed(m) => Err(
            VirtualDiskBackendError::Io { path: archive_path.to_owned(), source: m.copy() },
        ),
    }
}

/// Reserved names and NTFS system files never surface, and no entry is without
/// a path.
pub proof fn law_system_entries_never_surface(
    walked: Seq<WalkedView>,
    map: Option<Seq<(u32, Seq<char>)>>,
    i: int,
)
    ensures
        collected(walked, map) matches Ok(c) ==> 0 <= i < c.entries.len() ==> {
            let path = c.entries[i].archive_path;
            &&& path.len() > 0
            &&& !path.contains('\0')
            &&& !is_ntfs_metadata_name(first_component(path))
        },
    decreases walked.len(),
{
    if walked.len() > 0 {
        law_system_entries_never_surface(walked.drop_last(), map, i);
    }
}

/// Every node of a walked tree is an entry, was warned about, or is the root.
pub proof fn law_no_node_is_lost(walked: Seq<WalkedView>, map: Option<Seq<(u32, Seq<char>)>>)
    requires
        forall|k: int|
            0 <= k < walked.len() ==> node_path(#[trigger] walked[k], map).len() > 0,
    ensures
        collected(walked, map) matches Ok(c) ==> c.entries.len() + c.warnings.len()
            == walked.len(),
    decreases walked.len(),
{
    if walked.len() > 0 {
        let before = walked.drop_last();
        assert forall|k: int| 0 <= k < before.len() implies node_path(
            #[trigger] before[k],
            map,
        ).len() > 0 by {
            assert(before[k] == walked[k]);
        }
        law_no_node_is_lost(before, map);
    }
}

/// A successful test accounts for every entry: it was tested or not selected.
pub proof fn law_tests_account_for_every_entry(
    entries: Seq<EntryView>,
    options: TestOptions,
    streamed: Seq<Streamed>,
)
    requires
        entries.len() <= usize::MAX,
    ensures
        tested(entries, options, streamed) matches Ok(r) ==> r.tested_entries + r.skipped_entries
            == entries.len(),
    decreases entries.len(),
{
    if entries.len() > 0 {
        law_tests_account_for_every_entry(entries.drop_last(), options, streamed);
    }
}

/// Listing and testing agree on what is there: an image that lists lists as
/// many entries as a test needs answers for.
pub proof fn law_listing_counts_the_entries(
    image: ImageProbe,
    options: TestOptions,
    allow_logical: bool,
)
    ensures
        listing_of(image, allow_logical) matches Ok(listing) ==> listing.len() == entry_count(
            image,
            allow_logical,
        ),
        listing_of(image, allow_logical) matches Err(fault) ==> image_tested(
            image,
            options,
            Seq::empty(),
            allow_logical,
        ) == Err::<TestReport, DiskFault>(fault),
{
}

/// A listing shows every entry of an image, in order: its path, its declared size and
/// what it is. A link shows where it points, and nothing else does.
pub proof fn law_listings_show_every_entry(
    image: ImageProbe,
    allow_logical: bool,
    found: CollectedView,
    k: int,
)
    requires
        image_entries(image, allow_logical) == Ok::<CollectedView, DiskFault>(found),
        0 <= k < found.entries.len(),
    ensures
        ({
            let entry = found.entries[k];
            listing_of(image, allow_logical) matches Ok(listing) && listing.len()
                == found.entries.len() && {
                let shown = listing[k];
                &&& shown.path == entry.archive_path
                &&& entry.uncompressed_size matches Some(size) ==> shown.size == size
                &&& (shown.kind == VirtualDiskEntryKind::Directory) == (entry.kind is Directory)
                &&& (shown.kind == VirtualDiskEntryKind::Symlink) == (entry.kind is Symlink)
                &&& shown.link_target is Some == (entry.kind is Symlink)
                &&& entry.kind matches EntryKindView::Symlink(target) ==> shown.link_target
                    == Some(target)
            }
        }),
{
}

/// One more entry adds to a test as follows. A cancelled test fails. An entry that is
/// not selected is skipped. A selected file is read: it fails the test where it cannot
/// be read or has not the bytes that are declared for it, and else counts with its
/// bytes. Any other selected entry counts without bytes.
pub proof fn law_tests_read_every_selected_file(
    entries: Seq<EntryView>,
    options: TestOptions,
    streamed: Seq<Streamed>,
    before: TestReport,
)
    requires
        0 < entries.len() <= usize::MAX,
        tested(entries.drop_last(), options, streamed) == Ok::<TestReport, DiskFault>(before),
    ensures
        ({
            let entry = entries.last();
            let i = entries.len() - 1;
            let after = tested(entries, options, streamed);
            if options.cancelled_from matches Some(n) && n <= i {
                after == Err::<TestReport, DiskFault>(DiskFault::Cancelled)
            } else if !options.wants(entry.archive_path) {
                after matches Ok(report) && report.tested_entries == before.tested_entries
                    && report.tested_bytes == before.tested_bytes && report.skipped_entries
                    == before.skipped_entries + 1
            } else if entry.kind is File {
                match streamed[i] {
                    Err(_) => after matches Err(DiskFault::Vfs(_)),
                    Ok(bytes) => if entry.uncompressed_size == Some(bytes) {
                        after matches Ok(report) && report.tested_entries == before.tested_entries
                            + 1 && report.skipped_entries == before.skipped_entries && (
                        before.tested_bytes + bytes <= u64::MAX ==> report.tested_bytes
                            == before.tested_bytes + bytes)
                    } else {
                        after matches Err(DiskFault::Vfs(_))
                    },
                }
            } else {
                after matches Ok(report) && report.tested_entries == before.tested_entries + 1
                    && report.tested_bytes == before.tested_bytes && report.skipped_entries
                    == before.skipped_entries
            }
        }),
{
    law_tests_account_for_every_entry(entries.drop_last(), options, streamed);
}

/// The occurrence `n` of a path is the entry with that path that has exactly `n`
/// entries with the same path before it.
pub proof fn law_occurrences_are_counted_from_the_first(
    entries: Seq<EntryView>,
    path: Seq<char>,
    n: int,
    i: int,
)
    requires
        0 <= i < entries.len(),
    ensures
        is_occurrence(entries, path, n, i) <==> entries[i].archive_path == path && entries.take(
            i,
        ).filter(|e: EntryView| e.archive_path == path).len() == n,
{
    lemma_occurrences_count(entries, path, i);
}

proof fn lemma_occurrences_count(entries: Seq<EntryView>, path: Seq<char>, i: int)
    requires
        0 <= i <= entries.len(),
    ensures
        occurrences(entries, path, i) == entries.take(i).filter(
            |e: EntryView| e.archive_path == path,
        ).len(),
    decreases i,
{
    reveal(Seq::filter);
    if i > 0 {
        lemma_occurrences_count(entries, path, i - 1);
        assert(entries.take(i).drop_last() =~= entries.take(i - 1));
    }
}

/// The entry that is copied is the one with the path and the number that were asked for,
/// where it is a file.
pub proof fn law_the_asked_for_occurrence_is_copied(
    image: ImageProbe,
    path: Seq<char>,
    n: int,
    allow_logical: bool,
    label: Seq<char>,
    chosen: Result<u64, DiskFault>,
    i: int,
)
    requires
        copy_choice(image, path, n, allow_logical, label, chosen),
        image_entries(image, allow_logical) is Ok,
    ensures
        ({
            let entries = (image_entries(image, allow_logical)->Ok_0).entries;
            &&& is_occurrence(entries, path, n, i) && entries[i].kind is File ==> chosen == Ok::<
                u64,
                DiskFault,
            >(entries[i].id)
            &&& is_occurrence(entries, path, n, i) && !(entries[i].kind is File) ==> chosen is Err
            &&& (forall|k: int|
                0 <= k < entries.len() ==> (#[trigger] entries[k]).archive_path != path)
                ==> chosen is Err
        }),
{
    let entries = (image_entries(image, allow_logical)->Ok_0).entries;
    if forall|k: int| 0 <= k < entries.len() ==> (#[trigger] entries[k]).archive_path != path {
        assert forall|k: int| !is_occurrence(entries, path, n, k) by {
            if 0 <= k < entries.len() {
                assert(entries[k].archive_path != path);
            }
        }
    }
}

} // verus!
