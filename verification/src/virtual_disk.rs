//! Disk and disc images: which files are accepted as such, the entries of the
//! filesystem inside, and what a listing, a test, a copy and an extraction
//! report.
//!
//! The caller opens the image with the disk engine and walks its filesystem;
//! what it found there is an [`ImageProbe`].
use crate::failure::IoFailure;
#[allow(unused_imports)]
use crate::failure::IoFailureView;
use crate::text::{
    chars_of, concat2, concat3, concat4, contains_nul, find_char, lemma_find_char,
    lemma_find_char_is, lossy_text, lossy_utf8, position_of, same_text, slice_to_chars, text_of,
    text_option, texts,
};
use vstd::prelude::*;

verus! {

/// Entry kind reported by the listing functions.
#[derive(Debug, Clone, Copy, PartialEq, Eq, Structural)]
pub enum VirtualDiskEntryKind {
    /// Regular file.
    File,
    /// Directory.
    Directory,
    /// Symlink.
    Symlink,
}

/// Entry reported by the listing functions.
#[derive(Debug, PartialEq, Eq)]
pub struct VirtualDiskListEntry {
    /// Path inside the disk image (the mounted filesystem's tree).
    pub path: String,
    /// Entry kind.
    pub kind: VirtualDiskEntryKind,
    /// Declared uncompressed size.
    pub size: u64,
    /// Relative target of a symbolic link.
    pub link_target: Option<String>,
}

/// A listed entry with its texts taken as sequences.
#[verifier::ext_equal]
pub struct ListEntryView {
    pub path: Seq<char>,
    pub kind: VirtualDiskEntryKind,
    pub size: u64,
    pub link_target: Option<Seq<char>>,
}

impl View for VirtualDiskListEntry {
    type V = ListEntryView;

    open spec fn view(&self) -> ListEntryView {
        ListEntryView {
            path: self.path@,
            kind: self.kind,
            size: self.size,
            link_target: text_option(self.link_target),
        }
    }
}

/// Disk-image extraction report.
#[derive(Debug, PartialEq, Eq)]
pub struct VirtualDiskExtractReport {
    /// Number of entries written.
    pub written_entries: usize,
    /// Number of entries skipped by policy.
    pub skipped_entries: usize,
    /// Number of file bytes extracted.
    pub written_bytes: u64,
    /// Non-fatal warnings.
    pub warnings: Vec<String>,
}

/// An extraction report with its warnings taken as sequences.
#[verifier::ext_equal]
pub struct ExtractReportView {
    pub written_entries: int,
    pub skipped_entries: int,
    pub written_bytes: int,
    pub warnings: Seq<Seq<char>>,
}

impl View for VirtualDiskExtractReport {
    type V = ExtractReportView;

    open spec fn view(&self) -> ExtractReportView {
        ExtractReportView {
            written_entries: self.written_entries as int,
            skipped_entries: self.skipped_entries as int,
            written_bytes: self.written_bytes as int,
            warnings: texts(self.warnings@),
        }
    }
}

/// Disk-image backend error.
#[derive(Debug, PartialEq, Eq)]
pub enum VirtualDiskBackendError {
    /// Manifest planning failed.
    Plan(String),
    /// Filesystem I/O failed.
    Io {
        /// The file that was worked on.
        path: String,
        /// What went wrong.
        source: IoFailure,
    },
    /// Extraction safety rejected an entry.
    Safety(String),
    /// The engine failed to decode the image.
    Vfs(String),
    /// The file is not a supported disk image: no filesystem was found inside,
    /// or it resolved to a non-disk (archive) tree.
    NotDiskImage(String),
    /// Job was cancelled cooperatively.
    Cancelled,
}

/// A backend error with its texts taken as sequences.
pub enum DiskFault {
    Plan(Seq<char>),
    Io { path: Seq<char>, source: IoFailureView },
    Safety(Seq<char>),
    Vfs(Seq<char>),
    NotDiskImage(Seq<char>),
    Cancelled,
}

impl View for VirtualDiskBackendError {
    type V = DiskFault;

    open spec fn view(&self) -> DiskFault {
        match self {
            VirtualDiskBackendError::Plan(m) => DiskFault::Plan(m@),
            VirtualDiskBackendError::Io { path, source } => DiskFault::Io {
                path: path@,
                source: source@,
            },
            VirtualDiskBackendError::Safety(m) => DiskFault::Safety(m@),
            VirtualDiskBackendError::Vfs(m) => DiskFault::Vfs(m@),
            VirtualDiskBackendError::NotDiskImage(m) => DiskFault::NotDiskImage(m@),
            VirtualDiskBackendError::Cancelled => DiskFault::Cancelled,
        }
    }
}

/// What a user reads of an error.
pub open spec fn fault_message(fault: DiskFault) -> Seq<char> {
    match fault {
        DiskFault::Plan(m) => "manifest planning failed: "@ + m,
        DiskFault::Io { path, source } => "I/O failed for "@ + path + ": "@ + source.message,
        DiskFault::Safety(m) => "extraction safety rejected entry: "@ + m,
        DiskFault::Vfs(m) => "disk image backend error: "@ + m,
        DiskFault::NotDiskImage(m) => "not a supported disk image: "@ + m,
        DiskFault::Cancelled => "job cancelled"@,
    }
}

impl VirtualDiskBackendError {
    /// What a user reads of the error.
    pub fn message(&self) -> (text: String)
        ensures
            text@ == fault_message(self@),
    {
        match self {
            VirtualDiskBackendError::Plan(m) => concat2("manifest planning failed: ", m.as_str()),
            VirtualDiskBackendError::Io { path, source } => concat4(
                "I/O failed for ",
                path.as_str(),
                ": ",
                source.message.as_str(),
            ),
            VirtualDiskBackendError::Safety(m) => concat2(
                "extraction safety rejected entry: ",
                m.as_str(),
            ),
            VirtualDiskBackendError::Vfs(m) => concat2("disk image backend error: ", m.as_str()),
            VirtualDiskBackendError::NotDiskImage(m) => concat2(
                "not a supported disk image: ",
                m.as_str(),
            ),
            VirtualDiskBackendError::Cancelled => "job cancelled".to_owned(),
        }
    }
}

/// Whether `name` is one of the NTFS system files that live at the root of a
/// volume. They are recognised by exact name: `$Recycle.Bin` is a directory
/// that a user sees.
pub open spec fn is_ntfs_metadata_name(name: Seq<char>) -> bool {
    ||| name == "$AttrDef"@
    ||| name == "$BadClus"@
    ||| name == "$Bitmap"@
    ||| name == "$Boot"@
    ||| name == "$Extend"@
    ||| name == "$LogFile"@
    ||| name == "$MFT"@
    ||| name == "$MFTMirr"@
    ||| name == "$Secure"@
    ||| name == "$UpCase"@
    ||| name == "$Volume"@
}

/// The first component of a path.
pub open spec fn first_component(path: Seq<char>) -> Seq<char> {
    path.take(find_char(path, '/'))
}

/// Reserved volume entries cannot exist as real paths: their names hold a NUL
/// character.
pub fn is_reserved_volume_entry(path: &str) -> (r: bool)
    ensures
        r == path@.contains('\0'),
{
    contains_nul(path)
}

/// Whether the first component of the path is an NTFS system file; this covers
/// the entries at the root and everything under `$Extend/`.
pub fn is_ntfs_metadata_path(path: &str) -> (r: bool)
    ensures
        r == is_ntfs_metadata_name(first_component(path@)),
        r == lies_in_a_system_file(path@),
{
    proof {
        lemma_system_names(path@);
    }
    let chars: Vec<char> = chars_of(path);
    let at: usize = position_of(chars.as_slice(), '/');
    let head: Vec<char> = slice_to_chars(chars.as_slice(), 0, at);
    assert(head@ == first_component(path@));
    let root: String = text_of(head.as_slice());
    let root: &str = root.as_str();
    same_text(root, "$AttrDef") || same_text(root, "$BadClus") || same_text(root, "$Bitmap")
        || same_text(root, "$Boot") || same_text(root, "$Extend") || same_text(root, "$LogFile")
        || same_text(root, "$MFT") || same_text(root, "$MFTMirr") || same_text(root, "$Secure")
        || same_text(root, "$UpCase") || same_text(root, "$Volume")
}

/// Whether a filesystem kind is a loose archive (zip, 7z, tar).
pub open spec fn is_plain_archive(kind: Seq<char>) -> bool {
    kind == "zip"@ || kind == "7z"@ || kind == "tar"@
}

/// Whether a filesystem kind is a logical container (dar, aff4, ad1).
pub open spec fn is_logical_container(kind: Seq<char>) -> bool {
    kind == "dar"@ || kind == "aff4"@ || kind == "ad1"@
}

/// Plain archive kinds that the engine can fall back to. A file that resolves
/// to one of these is no container or disk image of its own.
pub fn is_plain_archive_fallback_kind(kind: &str) -> (r: bool)
    ensures
        r == is_plain_archive(kind@),
{
    same_text(kind, "zip") || same_text(kind, "7z") || same_text(kind, "tar")
}

/// Logical-container kinds that the engine can produce.
pub fn is_logical_container_kind(kind: &str) -> (r: bool)
    ensures
        r == is_logical_container(kind@),
{
    same_text(kind, "dar") || same_text(kind, "aff4") || same_text(kind, "ad1")
}

/// What a node of the mounted filesystem is.
#[derive(Debug, Clone, Copy, PartialEq, Eq, Structural)]
pub enum NodeKind {
    /// Regular file.
    File,
    /// Directory.
    Dir,
    /// Symbolic link.
    Symlink,
    /// Device node.
    Device,
    /// Anything else.
    Other,
}

/// Whether a node of the mounted filesystem is in use.
#[derive(Debug, Clone, Copy, PartialEq, Eq, Structural)]
pub enum Allocation {
    /// In use.
    Allocated,
    /// Deleted, but still found.
    Deleted,
    /// Without a directory that names it.
    Orphan,
}

/// One node that the walk of a mounted filesystem came across.
#[derive(Debug)]
pub struct WalkedEntry {
    /// The handle by which the caller finds the node again.
    pub id: u64,
    /// The names from the root down to the node.
    pub components: Vec<Vec<u8>>,
    /// The extent of the node, where the filesystem is ISO 9660.
    pub iso_block: Option<u32>,
    /// Whether the node is in use.
    pub allocated: Allocation,
    /// What the node is.
    pub kind: NodeKind,
    /// Declared size in bytes.
    pub size: u64,
    /// What reading the target of a link gave.
    pub link_target: Result<Vec<u8>, String>,
}

/// A walked node with its texts taken as sequences.
pub struct WalkedView {
    pub id: u64,
    pub components: Seq<Seq<u8>>,
    pub iso_block: Option<u32>,
    pub allocated: Allocation,
    pub kind: NodeKind,
    pub size: u64,
    pub link_target: Result<Seq<u8>, Seq<char>>,
}

impl View for WalkedEntry {
    type V = WalkedView;

    open spec fn view(&self) -> WalkedView {
        WalkedView {
            id: self.id,
            components: self.components@.map_values(|c: Vec<u8>| c@),
            iso_block: self.iso_block,
            allocated: self.allocated,
            kind: self.kind,
            size: self.size,
            link_target: crate::codec::data_view(self.link_target),
        }
    }
}

/// The views of a list of walked nodes.
pub open spec fn walked_views(walked: Seq<WalkedEntry>) -> Seq<WalkedView> {
    walked.map_values(|e: WalkedEntry| e@)
}

/// Kind of an entry to extract.
#[derive(Debug, PartialEq, Eq)]
pub enum ExtractionEntryKind {
    /// Regular file.
    File,
    /// Directory.
    Directory,
    /// Symbolic link.
    Symlink {
        /// Where the link points.
        target: String,
    },
    /// A device or an unknown node.
    Device,
}

/// The kind of an entry with its text taken as a sequence.
pub enum EntryKindView {
    File,
    Directory,
    Symlink(Seq<char>),
    Device,
}

impl View for ExtractionEntryKind {
    type V = EntryKindView;

    open spec fn view(&self) -> EntryKindView {
        match self {
            ExtractionEntryKind::File => EntryKindView::File,
            ExtractionEntryKind::Directory => EntryKindView::Directory,
            ExtractionEntryKind::Symlink { target } => EntryKindView::Symlink(target@),
            ExtractionEntryKind::Device => EntryKindView::Device,
        }
    }
}

/// An entry to extract.
#[derive(Debug, PartialEq, Eq)]
pub struct ExtractionEntry {
    /// Path inside the image.
    pub archive_path: String,
    /// What the entry is.
    pub kind: ExtractionEntryKind,
    /// Declared size in bytes.
    pub uncompressed_size: Option<u64>,
    /// Stored size in bytes; a mounted filesystem does not tell it.
    pub compressed_size: Option<u64>,
    /// The handle by which the caller finds the node again.
    pub id: u64,
}

/// An entry to extract with its texts taken as sequences.
pub struct EntryView {
    pub archive_path: Seq<char>,
    pub kind: EntryKindView,
    pub uncompressed_size: Option<u64>,
    pub compressed_size: Option<u64>,
    pub id: u64,
}

impl View for ExtractionEntry {
    type V = EntryView;

    open spec fn view(&self) -> EntryView {
        EntryView {
            archive_path: self.archive_path@,
            kind: self.kind@,
            uncompressed_size: self.uncompressed_size,
            compressed_size: self.compressed_size,
            id: self.id,
        }
    }
}

/// The views of a list of entries.
pub open spec fn entry_views(entries: Seq<ExtractionEntry>) -> Seq<EntryView> {
    entries.map_values(|e: ExtractionEntry| e@)
}

/// The names of a node, separated by `/`.
pub open spec fn joined_components(components: Seq<Seq<u8>>) -> Seq<char>
    decreases components.len(),
{
    if components.len() == 0 {
        Seq::empty()
    } else if components.len() == 1 {
        lossy_utf8(components[0])
    } else {
        joined_components(components.drop_last()).push('/') + lossy_utf8(components.last())
    }
}

/// The paths that an ISO 9660 reader gives to extents.
pub open spec fn path_map_view(map: Seq<(u32, String)>) -> Seq<(u32, Seq<char>)> {
    map.map_values(|p: (u32, String)| (p.0, p.1@))
}

/// The path of an extent: the last one that was recorded for it.
pub open spec fn mapped_path(map: Seq<(u32, Seq<char>)>, block: u32) -> Option<Seq<char>>
    decreases map.len(),
{
    if map.len() == 0 {
        None
    } else if map.last().0 == block {
        Some(map.last().1)
    } else {
        mapped_path(map.drop_last(), block)
    }
}

/// The path of a node: the one recorded for its extent, or else its names.
pub open spec fn node_path(e: WalkedView, map: Option<Seq<(u32, Seq<char>)>>) -> Seq<char> {
    let walked = joined_components(e.components);
    match (map, e.iso_block) {
        (Some(map), Some(block)) => match mapped_path(map, block) {
            Some(path) => path,
            None => walked,
        },
        _ => walked,
    }
}

/// What becomes of a node with a given path.
pub enum Fate {
    /// The root of the tree, which is no entry.
    Root,
    /// Filtered out, with the warning that an extraction gives.
    Filtered(Seq<char>),
    /// An entry.
    Kept(EntryKindView),
    /// The link target could not be read.
    Unreadable(Seq<char>),
}

/// The kind of entry that a node is.
pub open spec fn entry_kind(e: WalkedView) -> Fate {
    match e.kind {
        NodeKind::File => Fate::Kept(EntryKindView::File),
        NodeKind::Dir => Fate::Kept(EntryKindView::Directory),
        NodeKind::Symlink => match e.link_target {
            Ok(target) => Fate::Kept(EntryKindView::Symlink(lossy_utf8(target))),
            Err(message) => Fate::Unreadable("read_link: "@ + message),
        },
        NodeKind::Device => Fate::Kept(EntryKindView::Device),
        NodeKind::Other => Fate::Kept(EntryKindView::Device),
    }
}

/// What becomes of a node: reserved names, NTFS system files and recovered
/// deleted entries are filtered out.
pub open spec fn fate_of(e: WalkedView, path: Seq<char>) -> Fate {
    if path.len() == 0 {
        Fate::Root
    } else if path.contains('\0') {
        Fate::Filtered("skipped "@ + path + ": reserved filesystem entry"@)
    } else if is_ntfs_metadata_name(first_component(path)) {
        Fate::Filtered("skipped "@ + path + ": NTFS system metadata file"@)
    } else if e.allocated != Allocation::Allocated {
        Fate::Filtered("skipped "@ + path + ": recovered deleted entry"@)
    } else {
        entry_kind(e)
    }
}

/// The entries of a tree and the warnings about what was filtered out.
#[verifier::ext_equal]
pub struct CollectedView {
    pub entries: Seq<EntryView>,
    pub warnings: Seq<Seq<char>>,
}

/// One more node.
pub open spec fn collect_step(
    c: CollectedView,
    e: WalkedView,
    map: Option<Seq<(u32, Seq<char>)>>,
) -> Result<CollectedView, DiskFault> {
    let path = node_path(e, map);
    match fate_of(e, path) {
        Fate::Root => Ok(c),
        Fate::Filtered(warning) => Ok(
            CollectedView { entries: c.entries, warnings: c.warnings.push(warning) },
        ),
        Fate::Kept(kind) => Ok(
            CollectedView {
                entries: c.entries.push(
                    EntryView {
                        archive_path: path,
                        kind,
                        uncompressed_size: Some(e.size),
                        compressed_size: None,
                        id: e.id,
                    },
                ),
                warnings: c.warnings,
            },
        ),
        Fate::Unreadable(message) => Err(DiskFault::Vfs(message)),
    }
}

/// The entries of a walked tree, in the order of the walk; an unreadable link
/// target fails the whole.
pub open spec fn collected(
    walked: Seq<WalkedView>,
    map: Option<Seq<(u32, Seq<char>)>>,
) -> Result<CollectedView, DiskFault>
    decreases walked.len(),
{
    if walked.len() == 0 {
        Ok(CollectedView { entries: Seq::empty(), warnings: Seq::empty() })
    } else {
        match collected(walked.drop_last(), map) {
            Err(fault) => Err(fault),
            Ok(c) => collect_step(c, walked.last(), map),
        }
    }
}

/// The entries of a tree and the warnings about what was filtered out.
#[derive(Debug)]
pub struct CollectedEntries {
    /// The entries, in the order of the walk.
    pub entries: Vec<ExtractionEntry>,
    /// One warning for each filtered node.
    pub warnings: Vec<String>,
}

impl View for CollectedEntries {
    type V = CollectedView;

    open spec fn view(&self) -> CollectedView {
        CollectedView { entries: entry_views(self.entries@), warnings: texts(self.warnings@) }
    }
}

/// The names of a node, separated by `/`.
fn join_components(components: &Vec<Vec<u8>>) -> (path: String)
    ensures
        path@ == joined_components(components@.map_values(|c: Vec<u8>| c@)),
{
    let ghost views = components@.map_values(|c: Vec<u8>| c@);
    let mut path: String = String::new();
    let mut i: usize = 0;
    while i < components.len()
        invariant
            views == components@.map_values(|c: Vec<u8>| c@),
            i <= components@.len(),
            path@ == joined_components(views.take(i as int)),
        decreases components@.len() - i,
    {
        if i > 0 {
            path.push('/');
        }
        let name: String = lossy_text(components[i].as_slice());
        path.append(name.as_str());
        i = i + 1;
        proof {
            let part = views.take(i as int);
            assert(part.drop_last() == views.take(i - 1));
            assert(part.last() == views[i - 1]);
            assert(views[i - 1] == components@[i - 1]@);
            if i == 1 {
                assert(joined_components(views.take(0)) == Seq::<char>::empty());
            }
        }
    }
    assert(views.take(views.len() as int) == views);
    path
}

/// The path of an extent: the last one that was recorded for it.
fn find_path(map: &Vec<(u32, String)>, block: u32) -> (path: Option<String>)
    ensures
        text_option(path) == mapped_path(path_map_view(map@), block),
{
    let ghost views = path_map_view(map@);
    let mut i: usize = map.len();
    assert(views.take(views.len() as int) == views);
    while i > 0
        invariant
            views == path_map_view(map@),
            i <= map@.len(),
            mapped_path(views.take(i as int), block) == mapped_path(views, block),
        decreases i,
    {
        assert(views.take(i as int).drop_last() == views.take(i - 1));
        assert(views.take(i as int).last() == views[i - 1]);
        if map[i - 1].0 == block {
            return Some(map[i - 1].1.clone());
        }
        i = i - 1;
    }
    None
}

/// Walks over the nodes of a mounted filesystem and keeps those that are
/// entries. `path_map` holds the paths that an ISO 9660 reader gave to extents.
pub fn collect_entries_with_path_map(
    walked: &Vec<WalkedEntry>,
    path_map: Option<&Vec<(u32, String)>>,
) -> (result: Result<CollectedEntries, VirtualDiskBackendError>)
    ensures
        ({
            let map = match path_map {
                Some(m) => Some(path_map_view(m@)),
                None => None,
            };
            match (result, collected(walked_views(walked@), map)) {
                (Ok(c), Ok(spec)) => c@ == spec,
                (Err(e), Err(spec)) => e@ == spec,
                _ => false,
            }
        }),
{
    let ghost map = match path_map {
        Some(m) => Some(path_map_view(m@)),
        None => None,
    };
    let ghost views = walked_views(walked@);
    let mut out = CollectedEntries { entries: Vec::new(), warnings: Vec::new() };
    assert(out@ == (CollectedView { entries: Seq::empty(), warnings: Seq::empty() }));
    assert(views.take(0) == Seq::<WalkedView>::empty());
    let mut i: usize = 0;
    while i < walked.len()
        invariant
            views == walked_views(walked@),
            map == (match path_map {
                Some(m) => Some(path_map_view(m@)),
                None => None,
            }),
            i <= walked@.len(),
            collected(views.take(i as int), map) == Ok::<CollectedView, DiskFault>(out@),
        decreases walked@.len() - i,
    {
        let entry: &WalkedEntry = &walked[i];
        let ghost before = out@;
        proof {
            assert(views.take(i + 1).drop_last() == views.take(i as int));
            assert(views.take(i + 1).last() == entry@);
            lemma_collected_fails(views, map, i + 1);
        }
        let path: String = match (path_map, entry.iso_block) {
            (Some(m), Some(block)) => match find_path(m, block) {
                Some(path) => path,
                None => join_components(&entry.components),
            },
            _ => join_components(&entry.components),
        };
        assert(path@ == node_path(entry@, map));
        i = i + 1;
        if path.as_str().is_empty() {
            continue ;
        }
        let text: &str = path.as_str();
        if is_reserved_volume_entry(text) {
            out.warnings.push(concat3("skipped ", text, ": reserved filesystem entry"));
            assert(texts(out.warnings@) =~= before.warnings.push(
                "skipped "@ + path@ + ": reserved filesystem entry"@,
            ));
            continue ;
        }
        if is_ntfs_metadata_path(text) {
            out.warnings.push(concat3("skipped ", text, ": NTFS system metadata file"));
            assert(texts(out.warnings@) =~= before.warnings.push(
                "skipped "@ + path@ + ": NTFS system metadata file"@,
            ));
            continue ;
        }
        if entry.allocated != Allocation::Allocated {
            out.warnings.push(concat3("skipped ", text, ": recovered deleted entry"));
            assert(texts(out.warnings@) =~= before.warnings.push(
                "skipped "@ + path@ + ": recovered deleted entry"@,
            ));
            continue ;
        }
        let kind: ExtractionEntryKind = match map_entry_kind(entry) {
            Ok(kind) => kind,
            Err(error) => {
                return Err(error);
            },
        };
        out.entries.push(
            ExtractionEntry {
                archive_path: path,
                kind,
                uncompressed_size: Some(entry.size),
                compressed_size: None,
                id: entry.id,
            },
        );
        proof {
            let last = out.entries@.last()@;
            assert(entry_views(out.entries@) =~= before.entries.push(last));
        }
    }
    assert(views.take(views.len() as int) == views);
    Ok(out)
}

/// A failure on the way is the outcome of the whole.
proof fn lemma_collected_fails(
    walked: Seq<WalkedView>,
    map: Option<Seq<(u32, Seq<char>)>>,
    k: int,
)
    requires
        0 <= k <= walked.len(),
    ensures
        collected(walked.take(k), map) matches Err(fault) ==> collected(walked, map) == Err::<
            CollectedView,
            DiskFault,
        >(fault),
    decreases walked.len() - k,
{
    if k < walked.len() {
        lemma_collected_fails(walked, map, k + 1);
        assert(walked.take(k + 1).drop_last() == walked.take(k));
    } else {
        assert(walked.take(k) == walked);
    }
}

/// The kind of entry that a node is.
fn map_entry_kind(entry: &WalkedEntry) -> (kind: Result<
    ExtractionEntryKind,
    VirtualDiskBackendError,
>)
    ensures
        match kind {
            Ok(kind) => entry_kind(entry@) == Fate::Kept(kind@),
            Err(error) => error@ matches DiskFault::Vfs(m) && entry_kind(entry@)
                == Fate::Unreadable(m),
        },
{
    match entry.kind {
        NodeKind::File => Ok(ExtractionEntryKind::File),
        NodeKind::Dir => Ok(ExtractionEntryKind::Directory),
        NodeKind::Symlink => match &entry.link_target {
            Ok(target) => Ok(
                ExtractionEntryKind::Symlink { target: lossy_text(target.as_slice()) },
            ),
            Err(message) => Err(
                VirtualDiskBackendError::Vfs(concat2("read_link: ", message.as_str())),
            ),
        },
        NodeKind::Device => Ok(ExtractionEntryKind::Device),
        NodeKind::Other => Ok(ExtractionEntryKind::Device),
    }
}

/// Whether a path is a name at the root, or lies below it.
pub open spec fn lies_at_or_below(path: Seq<char>, name: Seq<char>) -> bool {
    path == name || (path.len() > name.len() && path.take(name.len() as int) == name
        && path[name.len() as int] == '/')
}

proof fn lemma_first_component(path: Seq<char>, name: Seq<char>)
    requires
        !name.contains('/'),
    ensures
        first_component(path) == name <==> lies_at_or_below(path, name),
{
    lemma_find_char(path, '/');
    if lies_at_or_below(path, name) {
        assert forall|k: int| 0 <= k < name.len() implies path[k] != '/' by {
            assert(path[k] == path.take(name.len() as int)[k]);
            assert(name.contains(name[k]));
        }
        lemma_find_char_is(path, '/', name.len() as int);
        assert(path.take(name.len() as int) =~= name);
    } else if first_component(path) == name {
        assert(path.take(path.len() as int) =~= path);
    }
}

proof fn lemma_system_names(path: Seq<char>)
    ensures
        is_ntfs_metadata_name(first_component(path)) <==> lies_in_a_system_file(path),
{
    reveal_strlit("$AttrDef");
    reveal_strlit("$BadClus");
    reveal_strlit("$Bitmap");
    reveal_strlit("$Boot");
    reveal_strlit("$Extend");
    reveal_strlit("$LogFile");
    reveal_strlit("$MFT");
    reveal_strlit("$MFTMirr");
    reveal_strlit("$Secure");
    reveal_strlit("$UpCase");
    reveal_strlit("$Volume");
    lemma_first_component(path, "$AttrDef"@);
    lemma_first_component(path, "$BadClus"@);
    lemma_first_component(path, "$Bitmap"@);
    lemma_first_component(path, "$Boot"@);
    lemma_first_component(path, "$Extend"@);
    lemma_first_component(path, "$LogFile"@);
    lemma_first_component(path, "$MFT"@);
    lemma_first_component(path, "$MFTMirr"@);
    lemma_first_component(path, "$Secure"@);
    lemma_first_component(path, "$UpCase"@);
    lemma_first_component(path, "$Volume"@);
}

/// Whether a path is one of the system files at the root of an NTFS volume, or lies
/// below one.
pub open spec fn lies_in_a_system_file(path: Seq<char>) -> bool {
    ||| lies_at_or_below(path, "$AttrDef"@)
    ||| lies_at_or_below(path, "$BadClus"@)
    ||| lies_at_or_below(path, "$Bitmap"@)
    ||| lies_at_or_below(path, "$Boot"@)
    ||| lies_at_or_below(path, "$Extend"@)
    ||| lies_at_or_below(path, "$LogFile"@)
    ||| lies_at_or_below(path, "$MFT"@)
    ||| lies_at_or_below(path, "$MFTMirr"@)
    ||| lies_at_or_below(path, "$Secure"@)
    ||| lies_at_or_below(path, "$UpCase"@)
    ||| lies_at_or_below(path, "$Volume"@)
}

/// Nothing that is collected from a tree is a system file of an NTFS volume, and
/// nothing lies below one.
pub proof fn law_system_files_of_ntfs_are_no_entries(
    walked: Seq<WalkedView>,
    map: Option<Seq<(u32, Seq<char>)>>,
    entries: CollectedView,
    k: int,
    path: Seq<char>,
)
    requires
        collected(walked, map) == Ok::<CollectedView, DiskFault>(entries),
        0 <= k < entries.entries.len(),
        path == entries.entries[k].archive_path,
    ensures
        !lies_at_or_below(path, "$AttrDef"@),
        !lies_at_or_below(path, "$BadClus"@),
        !lies_at_or_below(path, "$Bitmap"@),
        !lies_at_or_below(path, "$Boot"@),
        !lies_at_or_below(path, "$Extend"@),
        !lies_at_or_below(path, "$LogFile"@),
        !lies_at_or_below(path, "$MFT"@),
        !lies_at_or_below(path, "$MFTMirr"@),
        !lies_at_or_below(path, "$Secure"@),
        !lies_at_or_below(path, "$UpCase"@),
        !lies_at_or_below(path, "$Volume"@),
        !path.contains('\0'),
        path.len() > 0,
    decreases walked.len(),
{
    if walked.len() > 0 {
        let before = collected(walked.drop_last(), map)->Ok_0;
        if k < before.entries.len() {
            law_system_files_of_ntfs_are_no_entries(walked.drop_last(), map, before, k, path);
        } else {
            lemma_system_names(path);
        }
    }
}

/// One more node adds to what was collected as follows. The root adds nothing. A node
/// with a reserved name, a system file of an NTFS volume, what lies below one, and a
/// deleted or orphaned node add one warning that names them, and no entry. A link
/// whose target cannot be read fails the whole. Every other node adds one entry, with
/// its path, its kind, its size and its handle, and no warning.
pub proof fn law_nodes_are_kept_unless_they_are_hidden(
    walked: Seq<WalkedView>,
    map: Option<Seq<(u32, Seq<char>)>>,
    before: CollectedView,
)
    requires
        walked.len() > 0,
        collected(walked.drop_last(), map) == Ok::<CollectedView, DiskFault>(before),
    ensures
        ({
            let node = walked.last();
            let path = node_path(node, map);
            let after = collected(walked, map);
            if path.len() == 0 {
                after == Ok::<CollectedView, DiskFault>(before)
            } else if path.contains('\0') || lies_in_a_system_file(path) || node.allocated
                != Allocation::Allocated {
                after matches Ok(c) && c.entries == before.entries && c.warnings.len()
                    == before.warnings.len() + 1 && c.warnings.drop_last() == before.warnings
                    && c.warnings.last().len() > path.len() + 8 && c.warnings.last().subrange(
                    8,
                    8 + path.len() as int,
                ) == path
            } else if node.kind == NodeKind::Symlink && node.link_target is Err {
                after is Err
            } else {
                after matches Ok(c) && c.warnings == before.warnings && c.entries.len()
                    == before.entries.len() + 1 && c.entries.drop_last() == before.entries && {
                    let entry = c.entries.last();
                    &&& entry.archive_path == path
                    &&& entry.uncompressed_size == Some(node.size)
                    &&& entry.compressed_size is None
                    &&& entry.id == node.id
                    &&& entry.kind is File <==> node.kind == NodeKind::File
                    &&& entry.kind is Directory <==> node.kind == NodeKind::Dir
                    &&& entry.kind is Symlink <==> node.kind == NodeKind::Symlink
                    &&& entry.kind matches EntryKindView::Symlink(target) ==> target == lossy_utf8(
                        node.link_target->Ok_0,
                    )
                }
            }
        }),
{
    let path = node_path(walked.last(), map);
    lemma_system_names(path);
    reveal_strlit("skipped ");
    reveal_strlit(": reserved filesystem entry");
    reveal_strlit(": NTFS system metadata file");
    reveal_strlit(": recovered deleted entry");
    if let Ok(after) = collected(walked, map) {
        if after.warnings.len() > before.warnings.len() {
            assert(after.warnings.drop_last() =~= before.warnings);
            assert(after.warnings.last().subrange(8, 8 + path.len() as int) =~= path);
        }
        if after.entries.len() > before.entries.len() {
            assert(after.entries.drop_last() =~= before.entries);
        }
    }
}

/// The names of a node are joined by one `/` between each two: a name stands for
/// itself, and joining two paths joins their names.
pub proof fn law_paths_are_joined_by_slashes(upper: Seq<Seq<u8>>, lower: Seq<Seq<u8>>)
    ensures
        upper.len() == 1 ==> joined_components(upper) == lossy_utf8(upper[0]),
        upper.len() > 0 && lower.len() > 0 ==> joined_components(upper + lower)
            == joined_components(upper).push('/') + joined_components(lower),
    decreases lower.len(),
{
    if upper.len() > 0 && lower.len() > 0 {
        assert((upper + lower).drop_last() =~= upper + lower.drop_last());
        if lower.len() == 1 {
            assert(upper + lower.drop_last() =~= upper);
        } else {
            law_paths_are_joined_by_slashes(upper, lower.drop_last());
            assert(joined_components(upper + lower) =~= joined_components(upper).push('/')
                + joined_components(lower));
        }
    }
}

/// A node has the path that was last recorded for its extent; a node for whose extent
/// none was recorded, or that has no extent, has the path of its names.
pub proof fn law_recorded_paths_come_first(
    node: WalkedView,
    earlier: Seq<(u32, Seq<char>)>,
    block: u32,
    path: Seq<char>,
)
    ensures
        node_path(node, None) == joined_components(node.components),
        node_path(node, Some(Seq::empty())) == joined_components(node.components),
        node.iso_block is None ==> node_path(node, Some(earlier)) == joined_components(
            node.components,
        ),
        node.iso_block == Some(block) ==> node_path(node, Some(earlier.push((block, path))))
            == path,
        node.iso_block != Some(block) ==> node_path(node, Some(earlier.push((block, path))))
            == node_path(node, Some(earlier)),
{
    assert(earlier.push((block, path)).drop_last() =~= earlier);
}

/// A fault of a disk image tells the path where there is one, and its own words.
pub proof fn law_faults_are_told(
    path: Seq<char>,
    source: crate::failure::IoFailureView,
    message: Seq<char>,
)
    ensures
        fault_message(DiskFault::Plan(message)) == "manifest planning failed: "@ + message,
        fault_message(DiskFault::Io { path, source }) == "I/O failed for "@ + path + ": "@
            + source.message,
        fault_message(DiskFault::Safety(message)) == "extraction safety rejected entry: "@
            + message,
        fault_message(DiskFault::Vfs(message)) == "disk image backend error: "@ + message,
        fault_message(DiskFault::NotDiskImage(message)) == "not a supported disk image: "@
            + message,
        fault_message(DiskFault::Cancelled) == "job cancelled"@,
{
}

/// The containers that hold files without a filesystem are those of DAR, AFF4 and AD1.
pub proof fn law_logical_containers_are_named(kind: Seq<char>)
    ensures
        is_logical_container("dar"@),
        is_logical_container("aff4"@),
        is_logical_container("ad1"@),
        kind != "dar"@ && kind != "aff4"@ && kind != "ad1"@ ==> !is_logical_container(kind),
{
}

} // verus!
