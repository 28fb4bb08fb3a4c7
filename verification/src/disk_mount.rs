//! Opening disk and disc images: which opener an image goes to, and which of
//! its answers count as a mounted disk.
use crate::failure::IoFailure;
use crate::bytes::le_words;
use crate::isz::{IszHeader, IszSource, has_isz_magic, is_isz_image, isz_header};
use crate::optical::{
    OpticalTrackSource, SectorMode, TrackWindow, is_optical_image, logical_bytes,
    names_optical_image,
};
use crate::paths::{has_extension, lower_extension};
use crate::text::concat3;
use crate::vdi::{VdiHeader, VdiSource, has_vdi_signature, is_vdi_image, vdi_header};
use crate::virtual_disk::{
    CollectedEntries, CollectedView, DiskFault, VirtualDiskBackendError, WalkedEntry, WalkedView,
    collect_entries_with_path_map, collected, is_logical_container, is_logical_container_kind,
    is_plain_archive, is_plain_archive_fallback_kind, path_map_view, walked_views,
};
use vstd::prelude::*;

verus! {

/// Which opener an image goes to first.
#[derive(Debug, Clone, Copy, PartialEq, Eq, Structural)]
pub enum MountRoute {
    /// The reader of `VirtualBox` images.
    Vdi,
    /// The optical opener, and the engine if that finds no filesystem.
    Optical,
    /// The engine.
    Engine,
}

/// Which opener a file that begins with `prefix` goes to first.
pub open spec fn route_of(prefix: Seq<u8>, path: Seq<char>) -> MountRoute {
    if has_vdi_signature(prefix) {
        MountRoute::Vdi
    } else if has_isz_magic(prefix) || names_optical_image(path) {
        MountRoute::Optical
    } else {
        MountRoute::Engine
    }
}

/// Which opener a file that begins with `prefix` goes to first.
pub fn mount_route(prefix: &[u8], path: &str) -> (route: MountRoute)
    ensures
        route == route_of(prefix@, path@),
{
    if is_vdi_image(prefix) {
        MountRoute::Vdi
    } else if is_isz_image(prefix) || is_optical_image(path) {
        MountRoute::Optical
    } else {
        MountRoute::Engine
    }
}

/// A mounted filesystem: its kind, and what walking it gave.
#[derive(Debug)]
pub struct MountedTree {
    /// The name of the filesystem kind.
    pub kind: String,
    /// The nodes of the tree, or the message of the engine.
    pub walked: Result<Vec<WalkedEntry>, String>,
    /// The paths that an ISO 9660 reader gives to extents; used where the
    /// filesystem is ISO 9660.
    pub iso_paths: Vec<(u32, String)>,
}

/// A mounted filesystem with its texts taken as sequences.
pub struct TreeView {
    pub kind: Seq<char>,
    pub walked: Result<Seq<WalkedView>, Seq<char>>,
    pub iso_paths: Seq<(u32, Seq<char>)>,
}

impl View for MountedTree {
    type V = TreeView;

    open spec fn view(&self) -> TreeView {
        TreeView {
            kind: self.kind@,
            walked: match self.walked {
                Ok(walked) => Ok(walked_views(walked@)),
                Err(message) => Err(message@),
            },
            iso_paths: path_map_view(self.iso_paths@),
        }
    }
}

/// What the engine resolved a file to.
#[derive(Debug)]
pub struct Evidence {
    /// The filesystem inside, if the engine found one.
    pub tree: Option<MountedTree>,
    /// Whether an archive was peeled off on the way to it.
    pub archive_layer: bool,
}

/// What the openers said about a file.
#[derive(Debug)]
pub enum Opened {
    /// The file carries the VDI signature.
    Vdi {
        /// The header bytes of the file.
        header: Result<Vec<u8>, IoFailure>,
        /// The bytes of the block map that the header declares.
        block_map: Result<Vec<u8>, IoFailure>,
        /// What the engine found on the logical disk.
        found: Result<Option<MountedTree>, String>,
    },
    /// The optical opener found a filesystem.
    Optical {
        /// The filesystem.
        tree: MountedTree,
    },
    /// The engine was asked about the file.
    Engine {
        /// What it resolved the file to.
        evidence: Result<Evidence, String>,
    },
}

/// A file and what the openers said about it.
#[derive(Debug)]
pub struct ImageProbe {
    /// The path of the file, as a user reads it.
    pub path: String,
    /// What the openers said.
    pub opened: Opened,
}

/// The tree that an image holds, or why it is refused.
///
/// With `allow_logical` clear the file must be a disk or disc image; with it
/// set the logical containers are accepted too. A plain archive is refused
/// either way.
pub open spec fn mounted(image: ImageProbe, allow_logical: bool) -> Result<TreeView, DiskFault> {
    let path = image.path@;
    match image.opened {
        Opened::Vdi { header, block_map, found } => match header {
            Err(failure) => Err(DiskFault::Io { path, source: failure@ }),
            Ok(header) => match vdi_header(header@) {
                Err(message) => Err(DiskFault::NotDiskImage(path + ": "@ + message)),
                Ok(_) => match block_map {
                    Err(failure) => Err(DiskFault::Io { path, source: failure@ }),
                    Ok(_) => match found {
                        Err(message) => Err(DiskFault::Vfs(message@)),
                        Ok(None) => Err(
                            DiskFault::NotDiskImage(
                                path + ": no supported filesystem found in the VDI image"@,
                            ),
                        ),
                        Ok(Some(tree)) => Ok(tree@),
                    },
                },
            },
        },
        Opened::Optical { tree } => Ok(tree@),
        Opened::Engine { evidence } => match evidence {
            Err(message) => Err(DiskFault::Vfs(message@)),
            Ok(evidence) => match evidence.tree {
                None => Err(
                    DiskFault::NotDiskImage(path + ": no supported filesystem found in the image"@),
                ),
                Some(tree) => if evidence.archive_layer {
                    Err(
                        DiskFault::NotDiskImage(
                            path + ": resolved to an archive wrapper, not a disk image"@,
                        ),
                    )
                } else if is_plain_archive(tree.kind@) {
                    Err(
                        DiskFault::NotDiskImage(
                            path + ": resolved to a "@ + tree.kind@
                                + " tree, not a disk image or container"@,
                        ),
                    )
                } else if !allow_logical && is_logical_container(tree.kind@) {
                    Err(
                        DiskFault::NotDiskImage(
                            path + ": resolved to a "@ + tree.kind@ + " tree, not a disk image"@,
                        ),
                    )
                } else {
                    Ok(tree@)
                },
            },
        },
    }
}

/// The tree that an image holds, or why it is refused.
pub fn mount_entry(image: &ImageProbe, allow_logical: bool) -> (tree: Result<
    &MountedTree,
    VirtualDiskBackendError,
>)
    ensures
        match (tree, mounted(*image, allow_logical)) {
            (Ok(tree), Ok(spec)) => tree@ == spec,
            (Err(error), Err(spec)) => error@ == spec,
            _ => false,
        },
{
    let path: &str = image.path.as_str();
    match &image.opened {
        Opened::Vdi { header, block_map, found } => {
            let header: &Vec<u8> = match header {
                Ok(header) => header,
                Err(failure) => {
                    return Err(
                        VirtualDiskBackendError::Io {
                            path: path.to_owned(),
                            source: failure.copy(),
                        },
                    );
                },
            };
            match VdiHeader::read(header.as_slice()) {
                Ok(_) => {},
                Err(message) => {
                    return Err(
                        VirtualDiskBackendError::NotDiskImage(
                            concat3(path, ": ", message.as_str()),
                        ),
                    );
                },
            }
            match block_map {
                Ok(_) => {},
                Err(failure) => {
                    return Err(
                        VirtualDiskBackendError::Io {
                            path: path.to_owned(),
                            source: failure.copy(),
                        },
                    );
                },
            }
            match found {
                Err(message) => Err(VirtualDiskBackendError::Vfs(message.clone())),
                Ok(None) => Err(
                    VirtualDiskBackendError::NotDiskImage(
                        crate::text::concat2(
                            path,
                            ": no supported filesystem found in the VDI image",
                        ),
                    ),
                ),
                Ok(Some(tree)) => Ok(tree),
            }
        },
        Opened::Optical { tree } => Ok(tree),
        Opened::Engine { evidence } => {
            let evidence: &Evidence = match evidence {
                Ok(evidence) => evidence,
                Err(message) => {
                    return Err(VirtualDiskBackendError::Vfs(message.clone()));
                },
            };
            let tree: &MountedTree = match &evidence.tree {
                Some(tree) => tree,
                None => {
                    return Err(
                        VirtualDiskBackendError::NotDiskImage(
                            crate::text::concat2(
                                path,
                                ": no supported filesystem found in the image",
                            ),
                        ),
                    );
                },
            };
            if evidence.archive_layer {
                return Err(
                    VirtualDiskBackendError::NotDiskImage(
                        crate::text::concat2(
                            path,
                            ": resolved to an archive wrapper, not a disk image",
                        ),
                    ),
                );
            }
            let kind: &str = tree.kind.as_str();
            if is_plain_archive_fallback_kind(kind) {
                return Err(
                    VirtualDiskBackendError::NotDiskImage(
                        crate::text::concat4(
                            path,
                            ": resolved to a ",
                            kind,
                            " tree, not a disk image or container",
                        ),
                    ),
                );
            }
            if !allow_logical && is_logical_container_kind(kind) {
                return Err(
                    VirtualDiskBackendError::NotDiskImage(
                        crate::text::concat4(
                            path,
                            ": resolved to a ",
                            kind,
                            " tree, not a disk image",
                        ),
                    ),
                );
            }
            Ok(tree)
        },
    }
}

/// The entries of a tree: an ISO 9660 tree takes the paths that its own reader
/// gives to extents.
pub open spec fn tree_entries(tree: TreeView) -> Result<CollectedView, DiskFault> {
    match tree.walked {
        Err(message) => Err(DiskFault::Vfs(message)),
        Ok(walked) => collected(
            walked,
            if tree.kind == "iso9660"@ {
                Some(tree.iso_paths)
            } else {
                None
            },
        ),
    }
}

/// The entries of an image, or why there are none.
pub open spec fn image_entries(image: ImageProbe, allow_logical: bool) -> Result<
    CollectedView,
    DiskFault,
> {
    match mounted(image, allow_logical) {
        Err(fault) => Err(fault),
        Ok(tree) => tree_entries(tree),
    }
}

/// The entries of an image, and the warnings about what was filtered out.
pub fn open_and_collect(image: &ImageProbe, allow_logical: bool) -> (result: Result<
    CollectedEntries,
    VirtualDiskBackendError,
>)
    ensures
        match (result, image_entries(*image, allow_logical)) {
            (Ok(c), Ok(spec)) => c@ == spec,
            (Err(error), Err(spec)) => error@ == spec,
            _ => false,
        },
{
    let tree: &MountedTree = match mount_entry(image, allow_logical) {
        Ok(tree) => tree,
        Err(error) => {
            return Err(error);
        },
    };
    let walked: &Vec<WalkedEntry> = match &tree.walked {
        Ok(walked) => walked,
        Err(message) => {
            return Err(VirtualDiskBackendError::Vfs(message.clone()));
        },
    };
    if crate::text::same_text(tree.kind.as_str(), "iso9660") {
        collect_entries_with_path_map(walked, Some(&tree.iso_paths))
    } else {
        collect_entries_with_path_map(walked, None)
    }
}

/// What the file of an optical image turned out to be.
#[derive(Debug)]
pub enum OpticalProbe {
    /// The file carries the magic of a compressed image.
    Isz {
        /// The header bytes of the file.
        header: Result<Vec<u8>, IoFailure>,
        /// The bytes of the chunk pointer table that the header declares.
        table: Result<Vec<u8>, IoFailure>,
        /// The sector mode that the disc reader detected.
        detected: Option<SectorMode>,
    },
    /// A `DiscJuggler` image with a data track.
    Cdi {
        /// Where the data track lies.
        window: TrackWindow,
        /// Whether that part of the file could be opened.
        cut: Result<(), IoFailure>,
        /// The sector mode that the disc reader detected.
        detected: Option<SectorMode>,
    },
    /// Any other image.
    Disc {
        /// The file that was opened: the image, or its descriptor.
        open_path: String,
        /// Whether the disc reader could open it.
        opened: Result<(), String>,
        /// The sector mode that the disc reader detected.
        detected: Option<SectorMode>,
        /// The length of its data track in bytes.
        track_len: Result<u64, IoFailure>,
    },
}

/// Which kind of optical image a file is taken for first.
#[derive(Debug, Clone, Copy, PartialEq, Eq, Structural)]
pub enum OpticalRoute {
    /// A compressed image.
    Isz,
    /// A `DiscJuggler` image; without a data track it is opened as any other.
    Cdi,
    /// Any other image.
    Disc,
}

/// Which kind of optical image a file is taken for first.
pub fn optical_route(prefix: &[u8], path: &str) -> (route: OpticalRoute)
    ensures
        route == (if has_isz_magic(prefix@) {
            OpticalRoute::Isz
        } else if lower_extension(path@) == Some("cdi"@) {
            OpticalRoute::Cdi
        } else {
            OpticalRoute::Disc
        }),
{
    if is_isz_image(prefix) {
        OpticalRoute::Isz
    } else if has_extension(path, "cdi") {
        OpticalRoute::Cdi
    } else {
        OpticalRoute::Disc
    }
}

/// The bytes that an optical image is read from.
#[derive(Debug)]
pub enum OpticalSource {
    /// The decoded chunks of a compressed image.
    Compressed(IszSource),
    /// The user data of the raw sectors of a compressed image.
    CompressedTrack(IszSource, OpticalTrackSource),
    /// The user data of a track in a file.
    Track {
        /// The part of the file that holds the track; the whole of it if there
        /// is none.
        window: Option<TrackWindow>,
        /// The sectors of the track.
        track: OpticalTrackSource,
    },
}

/// The mode that was detected, or else `fallback`.
pub open spec fn mode_or(detected: Option<SectorMode>, fallback: SectorMode) -> SectorMode {
    match detected {
        Some(mode) => mode,
        None => fallback,
    }
}

/// Whether `track` is a track of `len` bytes with sectors of mode `mode`.
pub open spec fn is_track(track: OpticalTrackSource, mode: SectorMode, len: int) -> bool {
    &&& track.well_formed()
    &&& track.sector_mode == mode
    &&& track.total_logical_bytes == logical_bytes(len, mode)
}

/// Whether `source` holds the chunks of a compressed image.
pub open spec fn is_compressed(source: IszSource, header: Seq<u8>, table: Seq<u8>) -> bool {
    match isz_header(header) {
        Ok(h) => match h.chunk_table_of(table) {
            Ok(chunks) => {
                &&& source.well_formed()
                &&& source.total_size == h.logical_size()
                &&& source.block_size == h.block_size
                &&& source.cached_block is None
                &&& source.chunks@.len() == chunks.len()
                &&& forall|i: int|
                    0 <= i < chunks.len() ==> (#[trigger] source.chunks@[i]).0 == chunks[i]
                        && source.chunks@[i].1 == crate::isz::chunk_start(
                        chunks,
                        h.data_offset as int,
                        i,
                    )
            },
            Err(_) => false,
        },
        Err(_) => false,
    }
}

/// Why a compressed image is refused, if it is.
pub open spec fn isz_fault(
    path: Seq<char>,
    header: Result<Vec<u8>, IoFailure>,
    table: Result<Vec<u8>, IoFailure>,
) -> Option<DiskFault> {
    match header {
        Err(failure) => Some(DiskFault::Io { path, source: failure@ }),
        Ok(header) => match isz_header(header@) {
            Err(message) => Some(DiskFault::NotDiskImage(path + ": "@ + message)),
            Ok(h) => match table {
                Err(failure) => Some(DiskFault::Io { path, source: failure@ }),
                Ok(table) => match h.chunk_table_of(table@) {
                    Err(message) => Some(DiskFault::NotDiskImage(path + ": "@ + message)),
                    Ok(_) => None,
                },
            },
        },
    }
}

/// The bytes that an optical image is read from: the chunks of a compressed
/// image, or the user data of its track. An undetected mode is taken for raw
/// sectors in a compressed image and for plain ones elsewhere.
pub fn open_optical_source(path: &str, probe: &OpticalProbe) -> (source: Result<
    OpticalSource,
    VirtualDiskBackendError,
>)
    ensures
        match *probe {
            OpticalProbe::Isz { header, table, detected } => match isz_fault(path@, header, table) {
                Some(fault) => source matches Err(error) && error@ == fault,
                None => {
                    let h = isz_header(header->Ok_0@)->Ok_0;
                    let mode = mode_or(detected, SectorMode::Raw2352);
                    if h.sector_size == 2352 {
                        source matches Ok(OpticalSource::CompressedTrack(isz, track))
                            && is_compressed(isz, header->Ok_0@, table->Ok_0@) && is_track(
                            track,
                            mode,
                            h.logical_size(),
                        )
                    } else {
                        source matches Ok(OpticalSource::Compressed(isz)) && is_compressed(
                            isz,
                            header->Ok_0@,
                            table->Ok_0@,
                        )
                    }
                },
            },
            OpticalProbe::Cdi { window, cut, detected } => match cut {
                Err(failure) => source matches Err(error) && error@ == (DiskFault::Io {
                    path: path@,
                    source: failure@,
                }),
                Ok(_) => source matches Ok(OpticalSource::Track { window: w, track }) && w == Some(
                    window,
                ) && is_track(track, mode_or(detected, SectorMode::Iso2048), window.len as int),
            },
            OpticalProbe::Disc { open_path, opened, detected, track_len } => match (
                opened,
                track_len,
            ) {
                (Err(message), _) => source matches Err(error) && error@ == DiskFault::NotDiskImage(
                    open_path@ + ": "@ + message@,
                ),
                (Ok(_), Err(failure)) => source matches Err(error) && error@ == (DiskFault::Io {
                    path: path@,
                    source: failure@,
                }),
                (Ok(_), Ok(len)) => source matches Ok(OpticalSource::Track { window: w, track })
                    && w is None && is_track(
                    track,
                    mode_or(detected, SectorMode::Iso2048),
                    len as int,
                ),
            },
        },
{
    match probe {
        OpticalProbe::Isz { header, table, detected } => {
            let header: &Vec<u8> = match header {
                Ok(header) => header,
                Err(failure) => {
                    return Err(
                        VirtualDiskBackendError::Io {
                            path: path.to_owned(),
                            source: failure.copy(),
                        },
                    );
                },
            };
            let h: IszHeader = match IszHeader::read(header.as_slice()) {
                Ok(h) => h,
                Err(message) => {
                    return Err(
                        VirtualDiskBackendError::NotDiskImage(
                            concat3(path, ": ", message.as_str()),
                        ),
                    );
                },
            };
            let table: &Vec<u8> = match table {
                Ok(table) => table,
                Err(failure) => {
                    return Err(
                        VirtualDiskBackendError::Io {
                            path: path.to_owned(),
                            source: failure.copy(),
                        },
                    );
                },
            };
            match h.decode_chunk_table(table.as_slice()) {
                Err(message) => Err(
                    VirtualDiskBackendError::NotDiskImage(concat3(path, ": ", message.as_str())),
                ),
                Ok(chunks) => {
                    let isz: IszSource = IszSource::new(&h, &chunks);
                    if h.sector_size == 2352 {
                        let mode: SectorMode = match detected {
                            Some(mode) => *mode,
                            None => SectorMode::Raw2352,
                        };
                        let track: OpticalTrackSource = OpticalTrackSource::new(mode, isz.len());
                        Ok(OpticalSource::CompressedTrack(isz, track))
                    } else {
                        Ok(OpticalSource::Compressed(isz))
                    }
                },
            }
        },
        OpticalProbe::Cdi { window, cut, detected } => {
            match cut {
                Ok(_) => {},
                Err(failure) => {
                    return Err(
                        VirtualDiskBackendError::Io {
                            path: path.to_owned(),
                            source: failure.copy(),
                        },
                    );
                },
            }
            let mode: SectorMode = match detected {
                Some(mode) => *mode,
                None => SectorMode::Iso2048,
            };
            Ok(
                OpticalSource::Track {
                    window: Some(*window),
                    track: OpticalTrackSource::new(mode, window.len),
                },
            )
        },
        OpticalProbe::Disc { open_path, opened, detected, track_len } => {
            match opened {
                Ok(_) => {},
                Err(message) => {
                    return Err(
                        VirtualDiskBackendError::NotDiskImage(
                            concat3(open_path.as_str(), ": ", message.as_str()),
                        ),
                    );
                },
            }
            let len: u64 = match track_len {
                Ok(len) => *len,
                Err(failure) => {
                    return Err(
                        VirtualDiskBackendError::Io {
                            path: path.to_owned(),
                            source: failure.copy(),
                        },
                    );
                },
            };
            let mode: SectorMode = match detected {
                Some(mode) => *mode,
                None => SectorMode::Iso2048,
            };
            Ok(OpticalSource::Track { window: None, track: OpticalTrackSource::new(mode, len) })
        },
    }
}

/// The logical disk of a VDI image, from its header bytes and its block map.
pub fn open_vdi_source(path: &str, header: &[u8], block_map: &[u8]) -> (source: Result<
    VdiSource,
    VirtualDiskBackendError,
>)
    ensures
        match (source, vdi_header(header@)) {
            (Ok(source), Ok(h)) => {
                &&& source.well_formed()
                &&& source.offset_data == h.offset_data
                &&& source.disk_size == h.disk_size
                &&& source.block_size == h.block_size
                &&& source.bat@ == le_words(block_map@)
            },
            (Err(error), Err(message)) => error@ == DiskFault::NotDiskImage(
                path@ + ": "@ + message,
            ),
            _ => false,
        },
{
    match VdiHeader::read(header) {
        Ok(h) => Ok(VdiSource::new(&h, block_map)),
        Err(message) => Err(
            VirtualDiskBackendError::NotDiskImage(concat3(path, ": ", message.as_str())),
        ),
    }
}

/// Whatever is accepted as a disk image is accepted as a logical container
/// too, with the same tree; nothing else changes but the logical containers.
pub proof fn law_logical_containers_only_add(image: ImageProbe)
    ensures
        mounted(image, false) is Ok ==> mounted(image, true) == mounted(image, false),
        mounted(image, true) matches Ok(tree) ==> mounted(image, false) == mounted(image, true)
            || is_logical_container(tree.kind),
{
}

/// A plain archive that the engine falls back to is never taken for a disk or a
/// container, whatever the file is named.
pub proof fn law_plain_archives_are_refused(path: String, evidence: Evidence, allow_logical: bool)
    requires
        evidence.tree matches Some(tree) && is_plain_archive(tree.kind@),
    ensures
        mounted(
            ImageProbe { path, opened: Opened::Engine { evidence: Ok(evidence) } },
            allow_logical,
        ) matches Err(DiskFault::NotDiskImage(_)),
{
}

/// What the engine finds in a file is accepted unless the file is an archive: a wrapped
/// one, or one of the loose kinds. A logical container is accepted only where it is
/// asked for. What is accepted is the tree as it was found.
pub proof fn law_trees_are_accepted_unless_they_are_archives(
    path: String,
    evidence: Evidence,
    tree: MountedTree,
    allow_logical: bool,
)
    requires
        evidence.tree == Some(tree),
    ensures
        ({
            let kind = tree.kind@;
            let result = mounted(
                ImageProbe { path, opened: Opened::Engine { evidence: Ok(evidence) } },
                allow_logical,
            );
            let accepted = !evidence.archive_layer && kind != "zip"@ && kind != "7z"@ && kind
                != "tar"@ && (allow_logical || (kind != "dar"@ && kind != "aff4"@ && kind
                != "ad1"@));
            &&& accepted ==> result == Ok::<TreeView, DiskFault>(tree@)
            &&& !accepted ==> (result matches Err(DiskFault::NotDiskImage(message))
                && message.len() > path@.len() && message.take(path@.len() as int) == path@)
        }),
{
    let kind = tree.kind@;
    let result = mounted(
        ImageProbe { path, opened: Opened::Engine { evidence: Ok(evidence) } },
        allow_logical,
    );
    reveal_strlit(": resolved to an archive wrapper, not a disk image");
    reveal_strlit(": resolved to a ");
    if let Err(DiskFault::NotDiskImage(message)) = result {
        assert(message.take(path@.len() as int) =~= path@);
    }
}

/// A file without a filesystem is no disk image, and what the engine cannot decode is
/// the engine's failure.
pub proof fn law_files_without_a_filesystem_are_refused(
    path: String,
    evidence: Evidence,
    message: String,
    allow_logical: bool,
)
    ensures
        evidence.tree is None ==> mounted(
            ImageProbe { path, opened: Opened::Engine { evidence: Ok(evidence) } },
            allow_logical,
        ) matches Err(DiskFault::NotDiskImage(_)),
        mounted(
            ImageProbe { path, opened: Opened::Engine { evidence: Err(message) } },
            allow_logical,
        ) == Err::<TreeView, DiskFault>(DiskFault::Vfs(message@)),
{
}

/// A `VirtualBox` image is mounted exactly when its header is accepted, its block map
/// could be read and a filesystem was found in it.
pub proof fn law_vdi_images_are_mounted_when_their_header_is_good(
    path: String,
    header: Result<Vec<u8>, IoFailure>,
    block_map: Result<Vec<u8>, IoFailure>,
    found: Result<Option<MountedTree>, String>,
    allow_logical: bool,
)
    ensures
        ({
            let result = mounted(
                ImageProbe { path, opened: Opened::Vdi { header, block_map, found } },
                allow_logical,
            );
            &&& result is Ok <==> (header matches Ok(bytes) && vdi_header(bytes@) is Ok)
                && block_map is Ok && (found matches Ok(tree) && tree is Some)
            &&& result matches Ok(view) ==> view == found->Ok_0->0@
            &&& header matches Err(failure) ==> result == Err::<TreeView, DiskFault>(
                DiskFault::Io { path: path@, source: failure@ },
            )
            &&& header matches Ok(bytes) ==> vdi_header(bytes@) is Err ==> result matches Err(
                DiskFault::NotDiskImage(_),
            )
        }),
{
}

/// An image is mounted by what it begins with before it is mounted by its name.
pub proof fn law_signatures_come_before_names(prefix: Seq<u8>, path: Seq<char>)
    ensures
        prefix.len() >= 68 && prefix[64] == 0x7f && prefix[65] == 0x10 && prefix[66] == 0xda
            && prefix[67] == 0xbe ==> route_of(prefix, path) == MountRoute::Vdi,
        prefix.len() >= 4 && prefix[0] == 0x49 && prefix[1] == 0x73 && prefix[2] == 0x5a
            && prefix[3] == 0x21 && prefix.len() < 68 ==> route_of(prefix, path)
            == MountRoute::Optical,
        prefix.len() < 4 ==> route_of(prefix, path) == (if names_optical_image(path) {
            MountRoute::Optical
        } else {
            MountRoute::Engine
        }),
{
    if prefix.len() >= 68 {
        crate::bytes::law_words_are_little_endian(prefix, 64);
    }
    if prefix.len() >= 4 && prefix[0] == 0x49 && prefix[1] == 0x73 && prefix[2] == 0x5a && prefix[3]
        == 0x21 {
        assert(prefix.subrange(0, 4) =~= crate::isz::ISZ_MAGIC@);
    }
}

/// The nodes of an ISO 9660 filesystem have the paths that were recorded for their
/// extents; the nodes of any other filesystem have those of their names, whatever was
/// recorded.
pub proof fn law_recorded_paths_are_for_iso_images(tree: TreeView, walked: Seq<WalkedView>)
    requires
        tree.walked == Ok::<Seq<WalkedView>, Seq<char>>(walked),
    ensures
        tree.kind == "iso9660"@ ==> tree_entries(tree) == collected(walked, Some(tree.iso_paths)),
        tree.kind != "iso9660"@ ==> tree_entries(tree) == collected(walked, None),
{
}

/// The mode that was detected is used, and another only where none was.
pub proof fn law_detected_modes_are_used(mode: SectorMode, fallback: SectorMode)
    ensures
        mode_or(Some(mode), fallback) == mode,
        mode_or(None, fallback) == fallback,
{
}

/// An ISZ image can be read exactly where its header and its table could be read and both
/// are well formed.
pub proof fn law_isz_images_need_a_header_and_a_table(
    path: Seq<char>,
    header: Result<Vec<u8>, IoFailure>,
    table: Result<Vec<u8>, IoFailure>,
)
    ensures
        isz_fault(path, header, table) is None <==> {
            &&& header is Ok
            &&& isz_header((header->Ok_0)@) is Ok
            &&& table is Ok
            &&& (isz_header((header->Ok_0)@)->Ok_0).chunk_table_of((table->Ok_0)@) is Ok
        },
        header matches Err(failure) ==> isz_fault(path, header, table) == Some(
            DiskFault::Io { path, source: failure@ },
        ),
{
}

/// A track is read in its mode, and holds as many bytes as that mode keeps of its sectors.
pub proof fn law_tracks_hold_the_bytes_of_their_mode(
    track: OpticalTrackSource,
    mode: SectorMode,
    len: int,
)
    requires
        is_track(track, mode, len),
    ensures
        track.sector_mode == mode,
        track.total_logical_bytes == logical_bytes(len, mode),
{
}

/// A compressed image has the size and the blocks of its header and the chunks of its
/// table, each behind those before it, and nothing is decoded when it is opened.
pub proof fn law_compressed_images_follow_their_header(
    source: IszSource,
    header: Seq<u8>,
    table: Seq<u8>,
)
    requires
        is_compressed(source, header, table),
    ensures
        isz_header(header) matches Ok(h) && {
            &&& source.total_size == h.logical_size()
            &&& source.block_size == h.block_size
            &&& source.cached_block is None
            &&& h.chunk_table_of(table) matches Ok(chunks) && source.chunks@.len() == chunks.len()
                && forall|i: int|
                0 <= i < chunks.len() ==> (#[trigger] source.chunks@[i]).0 == chunks[i]
                    && source.chunks@[i].1 == crate::isz::chunk_start(
                    chunks,
                    h.data_offset as int,
                    i,
                )
        },
{
}

} // verus!
