//! Optical disc images: which files are such images, where the data track of
//! an image lies, and the logical sectors inside raw ones.
use crate::bytes::push_range;
use crate::paths::{has_extension, lower_extension, replace_extension, with_extension};
#[allow(unused_imports)]
use crate::text::lower_all;
use crate::vdi::ShortFile;
use vstd::arithmetic::div_mod::lemma_fundamental_div_mod;
use vstd::prelude::*;

verus! {

/// How the sectors of a track are stored. The 2048 bytes of user data of a
/// sector lie at an offset that depends on the mode.
#[derive(Debug, Clone, Copy, PartialEq, Eq, Structural)]
pub enum SectorMode {
    /// 2048 bytes of pure user data.
    Iso2048,
    /// Raw Mode 1: 2352 bytes.
    Raw2352,
    /// Raw XA Mode 2 Form 1: 2352 bytes.
    Raw2352Mode2,
    /// Raw Mode 1 with subchannel: 2448 bytes.
    Raw2448,
    /// Raw XA Mode 2 Form 1 with subchannel: 2448 bytes.
    Raw2448Mode2,
    /// Mode 2 without sync and header: 2336 bytes.
    Mode2Raw2336,
}

impl SectorMode {
    /// Bytes that one sector takes in the image.
    pub open spec fn size(self) -> int {
        match self {
            SectorMode::Iso2048 => 2048,
            SectorMode::Raw2352 => 2352,
            SectorMode::Raw2352Mode2 => 2352,
            SectorMode::Raw2448 => 2448,
            SectorMode::Raw2448Mode2 => 2448,
            SectorMode::Mode2Raw2336 => 2336,
        }
    }

    /// Where the user data starts inside a sector.
    pub open spec fn data_offset(self) -> int {
        match self {
            SectorMode::Iso2048 => 0,
            SectorMode::Raw2352 => 16,
            SectorMode::Raw2352Mode2 => 24,
            SectorMode::Raw2448 => 16,
            SectorMode::Raw2448Mode2 => 24,
            SectorMode::Mode2Raw2336 => 8,
        }
    }

    /// `iso9660_forensic::SectorMode::physical_sector_size`: the bytes that one
    /// sector of each mode takes.
    #[verifier::external_body]
    fn sector_size(self) -> (size: u64)
        ensures
            size == self.size(),
    {
        let mode = match self {
            SectorMode::Iso2048 => iso9660_forensic::SectorMode::Iso2048,
            SectorMode::Raw2352 => iso9660_forensic::SectorMode::Raw2352,
            SectorMode::Raw2352Mode2 => iso9660_forensic::SectorMode::Raw2352Mode2,
            SectorMode::Raw2448 => iso9660_forensic::SectorMode::Raw2448,
            SectorMode::Raw2448Mode2 => iso9660_forensic::SectorMode::Raw2448Mode2,
            SectorMode::Mode2Raw2336 => iso9660_forensic::SectorMode::Mode2_2336,
        };
        mode.physical_sector_size()
    }

    /// `iso9660_forensic::SectorMode::user_data_pos`: where the user data of a
    /// sector starts in the image. The position must be representable.
    #[verifier::external_body]
    fn data_position(self, lba: u64) -> (position: u64)
        requires
            lba * self.size() + self.data_offset() <= u64::MAX,
        ensures
            position == lba * self.size() + self.data_offset(),
    {
        let mode = match self {
            SectorMode::Iso2048 => iso9660_forensic::SectorMode::Iso2048,
            SectorMode::Raw2352 => iso9660_forensic::SectorMode::Raw2352,
            SectorMode::Raw2352Mode2 => iso9660_forensic::SectorMode::Raw2352Mode2,
            SectorMode::Raw2448 => iso9660_forensic::SectorMode::Raw2448,
            SectorMode::Raw2448Mode2 => iso9660_forensic::SectorMode::Raw2448Mode2,
            SectorMode::Mode2Raw2336 => iso9660_forensic::SectorMode::Mode2_2336,
        };
        mode.user_data_pos(lba)
    }
}

/// The user data of a track of `track_len` bytes: 2048 bytes for each sector
/// that it holds in full.
pub open spec fn logical_bytes(track_len: int, mode: SectorMode) -> int {
    (track_len / mode.size()) * 2048
}

/// A track of an optical disc, read as its logical sectors of 2048 bytes.
#[derive(Debug)]
pub struct OpticalTrackSource {
    /// How the sectors are stored.
    pub sector_mode: SectorMode,
    /// Bytes of user data in the track.
    pub total_logical_bytes: u64,
}

/// A run of bytes of a track.
#[derive(Debug, Clone, Copy, PartialEq, Eq, Structural)]
pub struct TrackRun {
    /// Where the run starts in the track.
    pub offset: u64,
    /// How many bytes it holds.
    pub len: usize,
}

impl OpticalTrackSource {
    /// The track holds whole sectors, and the end of each is representable.
    pub open spec fn well_formed(self) -> bool {
        &&& self.total_logical_bytes % 2048 == 0
        &&& (self.total_logical_bytes / 2048) * self.sector_mode.size() <= u64::MAX
    }

    /// Where the logical byte at `offset` lies in the track.
    pub open spec fn place(self, offset: int) -> int {
        (offset / 2048) * self.sector_mode.size() + self.sector_mode.data_offset() + offset % 2048
    }

    /// The logical bytes from `from` up to `to` of a track.
    pub open spec fn contents(self, track: Seq<u8>, from: int, to: int) -> Seq<u8> {
        Seq::new((to - from) as nat, |i: int| track[self.place(from + i)])
    }

    /// Whether the track holds every byte from `from` up to `to`.
    pub open spec fn covered(self, track: Seq<u8>, from: int, to: int) -> bool {
        forall|o: int| from <= o < to ==> #[trigger] self.place(o) < track.len()
    }

    /// Where a read of `len` bytes at `offset` ends.
    pub open spec fn read_end(self, offset: int, len: int) -> int {
        if offset + len <= self.total_logical_bytes {
            offset + len
        } else if offset <= self.total_logical_bytes {
            self.total_logical_bytes as int
        } else {
            offset
        }
    }

    /// The logical sectors of a track of `track_len` bytes.
    pub fn new(sector_mode: SectorMode, track_len: u64) -> (source: Self)
        ensures
            source.well_formed(),
            source.sector_mode == sector_mode,
            source.total_logical_bytes == logical_bytes(track_len as int, sector_mode),
    {
        let size: u64 = sector_mode.sector_size();
        let sectors: u64 = track_len / size;
        proof {
            lemma_fundamental_div_mod(track_len as int, size as int);
            assert(size * sectors == sectors * size) by (nonlinear_arith);
            assert(sectors * 2048 <= sectors * size) by (nonlinear_arith)
                requires
                    size >= 2048,
                    sectors >= 0,
            ;
        }
        OpticalTrackSource { sector_mode, total_logical_bytes: sectors * 2048 }
    }

    /// Bytes of user data in the track.
    pub fn len(&self) -> (len: u64)
        ensures
            len == self.total_logical_bytes,
    {
        self.total_logical_bytes
    }

    /// The longest run of at most `want` logical bytes at `offset` that stays
    /// in one sector.
    pub fn run_at(&self, offset: u64, want: usize) -> (run: TrackRun)
        requires
            self.well_formed(),
            offset < self.total_logical_bytes,
            want > 0,
        ensures
            0 < run.len <= want,
            offset + run.len <= self.total_logical_bytes,
            forall|i: int|
                0 <= i < run.len ==> #[trigger] self.place(offset + i) == run.offset + i,
    {
        let lba: u64 = offset / 2048;
        let in_sector: u64 = offset % 2048;
        let mut len: u64 = 2048 - in_sector;
        if want as u64 <= len {
            len = want as u64;
        }
        if self.total_logical_bytes - offset < len {
            len = self.total_logical_bytes - offset;
        }
        let ghost size = self.sector_mode.size();
        proof {
            let sectors = self.total_logical_bytes / 2048;
            assert((lba + 1) * size <= sectors * size) by (nonlinear_arith)
                requires
                    lba + 1 <= sectors,
                    size >= 0,
            ;
            assert((lba + 1) * size == lba * size + size) by (nonlinear_arith);
            assert forall|i: int| 0 <= i < len implies #[trigger] self.place(offset + i)
                == lba * size + self.sector_mode.data_offset() + in_sector + i by {
                assert((offset + i) / 2048 == lba && (offset + i) % 2048 == in_sector + i);
            }
        }
        let start: u64 = self.sector_mode.data_position(lba) + in_sector;
        TrackRun { offset: start, len: len as usize }
    }

    /// Reads at most `len` logical bytes at `offset` of a track. Reading stops
    /// at the end of its user data.
    pub fn read_at(&self, track: &[u8], offset: u64, len: usize) -> (data: Result<
        Vec<u8>,
        ShortFile,
    >)
        requires
            self.well_formed(),
        ensures
            ({
                let end = self.read_end(offset as int, len as int);
                match data {
                    Ok(data) => self.covered(track@, offset as int, end) && data@ == self.contents(
                        track@,
                        offset as int,
                        end,
                    ),
                    Err(_) => !self.covered(track@, offset as int, end),
                }
            }),
    {
        let mut out: Vec<u8> = Vec::new();
        let ghost end = self.read_end(offset as int, len as int);
        let mut at: u64 = offset;
        let mut left: usize = len;
        while left > 0 && at < self.total_logical_bytes
            invariant
                self.well_formed(),
                end == self.read_end(offset as int, len as int),
                offset <= at,
                at - offset + left == len,
                at <= end || at == offset,
                self.covered(track@, offset as int, at as int),
                out@ == self.contents(track@, offset as int, at as int),
            decreases left,
        {
            let run: TrackRun = self.run_at(at, left);
            let ghost before = at as int;
            if run.offset > track.len() as u64 || track.len() as u64 - run.offset < run.len as u64 {
                proof {
                    let bad: int = run.len - 1;
                    assert(self.place(before + bad) == run.offset + bad);
                }
                return Err(ShortFile);
            }
            let from: usize = run.offset as usize;
            push_range(&mut out, track, from, from + run.len);
            at = at + run.len as u64;
            left = left - run.len;
            proof {
                assert forall|o: int| offset <= o < at implies #[trigger] self.place(o)
                    < track@.len() by {
                    if o >= before {
                        assert(self.place(before + (o - before)) == run.offset + (o - before));
                    }
                }
                assert(out@ =~= self.contents(track@, offset as int, at as int)) by {
                    assert forall|k: int| 0 <= k < out@.len() implies out@[k] == self.contents(
                        track@,
                        offset as int,
                        at as int,
                    )[k] by {
                        if k >= before - offset {
                            let i = k - (before - offset);
                            assert(self.place(before + i) == run.offset + i);
                        }
                    }
                }
            }
        }
        Ok(out)
    }
}

/// Whether a file with the lower-case extension `ext` is an optical disc image
/// or a sector dump.
pub open spec fn is_optical_extension(ext: Seq<char>) -> bool {
    ||| ext == "iso"@
    ||| ext == "nrg"@
    ||| ext == "mds"@
    ||| ext == "mdf"@
    ||| ext == "cdi"@
    ||| ext == "ccd"@
    ||| ext == "cue"@
    ||| ext == "bin"@
    ||| ext == "img"@
}

/// Whether `path` names an optical disc image or a sector dump.
pub open spec fn names_optical_image(path: Seq<char>) -> bool {
    match lower_extension(path) {
        Some(ext) => is_optical_extension(ext),
        None => false,
    }
}

/// Whether `path` names an optical disc image or a sector dump: a registered
/// image extension, or one of the data files that a descriptor sheet points
/// at (`.bin` for `.cue`, `.img` for `.ccd`).
pub fn is_optical_image(path: &str) -> (r: bool)
    ensures
        r == names_optical_image(path@),
{
    has_extension(path, "iso") || has_extension(path, "nrg") || has_extension(path, "mds")
        || has_extension(path, "mdf") || has_extension(path, "cdi") || has_extension(path, "ccd")
        || has_extension(path, "cue") || has_extension(path, "bin") || has_extension(path, "img")
}

/// The `.mds` descriptor to open in place of a `.mdf` track file: the lower-case
/// sibling if it exists, else the upper-case one.
pub open spec fn mdf_descriptor(path: Seq<char>, lower: bool, upper: bool) -> Option<Seq<char>> {
    if lower_extension(path) != Some("mdf"@) {
        None
    } else if lower {
        Some(with_extension(path, "mds"@))
    } else if upper {
        Some(with_extension(path, "MDS"@))
    } else {
        None
    }
}

/// Resolves an Alcohol 120% `.mdf` to its sibling `.mds` descriptor, which
/// carries the track table. `lower_exists` and `upper_exists` say whether the
/// siblings with the extensions `mds` and `MDS` are files.
pub fn resolve_mdf_descriptor(path: &str, lower_exists: bool, upper_exists: bool) -> (descriptor:
    Option<String>)
    ensures
        match descriptor {
            Some(d) => mdf_descriptor(path@, lower_exists, upper_exists) == Some(d@),
            None => mdf_descriptor(path@, lower_exists, upper_exists) is None,
        },
{
    if !has_extension(path, "mdf") {
        return None;
    }
    if lower_exists {
        return Some(replace_extension(path, "mds"));
    }
    if upper_exists {
        return Some(replace_extension(path, "MDS"));
    }
    None
}

/// A track of a `DiscJuggler` image.
#[derive(Debug, Clone, Copy, PartialEq, Eq, Structural)]
pub struct CdiTrack {
    /// Whether the track holds audio.
    pub audio: bool,
    /// First sector of the track.
    pub start_sector: u32,
    /// Length in sectors.
    pub length_sectors: u32,
    /// Bytes stored per sector; zero where the image does not say.
    pub raw_bytes_per_sector: u16,
}

/// A part of an image file.
#[derive(Debug, Clone, Copy, PartialEq, Eq, Structural)]
pub struct TrackWindow {
    /// Where the part starts.
    pub start: u64,
    /// How many bytes it holds.
    pub len: u64,
}

/// The part of the file that holds a track.
pub open spec fn window_of(track: CdiTrack) -> TrackWindow {
    let sector: int = if track.raw_bytes_per_sector > 0 {
        track.raw_bytes_per_sector as int
    } else {
        2048
    };
    TrackWindow {
        start: (track.start_sector * sector) as u64,
        len: (track.length_sectors * sector) as u64,
    }
}

/// The part of the file that holds the first data track.
pub open spec fn first_data_window(tracks: Seq<CdiTrack>) -> Option<TrackWindow>
    decreases tracks.len(),
{
    if tracks.len() == 0 {
        None
    } else if !tracks[0].audio {
        Some(window_of(tracks[0]))
    } else {
        first_data_window(tracks.subrange(1, tracks.len() as int))
    }
}

/// The part of a `DiscJuggler` image that holds its first data track.
pub fn data_track_window(tracks: &Vec<CdiTrack>) -> (window: Option<TrackWindow>)
    ensures
        window == first_data_window(tracks@),
{
    let mut i: usize = 0;
    assert(tracks@.subrange(0, tracks@.len() as int) == tracks@);
    while i < tracks.len()
        invariant
            i <= tracks@.len(),
            first_data_window(tracks@) == first_data_window(
                tracks@.subrange(i as int, tracks@.len() as int),
            ),
        decreases tracks@.len() - i,
    {
        let track: CdiTrack = tracks[i];
        let ghost rest = tracks@.subrange(i as int, tracks@.len() as int);
        assert(rest[0] == track);
        if !track.audio {
            let sector: u64 = if track.raw_bytes_per_sector > 0 {
                track.raw_bytes_per_sector as u64
            } else {
                2048
            };
            assert(track.start_sector * sector <= 4_294_967_295 * 65_535) by (nonlinear_arith)
                requires
                    track.start_sector <= 4_294_967_295,
                    sector <= 65_535,
            ;
            assert(track.length_sectors * sector <= 4_294_967_295 * 65_535) by (nonlinear_arith)
                requires
                    track.length_sectors <= 4_294_967_295,
                    sector <= 65_535,
            ;
            return Some(
                TrackWindow {
                    start: track.start_sector as u64 * sector,
                    len: track.length_sectors as u64 * sector,
                },
            );
        }
        assert(rest.subrange(1, rest.len() as int) == tracks@.subrange(
            i + 1,
            tracks@.len() as int,
        ));
        i = i + 1;
    }
    None
}

/// A whole sector of user data lies inside its stored sector, so that reads of
/// different sectors never overlap.
pub proof fn law_sectors_do_not_overlap(source: OpticalTrackSource, a: int, b: int)
    requires
        0 <= a < b,
    ensures
        source.place(a) < source.place(b),
{
    let size = source.sector_mode.size();
    let x = a / 2048;
    let y = b / 2048;
    if x < y {
        assert((x + 1) * size <= y * size) by (nonlinear_arith)
            requires
                x + 1 <= y,
                size >= 0,
        ;
        assert((x + 1) * size == x * size + size) by (nonlinear_arith);
    } else {
        assert(x == y);
    }
}

/// A track that holds all its declared sectors can be read in full.
pub proof fn law_whole_tracks_are_readable(source: OpticalTrackSource, track: Seq<u8>)
    requires
        source.total_logical_bytes == logical_bytes(track.len() as int, source.sector_mode),
    ensures
        source.covered(track, 0, source.total_logical_bytes as int),
{
    let size = source.sector_mode.size();
    let sectors = track.len() as int / size;
    lemma_fundamental_div_mod(track.len() as int, size);
    assert forall|o: int| 0 <= o < source.total_logical_bytes implies #[trigger] source.place(o)
        < track.len() by {
        let lba = o / 2048;
        assert((lba + 1) * size <= sectors * size) by (nonlinear_arith)
            requires
                lba + 1 <= sectors,
                size >= 0,
        ;
        assert((lba + 1) * size == lba * size + size) by (nonlinear_arith);
        assert(size * sectors == sectors * size) by (nonlinear_arith);
    }
}

/// Where the user data of a sector lies: stored sectors follow each other without a
/// gap, and in each the 2048 bytes of user data lie behind what the mode stores before
/// them.
pub proof fn law_sectors_are_read_where_they_lie(
    source: OpticalTrackSource,
    track: Seq<u8>,
    sector: int,
    from: int,
    to: int,
)
    requires
        0 <= sector,
        0 <= from <= to <= 2048,
    ensures
        ({
            let (stored, lead): (int, int) = match source.sector_mode {
                SectorMode::Iso2048 => (2048, 0),
                SectorMode::Raw2352 => (2352, 16),
                SectorMode::Raw2352Mode2 => (2352, 24),
                SectorMode::Raw2448 => (2448, 16),
                SectorMode::Raw2448Mode2 => (2448, 24),
                SectorMode::Mode2Raw2336 => (2336, 8),
            };
            let start = sector * stored + lead;
            start + to <= track.len() ==> {
                &&& source.covered(track, sector * 2048 + from, sector * 2048 + to)
                &&& source.contents(track, sector * 2048 + from, sector * 2048 + to)
                    == track.subrange(start + from, start + to)
            }
        }),
{
    let start = sector * source.sector_mode.size() + source.sector_mode.data_offset();
    assert(0 <= sector * source.sector_mode.size()) by (nonlinear_arith)
        requires
            0 <= sector,
            0 <= source.sector_mode.size(),
    ;
    assert forall|o: int|
        sector * 2048 + from <= o < sector * 2048 + to implies #[trigger] source.place(o) == start
        + (o - sector * 2048) by {
        vstd::arithmetic::div_mod::lemma_fundamental_div_mod_converse(
            o,
            2048,
            sector,
            o - sector * 2048,
        );
    }
    if start + to <= track.len() {
        assert(source.contents(track, sector * 2048 + from, sector * 2048 + to)
            =~= track.subrange(start + from, start + to));
    }
}

/// A track has 2048 bytes of user data for every whole sector that it stores, and a
/// read ends with them.
pub proof fn law_tracks_have_the_user_data_of_their_whole_sectors(
    mode: SectorMode,
    sectors: int,
    more: int,
    source: OpticalTrackSource,
    offset: int,
    len: int,
)
    requires
        0 <= sectors,
        0 <= more < mode.size(),
        0 <= offset,
        0 <= len,
    ensures
        logical_bytes(sectors * mode.size() + more, mode) == sectors * 2048,
        source.read_end(offset, len) - offset == (if offset >= source.total_logical_bytes {
            0
        } else if len <= source.total_logical_bytes - offset {
            len
        } else {
            source.total_logical_bytes - offset
        }),
{
    vstd::arithmetic::div_mod::lemma_fundamental_div_mod_converse(
        sectors * mode.size() + more,
        mode.size(),
        sectors,
        more,
    );
}

/// The data track of a disc is its first track that holds no audio. It begins at its
/// start sector and has as many bytes as its sectors have; a sector of unknown size has
/// 2048.
pub proof fn law_the_data_track_is_the_first_without_audio(tracks: Seq<CdiTrack>)
    ensures
        match first_data_window(tracks) {
            Some(window) => exists|k: int|
                {
                    let track = #[trigger] tracks[k];
                    let sector = if track.raw_bytes_per_sector == 0 {
                        2048
                    } else {
                        track.raw_bytes_per_sector as int
                    };
                    &&& 0 <= k < tracks.len()
                    &&& !track.audio
                    &&& forall|j: int| 0 <= j < k ==> (#[trigger] tracks[j]).audio
                    &&& window.start == track.start_sector * sector
                    &&& window.len == track.length_sectors * sector
                },
            None => forall|j: int| 0 <= j < tracks.len() ==> (#[trigger] tracks[j]).audio,
        },
    decreases tracks.len(),
{
    if tracks.len() > 0 {
        let head = tracks[0];
        let rest = tracks.subrange(1, tracks.len() as int);
        if !head.audio {
            let sector: int = if head.raw_bytes_per_sector == 0 {
                2048
            } else {
                head.raw_bytes_per_sector as int
            };
            assert(0 <= head.start_sector * sector <= 0xFFFF_FFFF * 0xFFFF) by (nonlinear_arith)
                requires
                    0 <= head.start_sector <= 0xFFFF_FFFF,
                    0 <= sector <= 0xFFFF,
            ;
            assert(0 <= head.length_sectors * sector <= 0xFFFF_FFFF * 0xFFFF) by (nonlinear_arith)
                requires
                    0 <= head.length_sectors <= 0xFFFF_FFFF,
                    0 <= sector <= 0xFFFF,
            ;
            assert(!tracks[0].audio);
        } else {
            law_the_data_track_is_the_first_without_audio(rest);
            if first_data_window(rest) is Some {
                let k = choose|k: int|
                    {
                        let track = #[trigger] rest[k];
                        let sector = if track.raw_bytes_per_sector == 0 {
                            2048
                        } else {
                            track.raw_bytes_per_sector as int
                        };
                        &&& 0 <= k < rest.len()
                        &&& !track.audio
                        &&& forall|j: int| 0 <= j < k ==> (#[trigger] rest[j]).audio
                        &&& first_data_window(rest)->0.start == track.start_sector * sector
                        &&& first_data_window(rest)->0.len == track.length_sectors * sector
                    };
                assert(tracks[k + 1] == rest[k]);
                assert forall|j: int| 0 <= j < k + 1 implies (#[trigger] tracks[j]).audio by {
                    if j > 0 {
                        assert(tracks[j] == rest[j - 1]);
                    }
                }
            } else {
                assert forall|j: int| 0 <= j < tracks.len() implies (
                #[trigger] tracks[j]).audio by {
                    if j > 0 {
                        assert(tracks[j] == rest[j - 1]);
                    }
                }
            }
        }
    }
}

/// A file is taken for an optical image by its extension, in any case, and whatever
/// stands before it.
pub proof fn law_optical_images_are_told_by_their_extension(stem: Seq<char>, ext: Seq<char>)
    requires
        stem.len() > 0,
        stem.last() != '/',
        ext.len() > 0,
        !ext.contains('.'),
        !ext.contains('/'),
    ensures
        names_optical_image(stem.push('.') + ext) <==> {
            let lower = lower_all(ext);
            lower == "iso"@ || lower == "nrg"@ || lower == "mds"@ || lower == "mdf"@ || lower
                == "cdi"@ || lower == "ccd"@ || lower == "cue"@ || lower == "bin"@ || lower
                == "img"@
        },
{
    crate::paths::law_extensions_follow_the_last_dot(stem, ext, ext);
}

/// The descriptor of an `.mdf` image is the file beside it that has `mds` for its
/// extension, in lower case if that is there, else in upper case if that is. Other
/// images have none.
pub proof fn law_descriptors_lie_beside_their_image(
    stem: Seq<char>,
    ext: Seq<char>,
    lower: bool,
    upper: bool,
)
    requires
        stem.len() > 0,
        stem.last() != '/',
        ext.len() > 0,
        !ext.contains('.'),
        !ext.contains('/'),
    ensures
        mdf_descriptor(stem.push('.') + ext, lower, upper) == (if lower_all(ext) != "mdf"@ {
            None
        } else if lower {
            Some(stem.push('.') + "mds"@)
        } else if upper {
            Some(stem.push('.') + "MDS"@)
        } else {
            None
        }),
{
    crate::paths::law_extensions_follow_the_last_dot(stem, ext, "mds"@);
    crate::paths::law_extensions_follow_the_last_dot(stem, ext, "MDS"@);
}

} // verus!
