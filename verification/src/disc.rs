//! Finding the data track of a disc image in memory, and how its sectors are
//! stored.
use crate::bytes::push_range;
use crate::disk_mount::OpticalProbe;
use crate::optical::{CdiTrack, OpticalTrackSource, SectorMode, TrackWindow, data_track_window};
#[allow(unused_imports)]
use crate::optical::first_data_window;
use vstd::prelude::*;

verus! {

/// Whether the letters that mark a volume descriptor stand at `at` in a track.
pub open spec fn marked_at(track: Seq<u8>, at: int) -> bool {
    at + 5 <= track.len() && track.subrange(at, at + 5) == seq![
        0x43u8,
        0x44u8,
        0x30u8,
        0x30u8,
        0x31u8,
    ]
}

/// Whether sector sixteen of a track, stored in a mode, holds a volume
/// descriptor.
pub open spec fn described(track: Seq<u8>, mode: SectorMode) -> bool {
    marked_at(track, 16 * mode.size() + mode.data_offset() + 1)
}

/// Whether a track begins with the pattern that raw sectors begin with.
pub open spec fn synced(track: Seq<u8>) -> bool {
    track.len() >= 12 && track.take(12) == seq![
        0x00u8,
        0xffu8,
        0xffu8,
        0xffu8,
        0xffu8,
        0xffu8,
        0xffu8,
        0xffu8,
        0xffu8,
        0xffu8,
        0xffu8,
        0x00u8,
    ]
}

/// How the sectors of a track are stored, as far as its volume descriptor tells:
/// the first mode that has one in its place, where raw sectors have to begin with
/// their pattern.
pub open spec fn detected_mode(track: Seq<u8>) -> Option<SectorMode> {
    if described(track, SectorMode::Iso2048) {
        Some(SectorMode::Iso2048)
    } else if described(track, SectorMode::Raw2352) && synced(track) {
        Some(SectorMode::Raw2352)
    } else if described(track, SectorMode::Raw2352Mode2) && synced(track) {
        Some(SectorMode::Raw2352Mode2)
    } else if described(track, SectorMode::Raw2448) && synced(track) {
        Some(SectorMode::Raw2448)
    } else if described(track, SectorMode::Raw2448Mode2) && synced(track) {
        Some(SectorMode::Raw2448Mode2)
    } else if described(track, SectorMode::Mode2Raw2336) {
        Some(SectorMode::Mode2Raw2336)
    } else {
        None
    }
}

/// Calls `iso9660_forensic::SectorMode::detect` on the bytes of a track. Claimed:
/// the mode is the first one whose sector sixteen holds the letters of a volume
/// descriptor, and the modes with a sync field need their pattern at the start of
/// the track; an error of the call, which is that nothing was found, is `None`.
#[verifier::external_body]
fn detect_mode(track: &[u8]) -> (mode: Option<SectorMode>)
    ensures
        mode == detected_mode(track@),
{
    let mode = iso9660_forensic::SectorMode::detect(&mut std::io::Cursor::new(track)).ok()?;
    Some(match mode {
        iso9660_forensic::SectorMode::Iso2048 => SectorMode::Iso2048,
        iso9660_forensic::SectorMode::Raw2352 => SectorMode::Raw2352,
        iso9660_forensic::SectorMode::Raw2352Mode2 => SectorMode::Raw2352Mode2,
        iso9660_forensic::SectorMode::Raw2448 => SectorMode::Raw2448,
        iso9660_forensic::SectorMode::Raw2448Mode2 => SectorMode::Raw2448Mode2,
        iso9660_forensic::SectorMode::Mode2_2336 => SectorMode::Mode2Raw2336,
    })
}

/// How the sectors of a track are stored.
pub fn detect_sector_mode(track: &[u8]) -> (mode: Option<SectorMode>)
    ensures
        mode == detected_mode(track@),
{
    detect_mode(track)
}

/// The track table that `cdi::tracks` of iso9660-forensic reads from a
/// `DiscJuggler` image, if it finds one.
pub uninterp spec fn cdi_track_table(file: Seq<u8>) -> Option<Seq<CdiTrack>>;

/// A track table, taken by its view.
pub open spec fn table_view(tracks: Option<Vec<CdiTrack>>) -> Option<Seq<CdiTrack>> {
    match tracks {
        Some(tracks) => Some(tracks@),
        None => None,
    }
}

/// Calls `iso9660_forensic::cdi::tracks` on the bytes of a file, and keeps of each
/// track whether it holds audio, where it is, and how its sectors are stored. The
/// table is a function of the bytes.
#[verifier::external_body]
fn read_cdi_tracks(file: &[u8]) -> (tracks: Option<Vec<CdiTrack>>)
    ensures
        table_view(tracks) == cdi_track_table(file@),
{
    let tracks = iso9660_forensic::cdi::tracks(&mut std::io::Cursor::new(file))?;
    Some(tracks.into_iter().map(|track| CdiTrack {
        audio: match track.kind {
            iso9660_forensic::cdi::CdiTrackKind::Audio => true,
            iso9660_forensic::cdi::CdiTrackKind::Mode1 => false,
            iso9660_forensic::cdi::CdiTrackKind::Mode2Formless => false,
        },
        start_sector: track.start_sector,
        length_sectors: track.length_sectors,
        raw_bytes_per_sector: track.raw_bytes_per_sector,
    }).collect())
}

/// Where a position past the end of a file is taken for its end.
pub open spec fn clipped(at: int, len: nat) -> int {
    if at <= len {
        at
    } else {
        len as int
    }
}

/// The bytes of a file that lie in a window.
pub open spec fn window_bytes(file: Seq<u8>, window: TrackWindow) -> Seq<u8> {
    file.subrange(
        clipped(window.start as int, file.len()),
        clipped(window.start + window.len, file.len()),
    )
}

/// The bytes of a file that lie in a window.
pub fn read_window(file: &[u8], window: TrackWindow) -> (bytes: Vec<u8>)
    ensures
        bytes@ == window_bytes(file@, window),
{
    let len: u64 = file.len() as u64;
    let from: u64 = if window.start <= len {
        window.start
    } else {
        len
    };
    let to: u64 = if window.len <= len - from {
        from + window.len
    } else {
        len
    };
    assert(file@.len() == file.len());
    let mut bytes: Vec<u8> = Vec::new();
    push_range(&mut bytes, file, from as usize, to as usize);
    assert(bytes@ =~= window_bytes(file@, window));
    bytes
}

/// What is found about a `DiscJuggler` image whose tracks are known: its first
/// data track and how that is stored.
pub open spec fn cdi_probe(file: Seq<u8>, tracks: Option<Seq<CdiTrack>>) -> Option<
    (TrackWindow, Option<SectorMode>),
> {
    match tracks {
        None => None,
        Some(tracks) => match first_data_window(tracks) {
            None => None,
            Some(window) => Some((window, detected_mode(window_bytes(file, window)))),
        },
    }
}

/// What is found about a `DiscJuggler` image, given its track table.
pub fn settle_cdi(file: &[u8], tracks: &Option<Vec<CdiTrack>>) -> (probe: Option<OpticalProbe>)
    ensures
        match cdi_probe(file@, table_view(*tracks)) {
            None => probe is None,
            Some((found, mode)) => probe matches Some(OpticalProbe::Cdi {
                window,
                cut,
                detected,
            }) && window == found && cut is Ok && detected == mode,
        },
{
    let tracks: &Vec<CdiTrack> = match tracks {
        Some(tracks) => tracks,
        None => {
            return None;
        },
    };
    match data_track_window(tracks) {
        Some(window) => {
            let track: Vec<u8> = read_window(file, window);
            Some(
                OpticalProbe::Cdi {
                    window,
                    cut: Ok(()),
                    detected: detect_mode(track.as_slice()),
                },
            )
        },
        None => None,
    }
}

/// What is found about a `DiscJuggler` image in memory; `None` where it has no
/// data track.
pub fn probe_cdi(file: &[u8]) -> (probe: Option<OpticalProbe>)
    ensures
        match cdi_probe(file@, cdi_track_table(file@)) {
            None => probe is None,
            Some((found, mode)) => probe matches Some(OpticalProbe::Cdi {
                window,
                cut,
                detected,
            }) && window == found && cut is Ok && detected == mode,
        },
{
    let tracks: Option<Vec<CdiTrack>> = read_cdi_tracks(file);
    settle_cdi(file, &tracks)
}

/// A detected mode is one in which the track can be read: sector sixteen of what
/// the track source reads, at byte 32768, holds the letters of a volume descriptor
/// in its second byte.
pub proof fn law_detected_tracks_are_readable(track: Seq<u8>, source: OpticalTrackSource)
    requires
        detected_mode(track) == Some(source.sector_mode),
    ensures
        source.covered(track, 32_769, 32_774),
        source.contents(track, 32_769, 32_774) == seq![
            0x43u8,
            0x44u8,
            0x30u8,
            0x30u8,
            0x31u8,
        ],
{
    let mode = source.sector_mode;
    let at = 16 * mode.size() + mode.data_offset() + 1;
    assert(described(track, mode));
    assert forall|o: int| 32_769 <= o < 32_774 implies #[trigger] source.place(o) == at
        + (o - 32_769) by {
        assert(o / 2048 == 16 && o % 2048 == o - 32_768);
    }
    let contents = source.contents(track, 32_769, 32_774);
    assert forall|i: int| 0 <= i < 5 implies contents[i] == track.subrange(at, at + 5)[i] by {
        assert(source.place(32_769 + i) == at + i);
    }
    assert(contents =~= track.subrange(at, at + 5));
}

/// What is cut out of a file is the part from the start of the window to its end, as
/// far as the file reaches.
pub proof fn law_windows_are_cut_out_of_the_file(file: Seq<u8>, window: TrackWindow)
    ensures
        window.start + window.len <= file.len() ==> window_bytes(file, window) == file.subrange(
            window.start as int,
            window.start + window.len,
        ),
        window.start <= file.len() < window.start + window.len ==> window_bytes(file, window)
            == file.skip(window.start as int),
        window.start > file.len() ==> window_bytes(file, window).len() == 0,
{
    if window.start <= file.len() < window.start + window.len {
        assert(window_bytes(file, window) =~= file.skip(window.start as int));
    }
}

/// An image of a disc is read at its first data track, in the mode that the bytes of that
/// track show; one without a table of tracks or without a data track is none.
pub proof fn law_images_are_read_at_their_first_data_track(
    file: Seq<u8>,
    tracks: Seq<CdiTrack>,
    window: TrackWindow,
)
    ensures
        first_data_window(tracks) == Some(window) ==> cdi_probe(file, Some(tracks)) == Some(
            (window, detected_mode(window_bytes(file, window))),
        ),
        first_data_window(tracks) is None ==> cdi_probe(file, Some(tracks)) is None,
        cdi_probe(file, None) is None,
{
}

} // verus!
