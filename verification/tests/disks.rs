use std::io::Write;
use zmanager_core::disc::{detect_sector_mode, probe_cdi, read_window, settle_cdi};
use zmanager_core::disk_extract::{
    EntryDecision, ExtractAnswer, WorkOutcome, entry_stops, extract_vhd_with_overwrite_resolver,
};
use zmanager_core::disk_mount::{
    Evidence, ImageProbe, MountRoute, MountedTree, Opened, OpticalProbe, OpticalSource,
    mount_route, open_and_collect, open_optical_source, open_vdi_source,
};
use zmanager_core::disk_run::{
    StreamOutcome, copy_virtual_disk_by_path_occurrence, list_udf, list_vdi, list_vhd, list_vmdk,
    stream_file, test_virtual_disk,
};
use zmanager_core::iso::{iso_path_map, walks_decoded_image};
use zmanager_core::failure::{IoFailure, IoKind};
use zmanager_core::isz::{ISZ_MAGIC, IszHeader, IszSource, is_isz_image};
use zmanager_core::optical::{
    CdiTrack, OpticalTrackSource, SectorMode, TrackWindow, data_track_window, is_optical_image,
    resolve_mdf_descriptor,
};
use zmanager_core::report::TestOptions;
use zmanager_core::vdi::{
    VDI_BLOCK_FREE, VDI_BLOCK_ZERO, VDI_SIGNATURE, VdiHeader, VdiSource, is_vdi_image,
};
use zmanager_core::virtual_disk::{
    Allocation, NodeKind, VirtualDiskBackendError, VirtualDiskEntryKind, WalkedEntry,
    is_logical_container_kind, is_ntfs_metadata_path, is_plain_archive_fallback_kind,
    is_reserved_volume_entry,
};

fn node(id: u64, path: &str, kind: NodeKind, size: u64) -> WalkedEntry {
    WalkedEntry {
        id,
        components: path.split('/').map(|part| part.as_bytes().to_vec()).collect(),
        iso_block: None,
        allocated: Allocation::Allocated,
        kind,
        size,
        link_target: Err("not a link".to_owned()),
    }
}

fn payload_tree(kind: &str) -> MountedTree {
    let mut walked = vec![
        node(1, "payload", NodeKind::Dir, 0),
        node(2, "payload/README.txt", NodeKind::File, 25),
        node(3, "payload/nested", NodeKind::Dir, 0),
        node(4, "payload/nested/file.txt", NodeKind::File, 20),
        node(5, "payload/nested/empty-dir", NodeKind::Dir, 0),
        node(6, "payload/dir with spaces/file with spaces.txt", NodeKind::File, 15),
        node(7, "payload/unicode/こんにちは.txt", NodeKind::File, 21),
    ];
    if kind == "ntfs" {
        walked.push(node(8, "$MFT", NodeKind::File, 4096));
    }
    if kind == "ntfs" || kind == "udf" {
        let mut link = node(9, "payload/nested/readme-link.txt", NodeKind::Symlink, 13);
        link.link_target = Ok(b"../README.txt".to_vec());
        walked.push(link);
    }
    MountedTree { kind: kind.to_owned(), walked: Ok(walked), iso_paths: Vec::new() }
}

fn image(name: &str, tree: Option<MountedTree>) -> ImageProbe {
    ImageProbe {
        path: name.to_owned(),
        opened: Opened::Engine { evidence: Ok(Evidence { tree, archive_layer: false }) },
    }
}

#[test]
fn checked_in_vhd_vmdk_udf_fixtures_list_with_normalized_paths() {
    for (name, kind) in [("basic.vhd", "ntfs"), ("basic.vmdk", "fat"), ("basic.udf", "udf")] {
        let probe = image(name, Some(payload_tree(kind)));
        let listed = match name {
            "basic.vhd" => list_vhd(&probe),
            "basic.vmdk" => list_vmdk(&probe),
            _ => list_udf(&probe),
        };
        let listing = listed.unwrap();
        let paths = listing.iter().map(|entry| entry.path.as_str()).collect::<Vec<_>>();
        assert!(paths.contains(&"payload/README.txt"), "{name}: {paths:?}");
        assert!(paths.contains(&"payload/nested/file.txt"), "{name}: {paths:?}");
        assert!(paths.contains(&"payload/dir with spaces/file with spaces.txt"), "{name}: {paths:?}");
        assert!(paths.contains(&"payload/unicode/こんにちは.txt"), "{name}: {paths:?}");
        assert!(paths.contains(&"payload/nested/empty-dir"), "{name}: {paths:?}");
        assert!(
            listing.iter().all(|entry| !entry.path.starts_with('/') && !entry.path.starts_with("./")),
            "{name} paths must be normalized: {paths:?}"
        );
        assert!(
            listing.iter().all(|entry| entry.size > 0 || entry.kind == VirtualDiskEntryKind::Directory),
            "{name}: non-directory entries must declare sizes"
        );
        assert!(
            !listing.iter().any(|entry| entry.path.starts_with('$')),
            "{name}: NTFS metadata leaked: {paths:?}"
        );
        assert_eq!(
            paths.contains(&"payload/nested/readme-link.txt"),
            name != "basic.vmdk",
            "{name}: {paths:?}"
        );
    }
}

#[test]
fn empty_file_is_rejected_as_not_a_disk_image() {
    let error = list_vhd(&image("empty.vhd", None)).unwrap_err();
    assert!(matches!(error, VirtualDiskBackendError::NotDiskImage(_)), "{}", error.message());
    assert_eq!(
        error.message(),
        "not a supported disk image: empty.vhd: no supported filesystem found in the image"
    );
}

#[test]
fn zip_named_vhd_is_rejected_by_the_disk_guard() {
    let error = list_vhd(&image("fake.vhd", Some(payload_tree("zip")))).unwrap_err();
    let message = error.message();
    assert!(message.contains("not a disk image"), "{message}");

    let wrapped = ImageProbe {
        path: "fake.vhd".to_owned(),
        opened: Opened::Engine {
            evidence: Ok(Evidence { tree: Some(payload_tree("ntfs")), archive_layer: true }),
        },
    };
    assert!(list_vhd(&wrapped).unwrap_err().message().contains("archive wrapper"));
    let failed = ImageProbe {
        path: "fake.vhd".to_owned(),
        opened: Opened::Engine { evidence: Err("broken".to_owned()) },
    };
    assert_eq!(list_vhd(&failed).unwrap_err().message(), "disk image backend error: broken");
}

#[test]
fn a_disk_is_tested_and_copied_by_its_entries() {
    let probe = image("basic.vhd", Some(payload_tree("ntfs")));
    let streamed: Vec<Result<u64, String>> =
        vec![Ok(0), Ok(25), Ok(0), Ok(20), Ok(0), Ok(15), Ok(21), Ok(0), Ok(0)];
    let report = test_virtual_disk(&probe, &TestOptions::default(), &streamed).unwrap();
    assert_eq!(report.tested_entries, 8);
    assert_eq!(report.skipped_entries, 0);
    let some = TestOptions {
        selected_paths: vec!["payload/README.txt".to_owned()],
        cancelled_from: None,
    };
    let report = test_virtual_disk(&probe, &some, &streamed).unwrap();
    assert_eq!(report.tested_entries, 1);
    assert_eq!(report.skipped_entries, 7);
    assert_eq!(report.tested_bytes, 25);
    let stopped = TestOptions { selected_paths: Vec::new(), cancelled_from: Some(0) };
    assert!(matches!(
        test_virtual_disk(&probe, &stopped, &streamed),
        Err(VirtualDiskBackendError::Cancelled)
    ));
    assert_eq!(
        copy_virtual_disk_by_path_occurrence(&probe, "payload/nested/file.txt", 0).unwrap(),
        4
    );
    assert!(matches!(
        copy_virtual_disk_by_path_occurrence(&probe, "payload/nested/file.txt", 1),
        Err(VirtualDiskBackendError::Io { path, source })
            if path == probe.path && source.kind == IoKind::NotFound
    ));
    assert_eq!(stream_file("a", &StreamOutcome::Done(3)).unwrap(), 3);
    assert!(stream_file("a", &StreamOutcome::ReadFailed("x".to_owned())).is_err());
}

fn write_answer(destination: &str, bytes: u64) -> ExtractAnswer {
    ExtractAnswer {
        cancelled: false,
        decision: EntryDecision::Write {
            destination: destination.to_owned(),
            replace_existing: false,
        },
        removed: Ok(()),
        unsupported_symlink: None,
        work: WorkOutcome::Done(bytes),
    }
}

#[test]
fn a_disk_is_extracted_entry_by_entry() {
    let probe = image("basic.vhd", Some(payload_tree("ntfs")));
    let mut answers: Vec<ExtractAnswer> =
        [0, 25, 0, 20, 0, 15, 21, 0].iter().map(|bytes| write_answer("out", *bytes)).collect();
    let run = |root: Result<(), IoFailure>, answers: &Vec<ExtractAnswer>| {
        extract_vhd_with_overwrite_resolver(&probe, "out", &root, answers)
    };
    let report = run(Ok(()), &answers).unwrap();
    assert_eq!(report.written_entries, 5);
    assert_eq!(report.written_bytes, 25 + 20 + 15 + 21);
    answers[3].cancelled = true;
    assert!(matches!(run(Ok(()), &answers), Err(VirtualDiskBackendError::Cancelled)));
    assert!(matches!(
        run(Err(IoFailure::new(IoKind::PermissionDenied, "denied")), &answers),
        Err(VirtualDiskBackendError::Io { path, source })
            if path == "out" && source == IoFailure::new(IoKind::PermissionDenied, "denied")
    ));
    let entry = &open_and_collect(&probe, false).unwrap().entries[1];
    assert!(!entry_stops(entry, &write_answer("out", 25)));
    let mut full = write_answer("out", 0);
    full.work = WorkOutcome::WriteFailed(IoFailure::new(IoKind::Other, "full"));
    assert!(entry_stops(entry, &full));
    full.decision = EntryDecision::Skip { warning: None };
    assert!(!entry_stops(entry, &full));
}

#[test]
fn reserved_metadata_and_logical_filters_are_pure_functions() {
    assert!(is_reserved_volume_entry("payload/\0secret"));
    assert!(!is_reserved_volume_entry("payload/README.txt"));
    assert!(is_ntfs_metadata_path("$MFT"));
    assert!(is_ntfs_metadata_path("$Extend/$ObjId"));
    assert!(!is_ntfs_metadata_path("$Recycle.Bin"));
    assert!(!is_ntfs_metadata_path("payload/README.txt"));
    for (name, expected) in [
        ("dar", true),
        ("aff4", true),
        ("ad1", true),
        ("zip", false),
        ("7z", false),
        ("tar", false),
        ("ntfs", false),
        ("fat", false),
        ("udf", false),
        ("ext", false),
    ] {
        assert_eq!(is_logical_container_kind(name), expected, "is_logical_container_kind({name})");
    }
    for (name, expected) in [
        ("zip", true),
        ("7z", true),
        ("tar", true),
        ("dar", false),
        ("aff4", false),
        ("ad1", false),
        ("ntfs", false),
        ("fat", false),
    ] {
        assert_eq!(
            is_plain_archive_fallback_kind(name),
            expected,
            "is_plain_archive_fallback_kind({name})"
        );
    }
}

/// Writes a VDI header with the documented field offsets.
fn vdi_header(image_type: u32, block_extra: u32, blocks: u32) -> Vec<u8> {
    let mut buf = vec![0_u8; 512];
    buf[64..68].copy_from_slice(&VDI_SIGNATURE.to_le_bytes());
    buf[76..80].copy_from_slice(&image_type.to_le_bytes());
    buf[340..344].copy_from_slice(&512_u32.to_le_bytes());
    buf[344..348].copy_from_slice(&1024_u32.to_le_bytes());
    buf[368..376].copy_from_slice(&10_485_760_u64.to_le_bytes());
    buf[376..380].copy_from_slice(&1_048_576_u32.to_le_bytes());
    buf[380..384].copy_from_slice(&block_extra.to_le_bytes());
    buf[384..388].copy_from_slice(&blocks.to_le_bytes());
    buf
}

#[test]
fn vdi_header_reads_the_documented_offsets() {
    let header = VdiHeader::read(&vdi_header(1, 0, 10)).expect("valid VDI header");
    assert_eq!(header.image_type, 1);
    assert_eq!(header.offset_bmap, 512);
    assert_eq!(header.offset_data, 1024);
    assert_eq!(header.disk_size, 10_485_760);
    assert_eq!(header.block_size, 1_048_576);
    assert_eq!(header.block_extra, 0);
    assert_eq!(header.blocks_in_hdd, 10);

    assert!(is_vdi_image(&vdi_header(1, 0, 10)));
    assert!(!is_vdi_image(b"not a vdi"));
}

#[test]
fn vdi_headers_this_reader_cannot_honour_are_rejected_with_a_reason() {
    for differencing_type in [3_u32, 4] {
        let error = VdiHeader::read(&vdi_header(differencing_type, 0, 10)).unwrap_err();
        assert!(error.contains("parent image"), "type {differencing_type}: {error}");
        assert!(error.contains("clonemedium"), "the error must name a remedy: {error}");
    }

    let error = VdiHeader::read(&vdi_header(1, 64, 10)).unwrap_err();
    assert!(error.contains("per-block extra data"), "{error}");

    let error = VdiHeader::read(&vdi_header(1, 0, u32::MAX)).unwrap_err();
    assert!(error.contains("block limit"), "{error}");

    assert!(VdiHeader::read(&vdi_header(1, 0, 0)).unwrap_err().contains("geometry"));
    assert!(VdiHeader::read(&[0_u8; 16]).unwrap_err().contains("too short"));
    assert!(VdiHeader::read(&[0_u8; 512]).unwrap_err().contains("signature"));
}

#[test]
fn vdi_block_map_sentinels_read_as_zeros() {
    let block_size = 4096_u64;
    let backing = vec![0xAB_u8; block_size as usize];
    let source = VdiSource {
        offset_data: 0,
        disk_size: block_size * 4,
        block_size,
        bat: vec![0, VDI_BLOCK_FREE, VDI_BLOCK_ZERO, VDI_BLOCK_FREE],
    };

    let mut buf: Vec<u8> = Vec::new();
    while (buf.len() as u64) < block_size * 4 {
        let offset = buf.len() as u64;
        let more = source
            .read_at(&backing, offset, (block_size * 4 - offset) as usize)
            .expect("sentinel blocks must not error");
        assert!(!more.is_empty());
        buf.extend_from_slice(&more);
    }
    assert_eq!(buf.len() as u64, block_size * 4);
    assert!(
        buf[..block_size as usize].iter().all(|byte| *byte == 0xAB),
        "the allocated block must come from the file"
    );
    assert!(
        buf[block_size as usize..].iter().all(|byte| *byte == 0),
        "BLOCK_FREE and BLOCK_ZERO must both read as zeros"
    );
}

#[test]
fn non_vdi_bytes_named_vdi_are_rejected() {
    assert_eq!(mount_route(&[0x41_u8; 512], "garbage.vdi"), MountRoute::Engine);
    assert!(list_vdi(&image("garbage.vdi", None)).is_err());

    let probe = ImageProbe {
        path: "diff.vdi".to_owned(),
        opened: Opened::Vdi {
            header: Ok(vdi_header(4, 0, 10)),
            block_map: Ok(Vec::new()),
            found: Ok(None),
        },
    };
    let error = list_vdi(&probe).unwrap_err();
    assert!(error.message().contains("parent image"), "{}", error.message());
    let header = vdi_header(1, 0, 10);
    assert_eq!(mount_route(&header, "disk.bin"), MountRoute::Vdi);
    let source = open_vdi_source("disk.vdi", &header, &[0_u8; 40]).unwrap();
    assert_eq!(source.len(), 10_485_760);
}

/// Some sectors with text, numbers and zeros in them.
fn sectors() -> Vec<u8> {
    let mut payload = vec![0_u8; 2048 * 200];
    for (i, byte) in payload.iter_mut().enumerate().take(2048 * 90) {
        *byte = if i < 65536 { (i / 7 % 251) as u8 } else { b'a' };
    }
    payload
}

/// Builds an ISZ image at the documented 48-byte packed header layout.
fn build_isz(payload: &[u8], sector_size: u16, block_size: u32, ptr_len: u8) -> Vec<u8> {
    let total_sectors = (payload.len() / usize::from(sector_size)) as u32;

    let mut chunk_types = Vec::new();
    let mut chunk_bytes = Vec::new();
    for block in payload.chunks(block_size as usize) {
        if block.iter().all(|byte| *byte == 0) {
            chunk_types.push((0_u8, Vec::new()));
            continue;
        }
        let mut encoder = flate2::write::ZlibEncoder::new(Vec::new(), flate2::Compression::fast());
        encoder.write_all(block).unwrap();
        let compressed = encoder.finish().unwrap();
        if compressed.len() < block.len() {
            chunk_types.push((2_u8, compressed));
        } else {
            chunk_types.push((1_u8, block.to_vec()));
        }
    }
    for (_, bytes) in &chunk_types {
        chunk_bytes.extend_from_slice(bytes);
    }

    let ptr_offset = 48_u32;
    let data_offset = ptr_offset + (chunk_types.len() as u32) * u32::from(ptr_len);

    let mut header = vec![0_u8; 48];
    header[0..4].copy_from_slice(&ISZ_MAGIC);
    header[4] = 48;
    header[5] = 1;
    header[6..10].copy_from_slice(&0x1234_5678_u32.to_le_bytes());
    header[10..12].copy_from_slice(&sector_size.to_le_bytes());
    header[12..16].copy_from_slice(&total_sectors.to_le_bytes());
    header[16] = 0;
    header[17..25].copy_from_slice(&0_u64.to_le_bytes());
    let num_blocks = chunk_types.len() as u32;
    header[25..29].copy_from_slice(&num_blocks.to_le_bytes());
    header[29..33].copy_from_slice(&block_size.to_le_bytes());
    header[33] = ptr_len;
    header[34] = 1;
    header[35..39].copy_from_slice(&ptr_offset.to_le_bytes());
    header[39..43].copy_from_slice(&0_u32.to_le_bytes());
    header[43..47].copy_from_slice(&data_offset.to_le_bytes());

    let type_shift = u32::from(ptr_len) * 8 - 2;
    let mut table = Vec::new();
    for (kind, bytes) in &chunk_types {
        let value = (u32::from(*kind) << type_shift) | (bytes.len() as u32);
        table.extend_from_slice(&value.to_le_bytes()[..usize::from(ptr_len)]);
    }

    let mut out = header;
    out.extend_from_slice(&table);
    out.extend_from_slice(&chunk_bytes);
    out
}

fn chunk_table(header: &IszHeader, bytes: &[u8]) -> Vec<u8> {
    let start = header.ptr_offset as usize;
    let end = start + (header.num_blocks as usize) * usize::from(header.ptr_len);
    bytes[start..end].to_vec()
}

#[test]
fn isz_header_reads_the_documented_packed_layout() {
    let payload = sectors();
    let bytes = build_isz(&payload, 2048, 65536, 3);
    let header = IszHeader::read(&bytes[..48]).expect("valid ISZ header");

    assert_eq!(header.header_size, 48);
    assert_eq!(header.version, 1);
    assert_eq!(header.sector_size, 2048, "sect_size is a u16 at offset 10");
    assert_eq!(header.block_size, 65536, "block_size is a u32 at offset 29");
    assert_eq!(header.ptr_len, 3);
    assert_eq!(header.ptr_offset, 48, "ptr_offs is a u32 at offset 35");
    assert_eq!(header.encryption_type, 0);
    let expected_sectors = (payload.len() / 2048) as u32;
    assert_eq!(header.total_sectors, expected_sectors);
}

#[test]
fn isz_chunk_pointers_split_type_and_length_at_the_top_two_bits() {
    let payload = sectors();
    let bytes = build_isz(&payload, 2048, 65536, 3);
    let header = IszHeader::read(&bytes[..48]).unwrap();
    let chunks = header.decode_chunk_table(&chunk_table(&header, &bytes)).unwrap();

    assert_eq!(chunks.len(), header.num_blocks as usize);
    assert!(
        chunks.iter().all(|chunk| chunk.kind <= 3),
        "chunk types must decode into the documented 0..=3 range"
    );
    assert!(
        chunks.iter().any(|chunk| chunk.kind == 2),
        "the fixture must contain at least one zlib chunk"
    );
    let stored: u64 = chunks.iter().map(|chunk| u64::from(chunk.stored_length)).sum();
    assert_eq!(stored, (bytes.len() - header.data_offset as usize) as u64);
}

#[test]
fn isz_headers_this_reader_cannot_honour_are_rejected_with_a_reason() {
    let base = build_isz(&sectors(), 2048, 65536, 3);

    let mut encrypted = base.clone();
    encrypted[16] = 2;
    let error = IszHeader::read(&encrypted[..48]).unwrap_err();
    assert!(error.contains("encrypted"), "{error}");

    let mut segmented = base.clone();
    segmented[34] = 3;
    let error = IszHeader::read(&segmented[..48]).unwrap_err();
    assert!(error.contains("segments"), "{error}");

    let mut bad_ptr_len = base.clone();
    bad_ptr_len[33] = 9;
    assert!(IszHeader::read(&bad_ptr_len[..48]).unwrap_err().contains("chunk pointer"));

    let mut zero_block = base;
    zero_block[29..33].copy_from_slice(&0_u32.to_le_bytes());
    assert!(IszHeader::read(&zero_block[..48]).unwrap_err().contains("zero chunk size"));

    assert!(IszHeader::read(b"nope").unwrap_err().contains("not an ISZ"));
}

#[test]
fn isz_decodes_byte_identically_to_the_source_image() {
    let payload = sectors();
    for ptr_len in [2_u8, 3] {
        let bytes = build_isz(&payload, 2048, 32768, ptr_len);
        assert!(is_isz_image(&bytes));
        let header = IszHeader::read(&bytes[..48]).unwrap();
        let table = chunk_table(&header, &bytes);
        let chunks = header.decode_chunk_table(&table).unwrap();
        let mut source = IszSource::new(&header, &chunks);

        let aligned_len = (payload.len() / 2048) * 2048;
        assert_eq!(source.len(), aligned_len as u64);

        let mut decoded: Vec<u8> = Vec::new();
        while decoded.len() < aligned_len {
            let offset = decoded.len();
            let more = source.read_at(&bytes, offset as u64, aligned_len - offset).unwrap();
            assert!(!more.is_empty(), "read stalled at {offset}");
            decoded.extend_from_slice(&more);
        }
        assert_eq!(decoded, payload[..aligned_len], "decoded ISZ bytes must match the source ISO");

        let probe = OpticalProbe::Isz {
            header: Ok(bytes[..48].to_vec()),
            table: Ok(table),
            detected: Some(SectorMode::Iso2048),
        };
        match open_optical_source("disc.isz", &probe).unwrap() {
            OpticalSource::Compressed(opened) => assert_eq!(opened.len(), aligned_len as u64),
            _ => panic!("a cooked image needs no sector unpacking"),
        }
    }
}

#[test]
fn packings_of_one_image_read_alike() {
    let payload = sectors();
    let read = |block_size: u32, ptr_len: u8| {
        let bytes = build_isz(&payload, 2048, block_size, ptr_len);
        let header = IszHeader::read(&bytes[..48]).unwrap();
        let chunks = header.decode_chunk_table(&chunk_table(&header, &bytes)).unwrap();
        let mut source = IszSource::new(&header, &chunks);
        source.read_at(&bytes, 0, payload.len()).unwrap()
    };
    assert_eq!(read(32768, 3), payload);
    assert_eq!(read(4096, 4), payload);
    assert_eq!(read(65536, 3), read(8192, 4));
}

#[test]
fn a_part_of_a_chunk_is_cut_out_and_filled_up() {
    let payload = sectors();
    let bytes = build_isz(&payload, 2048, 4096, 3);
    let header = IszHeader::read(&bytes[..48]).unwrap();
    let chunks = header.decode_chunk_table(&chunk_table(&header, &bytes)).unwrap();
    let source = IszSource::new(&header, &chunks);
    let chunk = source.decode_chunk(&bytes, 1).unwrap();
    assert_eq!(source.part_of_chunk(&chunk, 4096 + 100, 10), payload[4196..4206]);
    assert_eq!(source.part_of_chunk(&chunk, 4096 + 4000, 500), payload[8096..8192]);
    assert_eq!(source.part_of_chunk(&chunk[..50], 4096 + 100, 4), vec![0; 4]);
    assert_eq!(
        source.decode_chunk(&bytes, chunks.len()).unwrap_err(),
        IoFailure::new(IoKind::UnexpectedEof, "ISZ chunk index out of range")
    );
    assert_eq!(source.decode_chunk(&bytes[..60], 0).unwrap_err().kind, IoKind::UnexpectedEof);
}

#[test]
fn isz_decodes_bzip2_chunks() {
    let block = vec![7_u8; 4096];
    let mut encoder = bzip2::write::BzEncoder::new(Vec::new(), bzip2::Compression::fast());
    encoder.write_all(&block).unwrap();
    let stored = encoder.finish().unwrap();
    let mut bytes = build_isz(&block, 2048, 4096, 3);
    bytes.truncate(48);
    let value = (3_u32 << 22) | stored.len() as u32;
    bytes.extend_from_slice(&value.to_le_bytes()[..3]);
    bytes.extend_from_slice(&stored);
    let header = IszHeader::read(&bytes[..48]).unwrap();
    let chunks = header.decode_chunk_table(&chunk_table(&header, &bytes)).unwrap();
    assert_eq!(chunks[0].kind, 3);
    let mut source = IszSource::new(&header, &chunks);
    assert_eq!(source.read_at(&bytes, 0, 4096).unwrap(), block);
}

#[test]
fn mdf_prefers_its_sibling_mds_descriptor() {
    assert_eq!(resolve_mdf_descriptor("dir/disc.mdf", false, false), None);
    assert_eq!(
        resolve_mdf_descriptor("dir/disc.mdf", true, false).as_deref(),
        Some("dir/disc.mds")
    );
    assert_eq!(
        resolve_mdf_descriptor("dir/disc.mdf", false, true).as_deref(),
        Some("dir/disc.MDS")
    );
    assert_eq!(resolve_mdf_descriptor("dir/disc.iso", true, true), None);
}

#[test]
fn optical_extension_set_matches_the_registered_format_kinds() {
    for reachable in [
        "disc.iso", "disc.nrg", "disc.mds", "disc.mdf", "disc.cdi", "disc.ccd", "disc.cue",
        "disc.bin", "disc.img",
    ] {
        assert!(is_optical_image(reachable), "{reachable}");
    }
    for unreachable in ["disc.b5t", "disc.b5i", "disc.toc", "archive.zip", "noextension"] {
        assert!(
            !is_optical_image(unreachable),
            "{unreachable} has no registered format kind and must not be claimed"
        );
    }
}

#[test]
fn raw_sectors_yield_their_user_data() {
    let mut track = Vec::new();
    for sector in 0..3_u8 {
        track.extend_from_slice(&[0xEE; 16]);
        track.extend_from_slice(&[sector; 2048]);
        track.extend_from_slice(&[0xEE; 288]);
    }
    let source = OpticalTrackSource::new(SectorMode::Raw2352, track.len() as u64);
    assert_eq!(source.len(), 3 * 2048);
    let data = source.read_at(&track, 2048, 2048).unwrap();
    assert!(!data.is_empty() && data.iter().all(|byte| *byte == 1));
    let window = data_track_window(&vec![
        CdiTrack { audio: true, start_sector: 0, length_sectors: 10, raw_bytes_per_sector: 2352 },
        CdiTrack { audio: false, start_sector: 10, length_sectors: 4, raw_bytes_per_sector: 2048 },
    ]);
    assert!(window.is_some());
}

fn both_endian_16(value: u16) -> [u8; 4] {
    let (l, b) = (value.to_le_bytes(), value.to_be_bytes());
    [l[0], l[1], b[0], b[1]]
}

fn both_endian_32(value: u32) -> [u8; 8] {
    let (l, b) = (value.to_le_bytes(), value.to_be_bytes());
    [l[0], l[1], l[2], l[3], b[0], b[1], b[2], b[3]]
}

fn directory_record(name: &[u8], block: u32, size: u32, directory: bool) -> Vec<u8> {
    let mut record = vec![0_u8; 33];
    record[2..10].copy_from_slice(&both_endian_32(block));
    record[10..18].copy_from_slice(&both_endian_32(size));
    record[18..25].copy_from_slice(&[126, 1, 1, 0, 0, 0, 0]);
    record[25] = if directory { 2 } else { 0 };
    record[28..32].copy_from_slice(&both_endian_16(1));
    record[32] = name.len() as u8;
    record.extend_from_slice(name);
    if record.len() % 2 == 1 {
        record.push(0);
    }
    record[0] = record.len() as u8;
    record
}

/// An ISO 9660 image with one file in its root directory.
fn small_iso() -> Vec<u8> {
    let mut image = vec![0_u8; 2048 * 32];
    let root = directory_record(&[0], 20, 2048, true);
    let pvd = 16 * 2048;
    image[pvd] = 1;
    image[pvd + 1..pvd + 6].copy_from_slice(b"CD001");
    image[pvd + 6] = 1;
    for byte in &mut image[pvd + 8..pvd + 72] {
        *byte = b' ';
    }
    image[pvd + 80..pvd + 88].copy_from_slice(&both_endian_32(32));
    image[pvd + 120..pvd + 124].copy_from_slice(&both_endian_16(1));
    image[pvd + 124..pvd + 128].copy_from_slice(&both_endian_16(1));
    image[pvd + 128..pvd + 132].copy_from_slice(&both_endian_16(2048));
    image[pvd + 156..pvd + 156 + 34].copy_from_slice(&root[..34]);
    image[pvd + 881] = 1;
    let end = 17 * 2048;
    image[end] = 255;
    image[end + 1..end + 6].copy_from_slice(b"CD001");
    image[end + 6] = 1;
    let mut directory = root.clone();
    directory.extend_from_slice(&directory_record(&[1], 20, 2048, true));
    directory.extend_from_slice(&directory_record(b"README.TXT;1", 21, 6, false));
    image[20 * 2048..20 * 2048 + directory.len()].copy_from_slice(&directory);
    image[21 * 2048..21 * 2048 + 6].copy_from_slice(b"hello\n");
    image
}

fn walk_iso(image: &[u8]) -> Option<Vec<(u32, String)>> {
    let mut reader = iso9660_forensic::IsoReader::open(std::io::Cursor::new(image)).ok()?;
    let walked = reader.walk().ok()?;
    Some(walked.into_iter().map(|entry| (entry.record.lba, entry.path)).collect())
}

#[test]
fn iso_paths_come_from_the_optical_image_first() {
    let image = small_iso();
    let paths = vec![(21, "README.TXT".to_owned())];
    let map = iso_path_map(b"", "disc.iso", walk_iso(&image), None);
    assert_eq!(map, paths);
    let map = iso_path_map(b"", "disc.dat", Some(Vec::new()), walk_iso(&image));
    assert_eq!(map, paths);
    let map = iso_path_map(b"", "disc.iso", walk_iso(&[0; 4096]), walk_iso(&image));
    assert_eq!(map, paths);
    assert!(iso_path_map(b"", "disc.iso", None, walk_iso(&[1; 64])).is_empty());
    assert!(walks_decoded_image(b"", "disc.iso"));
    assert!(!walks_decoded_image(b"", "disc.dat"));
}

/// Twenty sectors whose sector sixteen holds a volume descriptor, stored with
/// `lead` bytes before the user data of sectors of `size` bytes.
fn described_track(size: usize, lead: usize, synced: bool) -> Vec<u8> {
    let mut track = vec![0u8; 20 * size];
    if synced {
        for byte in &mut track[1..11] {
            *byte = 0xff;
        }
    }
    let at = 16 * size + lead + 1;
    track[at..at + 5].copy_from_slice(b"CD001");
    track
}

#[test]
fn sector_modes_are_detected_by_the_volume_descriptor() {
    assert_eq!(
        detect_sector_mode(&described_track(2048, 0, false)),
        Some(SectorMode::Iso2048)
    );
    for (size, lead, mode) in [
        (2352, 16, SectorMode::Raw2352),
        (2352, 24, SectorMode::Raw2352Mode2),
        (2448, 16, SectorMode::Raw2448),
        (2448, 24, SectorMode::Raw2448Mode2),
    ] {
        let track = described_track(size, lead, true);
        assert_eq!(detect_sector_mode(&track), Some(mode));
        assert_eq!(detect_sector_mode(&described_track(size, lead, false)), None);
        let source = OpticalTrackSource::new(mode, track.len() as u64);
        assert_eq!(source.read_at(&track, 32_769, 5).ok().unwrap(), b"CD001".to_vec());
    }
    assert_eq!(
        detect_sector_mode(&described_track(2336, 8, false)),
        Some(SectorMode::Mode2Raw2336)
    );
    assert_eq!(detect_sector_mode(&[0; 4096]), None);
    assert_eq!(detect_sector_mode(&[]), None);
}

fn cdi_record(track_mode: u32, start: u32, length: u32, read_mode: u32) -> Vec<u8> {
    let mut record = vec![0u8; 16];
    record.push(0);
    record.extend_from_slice(&[0; 29 + 2 + 2 + 4 + 2]);
    record.extend_from_slice(&track_mode.to_le_bytes());
    record.extend_from_slice(&[0; 12]);
    record.extend_from_slice(&start.to_le_bytes());
    record.extend_from_slice(&length.to_le_bytes());
    record.extend_from_slice(&[0; 16]);
    record.extend_from_slice(&read_mode.to_le_bytes());
    record.extend_from_slice(&[0; 4 + 9 + 12 + 4 + 87 + 1 + 5 + 2 + 4]);
    record
}

/// A `DiscJuggler` image: an audio track of two sectors, and the given data track
/// of plain sectors after it.
fn cdi_image(data: &[u8]) -> Vec<u8> {
    let sectors = (data.len() / 2048) as u32;
    let mut descriptor = vec![1u8, 0, 2, 0, 0, 0, 0, 0, 0, 0, 1, 0, 0, 0, 0xff, 0xff];
    descriptor.extend(cdi_record(0, 150, 2, 2));
    descriptor.extend(cdi_record(1, 150 + 3, sectors, 0));
    let mut image = vec![0u8; 3 * 2048];
    image.extend_from_slice(data);
    let length = descriptor.len() as u32 + 8;
    image.extend(descriptor);
    image.extend_from_slice(&0x8000_0006u32.to_le_bytes());
    image.extend_from_slice(&length.to_le_bytes());
    image
}

#[test]
fn the_data_track_of_a_disc_juggler_image_is_found() {
    let data = described_track(2048, 0, false);
    let image = cdi_image(&data);
    let Some(OpticalProbe::Cdi { window, cut, detected }) = probe_cdi(&image) else {
        panic!("the image has a data track");
    };
    assert_eq!(window, TrackWindow { start: 3 * 2048, len: data.len() as u64 });
    assert_eq!(cut, Ok(()));
    assert_eq!(detected, Some(SectorMode::Iso2048));
    assert_eq!(read_window(&image, window), data);
    assert_eq!(read_window(&image, TrackWindow { start: 1 << 40, len: 7 }), Vec::<u8>::new());

    assert!(probe_cdi(&data).is_none());
    let audio = CdiTrack {
        audio: true,
        start_sector: 0,
        length_sectors: 2,
        raw_bytes_per_sector: 2352,
    };
    assert!(settle_cdi(&image, &Some(vec![audio])).is_none());
    assert!(settle_cdi(&image, &None).is_none());
}
