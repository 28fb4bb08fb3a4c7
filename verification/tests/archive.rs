use tzap_core::{
    ArchiveTimestamp, KdfParams as CoreKdf, MasterKey, RegularFile, WriterOptions,
    write_archive_unencrypted, write_archive_with_kdf,
};
use zmanager_core::failure::{IoFailure, IoKind};
use zmanager_core::tzap::archive::{
    ArchiveIndexEntry, ExtractFailure, TarEntryKind, TzapArchive, TzapEntryKind,
    copy_tzap_files_to_writer, copy_tzap_files_to_writer_with_recipient_key,
    list_tzap_with_optional_password, list_tzap_with_password, list_tzap_with_recipient_key,
    test_tzap_with_password_filter, test_tzap_with_password_filter_and_x509_trust,
    test_tzap_with_recipient_key_bytes_filter_and_x509_trust,
    test_tzap_with_recipient_key_filter_and_x509_trust, tzap_extract_error,
};
use zmanager_core::tzap::error::{FormatFault, TzapError};
use zmanager_core::tzap::headers::{
    PublicTzapHeader, VolumeFile, aead_algorithm_label, check_headers,
    compression_algorithm_label, fec_algorithm_label, kdf_algorithm_label,
    read_public_tzap_header_from, read_tzap_crypto_header_bytes_from,
    summarize_tzap_public_metadata, validate_public_tzap_volume_header,
    validate_volume_set_member,
};
use zmanager_core::tzap::inventory::TzapX509TrustOptions;
use zmanager_core::tzap::keys::{
    KdfParams, KeyRoute, OpenPlan, RecipientWrapOpenStats, TzapRecipientPrivateKeyLookup,
    choose_key_route, create_kdf_params, derive_from_passphrase,
    open_tzap_archive_with_key_options_multi, placeholder_master_key, plan_open, read_kdf_params,
    settle_kdf_params, settle_key,
};
use zmanager_core::tzap::metadata::{
    MetadataDiagnostic, MetadataDiagnosticStatus, MetadataOperation, PublicNoKeyDiagnostic,
    RootAuthDiagnostic, metadata_diagnostic_labels, public_no_key_diagnostic_labels,
    root_auth_diagnostic_labels,
};
use zmanager_core::tzap::reader::{
    StoredKind, StoredMember, find_volumes_key, open_tzap_volumes, read_tzap_file, settle_members,
};
use zmanager_core::tzap::opening::{ArchiveInput, settle_opened_archive};
use zmanager_core::tzap::single_file::{
    CommitAnswer, CommitMove, MoveAnswer, SingleFileAnswer, extract_tzap_file_to_destination,
};
use zmanager_core::tzap::volumes::{SiblingFile, VolumeCandidate};

fn core_kdf() -> CoreKdf {
    CoreKdf::Argon2id { t_cost: 1, m_cost_kib: 8, parallelism: 1, salt: b"12345678".to_vec() }
}

fn core_key() -> MasterKey {
    MasterKey::derive_from_passphrase(&core_kdf(), "secret").unwrap()
}

fn create_test_tzap_archive(files: &[RegularFile<'_>]) -> Vec<Vec<u8>> {
    let options = WriterOptions {
        stripe_width: 4,
        volume_loss_tolerance: 0,
        bit_rot_buffer_pct: 0,
        zstd_level: 1,
        ..WriterOptions::default()
    };
    write_archive_with_kdf(files, &core_key(), options, &core_kdf()).unwrap().volumes
}

fn volume_name(index: usize) -> String {
    format!("sample.vol{index:03}.tzap")
}

fn siblings(count: usize) -> Vec<SiblingFile> {
    (0..count).map(|index| SiblingFile { name: volume_name(index), exists: true }).collect()
}

fn volume_files(volumes: &[Vec<u8>]) -> Vec<VolumeFile> {
    volumes
        .iter()
        .enumerate()
        .map(|(index, volume)| VolumeFile {
            path: format!("/data/{}", volume_name(index)),
            size: Ok(volume.len() as u64),
            head: Ok(volume.clone()),
        })
        .collect()
}

fn opened(volumes: &Vec<Vec<u8>>) -> TzapArchive {
    open_tzap_volumes("/data/sample.tzap", volumes, Some("secret")).unwrap()
}

fn input(volumes: &[Vec<u8>], archive: Result<TzapArchive, TzapError>) -> ArchiveInput {
    ArchiveInput {
        path: "/data/sample.tzap".to_owned(),
        volumes: (0..volumes.len())
            .map(|index| VolumeCandidate {
                path: format!("/data/{}", volume_name(index)),
                exists: true,
            })
            .collect(),
        first_file: Ok(volumes[0].clone()),
        opened: volumes.iter().map(|_| Ok(())).collect(),
        archive,
    }
}

fn opened_input(volumes: &Vec<Vec<u8>>) -> ArchiveInput {
    input(volumes, Ok(opened(volumes)))
}

fn single_file(modified: ArchiveTimestamp) -> Vec<Vec<u8>> {
    let file = RegularFile { mtime: modified, ..RegularFile::new("payload.txt", b"payload") };
    write_archive_unencrypted(&[file], WriterOptions { zstd_level: 1, ..WriterOptions::default() })
        .unwrap()
        .volumes
}

#[test]
fn list_tzap_with_optional_password_includes_precise_portable_metadata() {
    let volumes = single_file(ArchiveTimestamp::new(1_700_000_000, 123_456_700));

    let archive = open_tzap_volumes("/data/public.tzap", &volumes, None);
    let listing = list_tzap_with_optional_password(&input(&volumes, archive), None).unwrap();
    assert_eq!(listing.entries.len(), 1);
    assert_eq!(listing.entries[0].path, "payload.txt");
    assert_eq!(listing.entries[0].mode, 0o644);
    assert_eq!(listing.entries[0].mtime, 1_700_000_000);
    assert_eq!(listing.entries[0].mtime_nanoseconds, 123_456_700);
}

#[test]
fn list_tzap_with_optional_password_includes_mtime() {
    let volumes = single_file(ArchiveTimestamp::from_seconds(1_700_000_000));

    let archive = open_tzap_volumes("/data/public.tzap", &volumes, None);
    let listing = list_tzap_with_optional_password(&input(&volumes, archive), None).unwrap();
    assert_eq!(listing.entries.len(), 1);
    assert_eq!(listing.entries[0].path, "payload.txt");
    assert_ne!(listing.entries[0].mtime, 0);
}

#[test]
fn tests_selected_extract_uses_seekable_core_for_numbered_volumes() {
    let large = vec![7u8; 1024 * 1024];
    let volumes = create_test_tzap_archive(&[
        RegularFile::new("large.bin", &large),
        RegularFile::new("nested/small.txt", b"small target"),
    ]);
    let name = "/data/sample.vol001.tzap";

    let archive = open_tzap_volumes(name, &volumes, Some("secret"));
    let archive = input(&volumes, archive);
    let listing = list_tzap_with_password(&archive, "secret").unwrap();
    assert!(listing.entries.iter().any(|entry| entry.path == "nested/small.txt"));

    let content =
        read_tzap_file(name, &volumes, Some("secret"), "nested/small.txt").unwrap().unwrap();
    assert_eq!(content, b"small target".to_vec());
    let written = extract_tzap_file_to_destination(
        &archive,
        "secret",
        "nested/small.txt",
        "/out/selected.txt",
        false,
        &SingleFileAnswer {
            lookup: Some(Ok(Some(content.len() as u64))),
            root: Some(Ok("/out/.tmp".to_owned())),
            held: Some(Ok(true)),
            commit: CommitAnswer {
                directory: Some(Ok(())),
                removed: None,
                moved: Some(MoveAnswer {
                    how: CommitMove::LinkNew,
                    existed: false,
                    outcome: Ok(()),
                }),
            },
            root_removed: true,
        },
    )
    .unwrap();
    assert_eq!(written, Some(12));
}

#[test]
fn an_archive_in_memory_is_opened_with_its_password_alone() {
    let volumes = create_test_tzap_archive(&[RegularFile::new("hello.txt", b"hello")]);
    assert_eq!(find_volumes_key("/data/a.tzap", &volumes, Some("secret")).unwrap(), core_key().0);
    assert_eq!(
        open_tzap_volumes("/data/a.tzap", &volumes, None).err().unwrap(),
        TzapError::PasswordRequired
    );
    assert!(matches!(
        open_tzap_volumes("/data/a.tzap", &Vec::new(), None),
        Err(TzapError::Io { path, source })
            if path == "/data/a.tzap" && source.kind == IoKind::NotFound
    ));
    assert!(matches!(
        open_tzap_volumes("/data/a.tzap", &volumes, Some("other")),
        Err(TzapError::Format(_))
    ));
    assert!(read_tzap_file("/data/a.tzap", &volumes, Some("other"), "hello.txt").is_err());

    let archive = opened(&volumes);
    assert_eq!(
        archive.index,
        Ok(vec![ArchiveIndexEntry { path: "hello.txt".to_owned(), file_data_size: 5 }])
    );
    assert_eq!(archive.intact, Ok(()));
    assert_eq!(read_tzap_file("/data/a.tzap", &volumes, Some("secret"), "gone.txt").unwrap(), None);
}

#[test]
fn a_fault_of_the_format_keeps_its_variant() {
    let volumes = create_test_tzap_archive(&[RegularFile::new("hello.txt", b"hello")]);
    let name = "/data/a.tzap";
    let open = |volumes: &[Vec<u8>], password| {
        match open_tzap_volumes(name, &volumes.to_vec(), password) {
            Err(TzapError::Format(fault)) => fault,
            _ => panic!("the volumes must be refused for their format"),
        }
    };
    assert_eq!(
        open(&volumes, Some("other")),
        FormatFault::Other("HMAC verification failed for CryptoHeader".to_owned())
    );
    assert_eq!(
        open(&volumes[..1], Some("secret")),
        FormatFault::InvalidArchive(
            "missing volume count exceeds volume_loss_tolerance".to_owned()
        )
    );
    assert_eq!(
        open(&[volumes[0].clone(), volumes[0].clone()], Some("secret")),
        FormatFault::InvalidArchive("duplicate authenticated volume index".to_owned())
    );
    assert_eq!(
        open(&[vec![0; 300]], None),
        FormatFault::Other("bad magic for VolumeHeader".to_owned())
    );
    assert_eq!(
        read_tzap_file(name, &volumes, Some("secret"), "../hello.txt").unwrap_err(),
        TzapError::Format(FormatFault::UnsafeArchivePath)
    );
}

#[test]
fn a_damaged_volume_is_found_out() {
    let mut volumes = create_test_tzap_archive(&[RegularFile::new("hello.txt", b"hello")]);
    assert!(test_tzap_with_password_filter(&opened_input(&volumes), "secret", &vec![true]).is_ok());
    for volume in &mut volumes {
        let len = volume.len();
        for byte in &mut volume[len / 4..len - len / 4] {
            *byte ^= 0x5a;
        }
    }
    let damaged = open_tzap_volumes("/data/sample.tzap", &volumes, Some("secret"));
    let selected = match &damaged {
        Ok(TzapArchive { files: Ok(files), .. }) => vec![true; files.len()],
        _ => Vec::new(),
    };
    let damaged = input(&volumes, damaged);
    assert!(test_tzap_with_password_filter(&damaged, "secret", &selected).is_err());
}

#[test]
fn devices_and_pipes_are_not_listed() {
    let stored = |kind| StoredMember {
        path: "dev/null".to_owned(),
        kind,
        size: 0,
        mode: 0o666,
        seconds: 0,
        nanoseconds: 0,
    };
    assert_eq!(
        settle_members(Ok(vec![stored(StoredKind::Hardlink)])).unwrap()[0].kind,
        TarEntryKind::Hardlink
    );
    for kind in [StoredKind::CharacterDevice, StoredKind::BlockDevice, StoredKind::Fifo] {
        assert!(matches!(
            settle_members(Ok(vec![stored(StoredKind::Regular), stored(kind)])),
            Err(FormatFault::ReaderUnsupported(_))
        ));
    }
}

#[test]
fn tests_public_metadata_summary_reads_numbered_volume_headers_without_password() {
    let volumes = create_test_tzap_archive(&[RegularFile::new("hello.txt", b"hello")]);

    let summary = summarize_tzap_public_metadata(
        "/data/sample.tzap",
        false,
        &siblings(4),
        &Ok(volumes[0].clone()),
        &volume_files(&volumes),
    )
    .unwrap();

    assert_eq!(summary.expected_volume_count, 4);
    assert_eq!(summary.present_volume_count, 4);
    assert_eq!(summary.missing_volume_indices, Vec::<usize>::new());
    assert_eq!(summary.volumes.len(), 4);
    assert!(summary.format.password_required);
    assert_eq!(summary.format.volume_loss_tolerance, 0);
    assert_eq!(summary.format.bit_rot_buffer_percentage, 0);
    assert_eq!(summary.total_size, volumes.iter().map(Vec::len).sum::<usize>() as u64);
}

#[test]
fn a_missing_volume_is_counted() {
    let volumes = create_test_tzap_archive(&[RegularFile::new("hello.txt", b"hello")]);
    let mut present = siblings(4);
    present.remove(2);
    let mut files = volume_files(&volumes);
    files.remove(2);

    let summary = summarize_tzap_public_metadata(
        "/data/sample.tzap",
        false,
        &present,
        &Ok(volumes[0].clone()),
        &files,
    )
    .unwrap();
    assert_eq!(summary.expected_volume_count, 4);
    assert_eq!(summary.present_volume_count, 3);
    assert_eq!(summary.missing_volume_indices, vec![2]);
}

#[test]
fn public_headers_are_read_field_by_field() {
    let volumes = create_test_tzap_archive(&[RegularFile::new("hello.txt", b"hello")]);
    let header = read_public_tzap_header_from("/data/sample.vol001.tzap", &volumes[1]).unwrap();
    assert_eq!(header.volume_header.volume_index, 1);
    assert_eq!(header.volume_header.stripe_width, 4);
    assert_eq!(header.volume_header.format_version, tzap_core::FORMAT_VERSION);
    assert_eq!(header.volume_header.archive_uuid.to_vec(), volumes[1][16..32].to_vec());
    assert_eq!(header.crypto_header.stripe_width, 4);

    let (volume, crypto) =
        read_tzap_crypto_header_bytes_from("/data/sample.vol001.tzap", &volumes[1]).unwrap();
    assert_eq!(volume, header.volume_header);
    let offset = volume.crypto_header_offset as usize;
    let length = volume.crypto_header_length as usize;
    assert_eq!(crypto, volumes[1][offset..offset + length].to_vec());

    assert!(read_public_tzap_header_from("/data/short.tzap", &volumes[1][..100]).is_err());
    assert!(read_public_tzap_header_from("/data/other.tzap", &[7; 4096]).is_err());
}

fn public_header(volume: &[u8]) -> PublicTzapHeader {
    read_public_tzap_header_from("/data/v.tzap", volume).unwrap()
}

#[test]
fn volumes_of_two_archives_are_not_mixed() {
    let volumes = create_test_tzap_archive(&[RegularFile::new("hello.txt", b"hello")]);
    let others = create_test_tzap_archive(&[RegularFile::new("hello.txt", b"hello")]);
    let first = public_header(&volumes[0]);
    assert!(validate_volume_set_member(&first, &public_header(&volumes[3])).is_ok());
    assert!(validate_volume_set_member(&first, &public_header(&others[3])).is_err());
    let other = public_header(&others[3]);
    assert!(
        validate_public_tzap_volume_header(&first.volume_header, &other.volume_header).is_err()
    );
}

#[test]
fn a_crypto_header_must_parse_and_agree_with_its_volume() {
    let volumes = create_test_tzap_archive(&[RegularFile::new("hello.txt", b"hello")]);
    let (volume, bytes) = read_tzap_crypto_header_bytes_from("/data/v.tzap", &volumes[0]).unwrap();
    assert!(matches!(
        check_headers(volume, bytes, Err(FormatFault::UnsafeArchivePath)),
        Err(TzapError::Format(FormatFault::UnsafeArchivePath))
    ));
}

#[test]
fn algorithms_have_labels() {
    assert_eq!(compression_algorithm_label(tzap_core::CompressionAlgo::ZstdFramed as u16), "zstd");
    assert_eq!(compression_algorithm_label(9), "unknown");
    assert_eq!(aead_algorithm_label(tzap_core::AeadAlgo::AesGcmSiv256 as u16), "aes-gcm-siv-256");
    assert_eq!(aead_algorithm_label(tzap_core::AeadAlgo::None as u16), "none");
    assert_eq!(fec_algorithm_label(tzap_core::FecAlgo::ReedSolomonGF16 as u16), "reed-solomon-gf16");
    assert_eq!(kdf_algorithm_label(tzap_core::KdfAlgo::RecipientWrap as u16), "recipient-wrap");
    assert_eq!(kdf_algorithm_label(tzap_core::KdfAlgo::None as u16), "none");
}

#[test]
fn key_parameters_are_read_from_a_volume() {
    let volumes = create_test_tzap_archive(&[RegularFile::new("hello.txt", b"hello")]);
    let kdf = read_kdf_params("/data/sample.vol000.tzap", &volumes[0]).unwrap();
    assert_eq!(
        kdf,
        KdfParams::Argon2id { t_cost: 1, m_cost_kib: 8, parallelism: 1, salt: b"12345678".to_vec() }
    );
    assert_eq!(derive_from_passphrase(&kdf, "secret").unwrap(), core_key().0);
    assert_ne!(derive_from_passphrase(&kdf, "other").unwrap(), core_key().0);
    assert!(derive_from_passphrase(&KdfParams::Raw, "secret").is_err());

    let open = write_archive_unencrypted(&[], WriterOptions::default()).unwrap().volumes;
    assert_eq!(read_kdf_params("/data/open.tzap", &open[0]).unwrap(), KdfParams::Unencrypted);
    assert_eq!(
        settle_kdf_params(Err(FormatFault::KeyMaterialMismatch)).unwrap_err(),
        TzapError::Format(FormatFault::KeyMaterialMismatch)
    );
    assert_eq!(
        settle_key(Err(FormatFault::KeyMaterialMismatch)).unwrap_err(),
        TzapError::Format(FormatFault::KeyMaterialMismatch)
    );
}

#[test]
fn a_route_is_chosen_by_what_the_archive_needs() {
    let kdf = create_kdf_params();
    assert_eq!(choose_key_route(&kdf, Some("secret"), false, false).unwrap(), KeyRoute::Passphrase);
    assert_eq!(choose_key_route(&kdf, None, false, false).unwrap_err(), TzapError::PasswordRequired);
    assert_eq!(
        choose_key_route(&KdfParams::Unencrypted, None, false, false).unwrap(),
        KeyRoute::Placeholder
    );
    assert_eq!(
        choose_key_route(&KdfParams::RecipientWrap, None, true, false).unwrap(),
        KeyRoute::RecipientFile
    );
    assert_eq!(
        choose_key_route(&KdfParams::RecipientWrap, None, false, true).unwrap(),
        KeyRoute::RecipientBytes
    );
    assert_eq!(
        choose_key_route(&KdfParams::RecipientWrap, None, false, false).unwrap_err(),
        TzapError::RecipientKeyRequired
    );
    assert_eq!(placeholder_master_key(), [0; 32]);
    let plan = plan_open(&KdfParams::Unencrypted, 1, None, false, false).unwrap();
    assert!(plan.single_volume);
    assert_eq!(plan.key, Some([0; 32]));
}

fn candidates(count: usize) -> Vec<VolumeCandidate> {
    (0..count)
        .map(|index| VolumeCandidate { path: format!("/data/{}", volume_name(index)), exists: true })
        .collect()
}

#[test]
fn an_archive_is_opened_by_its_first_volume() {
    let volumes = create_test_tzap_archive(&[RegularFile::new("hello.txt", b"hello")]);
    let plan: OpenPlan = open_tzap_archive_with_key_options_multi(
        "/data/sample.tzap",
        &candidates(4),
        &Ok(volumes[0].clone()),
        &vec![Ok(()), Ok(()), Ok(()), Ok(())],
        Some("secret"),
        false,
        false,
    )
    .unwrap();
    assert_eq!(plan.route, KeyRoute::Passphrase);
    assert_eq!(plan.key, Some(core_key().0));
    assert!(!plan.single_volume);

    let error = open_tzap_archive_with_key_options_multi(
        "/data/sample.tzap",
        &candidates(2),
        &Ok(volumes[0].clone()),
        &vec![Ok(()), Err(IoFailure::new(IoKind::NotFound, "gone"))],
        Some("secret"),
        false,
        false,
    )
    .unwrap_err();
    assert_eq!(
        error,
        TzapError::Io {
            path: "/data/sample.vol001.tzap".to_owned(),
            source: IoFailure::new(IoKind::NotFound, "gone"),
        }
    );
}

#[test]
fn an_opened_archive_is_listed() {
    let large = vec![7u8; 1024 * 1024];
    let volumes = create_test_tzap_archive(&[
        RegularFile::new("large.bin", &large),
        RegularFile::new("nested/small.txt", b"small target"),
    ]);
    let listing = list_tzap_with_password(&opened_input(&volumes), "secret").unwrap();
    let small = listing.entries.iter().find(|entry| entry.path == "nested/small.txt").unwrap();
    assert_eq!(small.size, 12);
    assert_eq!(small.kind, TzapEntryKind::File);
    assert_eq!(small.mode, 0o644);
    let unreadable = input(&volumes, Err(TzapError::Format(FormatFault::UnsafeArchivePath)));
    assert_eq!(
        list_tzap_with_password(&unreadable, "secret").unwrap_err(),
        TzapError::Format(FormatFault::UnsafeArchivePath)
    );
}

#[test]
fn the_stored_derivation_says_which_key_is_asked_for() {
    let derived = create_test_tzap_archive(&[RegularFile::new("a.txt", b"first")]);
    let archive = opened_input(&derived);
    assert_eq!(
        list_tzap_with_optional_password(&archive, None).unwrap_err(),
        TzapError::PasswordRequired
    );
    let mismatch = TzapError::Format(FormatFault::KeyMaterialMismatch);
    assert_eq!(list_tzap_with_recipient_key(&archive).unwrap_err(), mismatch);
    let selected = vec![true];
    let unchecked = || Err(TzapError::X509RootAuth("unchecked".to_owned()));
    assert_eq!(
        test_tzap_with_recipient_key_filter_and_x509_trust(&archive, &selected, None, unchecked())
            .unwrap_err(),
        mismatch
    );
    assert_eq!(
        test_tzap_with_recipient_key_bytes_filter_and_x509_trust(
            &archive, &selected, None, unchecked(),
        )
        .unwrap_err(),
        mismatch
    );
    assert_eq!(
        copy_tzap_files_to_writer_with_recipient_key(&archive, &selected, &vec![Ok(true)])
            .unwrap_err(),
        mismatch
    );

    let open = single_file(ArchiveTimestamp::from_seconds(0));
    let archive = input(&open, open_tzap_volumes("/data/a.tzap", &open, None));
    assert_eq!(list_tzap_with_optional_password(&archive, None).unwrap().entries.len(), 1);

    let mut gone = opened_input(&derived);
    gone.opened[2] = Err(IoFailure::new(IoKind::NotFound, "gone"));
    assert!(matches!(
        list_tzap_with_password(&gone, "secret"),
        Err(TzapError::Io { path, .. }) if path == "/data/sample.vol002.tzap"
    ));
}

#[test]
fn opening_is_settled_from_the_plan_and_the_reader() {
    let volumes = create_test_tzap_archive(&[RegularFile::new("a.txt", b"first")]);
    let plan = |key| {
        Ok(OpenPlan { route: KeyRoute::RecipientFile, key, single_volume: true })
    };
    let stats = RecipientWrapOpenStats::new();
    let settled = settle_opened_archive(plan(Some([0; 32])), &None, Ok(opened(&volumes)), &stats);
    assert!(settled.is_ok());
    let damaged = || Err(FormatFault::InvalidArchive("damaged".to_owned()));
    assert_eq!(
        settle_opened_archive(plan(Some([0; 32])), &None, damaged(), &stats).err().unwrap(),
        TzapError::Format(FormatFault::InvalidArchive("damaged".to_owned()))
    );
    assert_eq!(
        settle_opened_archive(plan(None), &None, Ok(opened(&volumes)), &stats).err().unwrap(),
        TzapError::RecipientKeyRequired
    );
    let unread = Some(Err(TzapError::KeyWrap("unreadable key".to_owned())));
    assert_eq!(
        settle_opened_archive(plan(None), &unread, Ok(opened(&volumes)), &stats).err().unwrap(),
        TzapError::KeyWrap("unreadable key".to_owned())
    );
    let lookup = Some(Ok(TzapRecipientPrivateKeyLookup { candidates: Vec::new() }));
    let mismatch = || Err(FormatFault::KeyMaterialMismatch);
    assert!(matches!(
        settle_opened_archive(plan(None), &lookup, mismatch(), &stats).err().unwrap(),
        TzapError::KeyWrap(message) if message.ends_with("archive has no recipient records")
    ));
    assert_eq!(
        settle_opened_archive(Err(TzapError::PasswordRequired), &None, mismatch(), &stats)
            .err()
            .unwrap(),
        TzapError::PasswordRequired
    );
}

#[test]
fn tests_count_what_was_selected() {
    let volumes = create_test_tzap_archive(&[
        RegularFile::new("a.txt", b"first"),
        RegularFile::new("b.txt", b"second"),
    ]);
    let archive = opened_input(&volumes);
    let all = test_tzap_with_password_filter(&archive, "secret", &vec![true, true]).unwrap();
    assert_eq!((all.entries, all.tested_entries, all.skipped_entries, all.tested_bytes), (2, 2, 0, 11));
    let one = test_tzap_with_password_filter(&archive, "secret", &vec![false, true]).unwrap();
    assert_eq!((one.tested_entries, one.skipped_entries, one.tested_bytes), (1, 1, 6));

    let mut broken = opened(&volumes);
    broken.intact = Err(FormatFault::InvalidArchive("damaged".to_owned()));
    assert!(test_tzap_with_password_filter(&input(&volumes, Ok(broken)), "secret", &vec![true, true]).is_err());

    let trust = TzapX509TrustOptions {
        trusted_ca_certificates: Vec::new(),
        trusted_system_roots: true,
        include_official_tzap_root: false,
    };
    assert!(test_tzap_with_password_filter_and_x509_trust(
        &archive,
        "secret",
        &vec![true, true],
        Some(&trust),
        Err(TzapError::X509RootAuth("unsigned".to_owned()))
    )
    .is_err());
}

#[test]
fn copies_name_what_is_missing() {
    let volumes = create_test_tzap_archive(&[
        RegularFile::new("a.txt", b"first"),
        RegularFile::new("b.txt", b"second"),
    ]);
    let archive = opened_input(&volumes);
    let copied = vec![Ok(true), Ok(false)];
    let report =
        copy_tzap_files_to_writer(&archive, "secret", &vec![true, true], &copied).unwrap();
    assert_eq!(report.written_entries, 1);
    assert_eq!(report.written_bytes, 5);
    assert_eq!(report.skipped_entries, 1);
    assert_eq!(report.warnings.len(), 1);
    assert!(report.warnings[0].contains("b.txt"));

    let failed = copy_tzap_files_to_writer(
        &archive,
        "secret",
        &vec![true, true],
        &vec![Err(ExtractFailure::Output(IoFailure::new(IoKind::Other, "full"))), Ok(true)],
    );
    assert!(matches!(failed, Err(TzapError::Io { path, source }) if path == "a.txt" && source.message == "full"));
    assert!(matches!(
        tzap_extract_error("a.txt", &ExtractFailure::Format(FormatFault::UnsafeArchivePath)),
        TzapError::Format(FormatFault::UnsafeArchivePath)
    ));
}

#[test]
fn diagnostics_have_the_labels_of_the_format() {
    let labels = metadata_diagnostic_labels(&vec![MetadataDiagnostic {
        profile: "portable".to_owned(),
        metadata_class: "mode".to_owned(),
        operation: MetadataOperation::Restore,
        status: MetadataDiagnosticStatus::Skipped,
        message: "no such mode".to_owned(),
    }]);
    assert_eq!(
        labels,
        vec!["profile=portable class=mode operation=restore status=skipped: no such mode".to_owned()]
    );
    assert_eq!(
        root_auth_diagnostic_labels(&vec![RootAuthDiagnostic::RootAuthContentVerified]),
        vec![tzap_core::RootAuthDiagnostic::RootAuthContentVerified.label().to_owned()]
    );
    assert_eq!(
        public_no_key_diagnostic_labels(&vec![
            PublicNoKeyDiagnostic::PublicDataBlockCommitmentVerified
        ]),
        vec![tzap_core::PublicNoKeyDiagnostic::PublicDataBlockCommitmentVerified.label().to_owned()]
    );
}
