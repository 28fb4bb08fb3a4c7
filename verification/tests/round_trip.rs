use tzap_core::{RegularFile, WriterOptions, write_archive_unencrypted};
use zmanager_core::tzap::archive::{TzapEntryKind, list_tzap_with_optional_password};
use zmanager_core::tzap::create::{
    ArchiveManifest, ManifestEntry, ManifestFileType, TzapCreateOptions, TzapKeySource,
    collect_archive_sources,
};
use zmanager_core::tzap::error::FormatFault;
use zmanager_core::tzap::extract::{
    MaterializeAnswer, MemberAnswer, MemberDecision, StreamStep,
    extract_tzap_with_optional_password_and_context,
};
use zmanager_core::tzap::keys::{
    RecipientWrapOpenStats, WrapOutcome, recipient_wrap_candidates_for_record,
    recipient_wrap_open_error,
};
use zmanager_core::tzap::opening::ArchiveInput;
use zmanager_core::tzap::reader::{open_tzap_volumes, read_tzap_file};
use zmanager_core::tzap::volumes::VolumeCandidate;

const CONTENTS: [(&str, &[u8]); 3] =
    [("a.txt", b"first"), ("dir/b.txt", b"second file"), ("empty", b"")];

fn manifest() -> ArchiveManifest {
    let entries: Vec<ManifestEntry> = CONTENTS
        .iter()
        .map(|(path, contents)| ManifestEntry {
            archive_path: (*path).to_owned(),
            source_path: format!("/src/{path}"),
            size: contents.len() as u64,
            file_type: ManifestFileType::File,
            unix_mode: Some(0o600),
            modified: None,
            symlink_target: None,
        })
        .collect();
    ArchiveManifest { entries, warnings: Vec::new(), total_bytes: 16 }
}

fn options() -> TzapCreateOptions {
    TzapCreateOptions {
        key_source: TzapKeySource::NoPassword,
        level: 1,
        preserve_metadata: false,
        replace_existing: false,
        volume_size: None,
        volume_count: None,
        recovery_percentage: 0,
        volume_loss_tolerance: 0,
        x509_signing: None,
        emit_bootstrap_sidecar: false,
    }
}

fn written(destination: String) -> MemberAnswer {
    MemberAnswer {
        cancelled: false,
        preloaded: Ok(None),
        decision: MemberDecision::Write {
            destination,
            replace_existing: false,
            link_target: None,
        },
        stream: StreamStep::Done,
        reported: Vec::new(),
        loaded: Ok(None),
        made: MaterializeAnswer { removed: Ok(()), unsupported_symlink: None, made: Ok(()) },
    }
}

#[test]
fn what_was_collected_is_listed_and_extracted_whole() {
    let captured = vec![Ok(()), Ok(()), Ok(())];
    let collected = collect_archive_sources(&manifest(), &options(), &captured, None).unwrap();
    let files: Vec<RegularFile<'_>> = collected
        .sources
        .iter()
        .zip(CONTENTS)
        .map(|(source, (_, contents))| RegularFile {
            mode: source.mode,
            ..RegularFile::new(&source.archive_path, contents)
        })
        .collect();
    let volumes = write_archive_unencrypted(
        &files,
        WriterOptions { zstd_level: 1, ..WriterOptions::default() },
    )
    .unwrap()
    .volumes;
    let input = ArchiveInput {
        path: "/data/a.tzap".to_owned(),
        volumes: vec![VolumeCandidate { path: "/data/a.tzap".to_owned(), exists: true }],
        first_file: Ok(volumes[0].clone()),
        opened: vec![Ok(())],
        archive: Ok(open_tzap_volumes("/data/a.tzap", &volumes, None).unwrap()),
    };

    let listing = list_tzap_with_optional_password(&input, None).unwrap();
    assert_eq!(listing.entries.len(), 3);
    for (listed, source) in listing.entries.iter().zip(&collected.sources) {
        assert_eq!(listed.path, source.archive_path);
        assert_eq!(listed.kind, TzapEntryKind::File);
        assert_eq!(listed.size, source.size);
        assert_eq!(listed.mode, source.mode);
        assert_eq!(listed.mtime, source.mtime.seconds);
        assert_eq!(listed.mtime_nanoseconds, source.mtime.nanoseconds);
    }

    let answers: Vec<MemberAnswer> = CONTENTS
        .iter()
        .map(|(path, _)| written(format!("/out/{path}")))
        .collect();
    let extraction =
        extract_tzap_with_optional_password_and_context(&input, None, "/out", &Ok(()), &answers)
            .unwrap();
    assert_eq!(extraction.report.written_entries, 3);
    assert_eq!(extraction.report.written_bytes, 16);
    assert_eq!(extraction.report.skipped_entries, 0);
    for (path, contents) in CONTENTS {
        assert_eq!(
            read_tzap_file("/data/a.tzap", &volumes, None, path).unwrap(),
            Some(contents.to_vec())
        );
    }
}

#[test]
fn one_matching_record_among_others_hands_a_key_on() {
    let mut stats = RecipientWrapOpenStats::new();
    recipient_wrap_candidates_for_record(&WrapOutcome::NoMatchingPrivateKey, &mut stats);
    let keys = recipient_wrap_candidates_for_record(
        &WrapOutcome::UnwrappedCandidateMasterKey { master_key: [3; 32] },
        &mut stats,
    );
    recipient_wrap_candidates_for_record(&WrapOutcome::NoMatchingPrivateKey, &mut stats);
    assert_eq!(keys, vec![[3; 32]]);
    assert_eq!(stats.candidate_count, 1);
    let told = recipient_wrap_open_error(FormatFault::KeyMaterialMismatch, &stats).message();
    assert!(told.contains("unwrapped a candidate"));
    assert!(!told.contains("no matching recipient private key"));
}
