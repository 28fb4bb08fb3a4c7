use openssl::ec::{EcGroup, EcKey};
use openssl::nid::Nid;
use openssl::pkcs12::Pkcs12;
use openssl::pkey::PKey;
use openssl::x509::X509;
use tzap_plugin_signing::x509_chain::X509_AUTHENTICATOR_ID;
use zmanager_core::failure::{IoFailure, IoKind};
use zmanager_core::tzap::certificate::{
    CertificateStep, certificate_step_error, recipient_certificate_template,
    synthetic_recipient_certificate_der,
};
use zmanager_core::tzap::create::{
    ArchiveManifest, ArchiveTimestamp, AuxiliaryRecord, AuxiliarySource, CreateAnswers,
    ManifestEntry, ManifestFileType, SourceEntryKind, TzapCreateOptions, TzapKeySource,
    WriteSummary, close_entries, collect_archive_sources, collect_regular_file_sources,
    create_key_material, create_tzap_from_manifest_with_context, entry_progress,
    generate_random_master_key, open_auxiliary, writer_plan,
};
use zmanager_core::tzap::error::{FormatFault, TzapError, io_error};
use zmanager_core::tzap::inventory::TzapX509SigningOptions;
use zmanager_core::tzap::job::{
    PrepareInputs, prepare_sink, prepare_tzap_create, signing_source,
};
use zmanager_core::tzap::keys::{
    KdfParams, RecipientWrapOpenStats, WrapOutcome, create_kdf_params, key_wrap_outcome_error,
    load_recipient_private_key_lookup, load_recipient_private_key_lookup_from_bytes,
    load_recipient_private_key_lookup_from_bytes_list, looks_like_pem,
    parse_recipient_private_key_candidate, random_16_bytes, recipient_wrap_candidates_for_record,
    recipient_wrap_open_error,
};
use zmanager_core::tzap::progress::{
    ArchiveWritePhase, JobEvent, JobPhase, TzapEntryProgress, phase_started, phase_total_bytes,
};
use zmanager_core::tzap::recipients::{
    KeyWrapArchiveIdentity, SigningParts, SigningSource, build_recipient_records,
    build_recipient_wrap_record_from_certificate_der,
    build_recipient_wrap_record_from_certificate_path, check_recipients,
    load_single_x509_certificate_file, load_x509_signer, load_x509_signer_from_certificate_files,
    load_x509_signer_from_pkcs12, may_retry, recipient_wrap_archive_identity_for_writer,
    settle_wrapped, validate_recipient_wrap_create_options,
};
use zmanager_core::tzap::root_auth::{CertificateFile, ClockReading, read_file};
use zmanager_core::tzap::sink::{
    CommitAnswers, FileState, OutputStep, PathState, SinkStep, TzapArchiveFileSink, WriteFault,
    commit_bootstrap_sidecar, ensure_file_destination_available, needs_removal, output_error,
    remove_tzap_destinations_for_replace, tzap_archive_write_error, tzap_write_error,
    unique_paths,
};
use zmanager_core::tzap::volumes::SiblingFile;
use zmanager_core::x509_fixture::{ChainConfig, ChainIdentifiers, certificate_fixture};

fn options() -> TzapCreateOptions {
    TzapCreateOptions {
        key_source: TzapKeySource::NoPassword,
        level: 1,
        preserve_metadata: true,
        replace_existing: false,
        volume_size: None,
        volume_count: None,
        recovery_percentage: 0,
        volume_loss_tolerance: 0,
        x509_signing: None,
        emit_bootstrap_sidecar: false,
    }
}

fn entry(path: &str, file_type: ManifestFileType, size: u64) -> ManifestEntry {
    ManifestEntry {
        archive_path: path.to_owned(),
        source_path: format!("/src/{path}"),
        size,
        file_type,
        unix_mode: Some(0o100_600),
        modified: Some(ArchiveTimestamp { seconds: 1_700_000_000, nanoseconds: 5 }),
        symlink_target: None,
    }
}

fn manifest() -> ArchiveManifest {
    let mut link = entry("link", ManifestFileType::Symlink, 4);
    link.symlink_target = Some(b"file".to_vec());
    ArchiveManifest {
        entries: vec![
            entry("dir", ManifestFileType::Directory, 0),
            entry("dir/file", ManifestFileType::File, 7),
            link,
            entry("pipe", ManifestFileType::Other, 0),
        ],
        warnings: vec!["unreadable: x".to_owned()],
        total_bytes: 7,
    }
}

fn captured(count: usize) -> Vec<Result<(), TzapError>> {
    (0..count).map(|_| Ok(())).collect()
}

fn answers(count: usize) -> CreateAnswers {
    CreateAnswers {
        cancelled_at_start: false,
        cancelled_from: None,
        captured: captured(count),
        cancelled_after_collecting: false,
        key: Ok(()),
        records: Ok(()),
        sink: Ok(()),
        signer: Ok(()),
        written: Ok(WriteSummary { volume_count: 2, archive_bytes: 4096 }),
        cancelled_before_commit: false,
        committed: Ok(2),
    }
}

#[test]
fn create_tzap_rejects_both_volume_size_and_volume_count() {
    let mut both = options();
    both.volume_size = Some(1024);
    both.volume_count = Some(2);
    let manifest = ArchiveManifest {
        entries: vec![entry("payload.txt", ManifestFileType::File, 7)],
        warnings: Vec::new(),
        total_bytes: 7,
    };

    let error = create_tzap_from_manifest_with_context(
        &manifest,
        "/out/conflict.tzap",
        &both,
        &answers(1),
    )
    .unwrap_err();
    assert!(matches!(error, TzapError::Format(_)));
}

#[test]
fn no_entry_of_a_manifest_is_lost() {
    let collected = collect_archive_sources(&manifest(), &options(), &captured(4), None).unwrap();
    assert_eq!(collected.sources.len() + collected.warnings.len(), 4);
    assert_eq!(
        collected.warnings,
        vec!["skipped pipe: tzap backend does not write special files".to_owned()]
    );
    let kinds: Vec<SourceEntryKind> = collected.sources.iter().map(|source| source.kind).collect();
    assert_eq!(
        kinds,
        vec![SourceEntryKind::Directory, SourceEntryKind::Regular, SourceEntryKind::Symlink]
    );
    assert_eq!(collected.sources[1].mode, 0o600);
    assert_eq!(collected.sources[1].size, 7);
    assert_eq!(collected.sources[1].mtime.nanoseconds, 5);
    assert_eq!(collected.sources[2].link_target, Some(b"file".to_vec()));

    let mut bare = options();
    bare.preserve_metadata = false;
    let collected = collect_archive_sources(&manifest(), &bare, &captured(4), None).unwrap();
    assert_eq!(collected.sources[0].mode, 0o755);
    assert_eq!(collected.sources[1].mode, 0o644);
    assert_eq!(collected.sources[1].mtime, ArchiveTimestamp { seconds: 0, nanoseconds: 0 });

    let regular = collect_regular_file_sources(&manifest(), &options(), &captured(4), None).unwrap();
    assert_eq!(regular.sources.len(), 1);
    assert_eq!(regular.warnings.len(), 2);

    assert_eq!(
        collect_archive_sources(&manifest(), &options(), &captured(4), Some(2)).unwrap_err(),
        TzapError::Cancelled
    );
}

#[test]
fn a_created_archive_is_reported() {
    let report =
        create_tzap_from_manifest_with_context(&manifest(), "/out/a.tzap", &options(), &answers(4))
            .unwrap();
    assert_eq!(report.written_entries, 3);
    assert_eq!(report.written_bytes, 4096);
    assert_eq!(report.volume_count, 2);
    assert_eq!(report.warnings.len(), 2);
    assert_eq!(report.warnings[1], "unreadable: x");
}

#[test]
fn the_first_failing_step_is_reported() {
    let run = |answers: CreateAnswers| {
        create_tzap_from_manifest_with_context(&manifest(), "/out/a.tzap", &options(), &answers)
            .unwrap_err()
    };
    let mut a = answers(4);
    a.cancelled_at_start = true;
    assert_eq!(run(a), TzapError::Cancelled);
    let mut a = answers(4);
    a.captured[1] = Err(TzapError::Plan("metadata".to_owned()));
    assert_eq!(run(a), TzapError::Plan("metadata".to_owned()));
    let mut a = answers(4);
    a.key = Err(TzapError::PasswordRequired);
    a.signer = Err(TzapError::Cancelled);
    assert_eq!(run(a), TzapError::PasswordRequired);
    let mut a = answers(4);
    a.written = Err(WriteFault::Io(IoFailure::new(IoKind::Other, "full")));
    assert_eq!(
        run(a),
        TzapError::Io { path: "/out/a.tzap".to_owned(), source: IoFailure::new(IoKind::Other, "full") }
    );
    let mut a = answers(4);
    a.cancelled_before_commit = true;
    assert_eq!(run(a), TzapError::Cancelled);
    let mut a = answers(4);
    a.committed = Ok(1);
    assert!(matches!(run(a), TzapError::Format(FormatFault::WriterInvariant(_))));
}

#[test]
fn keys_are_made_for_every_source() {
    let (key, kdf) = create_key_material(&TzapKeySource::NoPassword).unwrap();
    assert_eq!(key, [0; 32]);
    assert_eq!(kdf, KdfParams::Unencrypted);
    let (one, kdf) = create_key_material(&TzapKeySource::RecipientPublicKeys(Vec::new())).unwrap();
    assert_eq!(kdf, KdfParams::Unencrypted);
    assert_ne!(one, generate_random_master_key());
    assert_ne!(random_16_bytes(), random_16_bytes());
    let KdfParams::Argon2id { t_cost, m_cost_kib, parallelism, salt } = create_kdf_params() else {
        panic!("new archives use a passphrase");
    };
    assert_eq!((t_cost, m_cost_kib, parallelism, salt.len()), (3, 262_144, 4, 16));
    assert!(TzapKeySource::Passphrase("secret".to_owned()).uses_secret());
    assert!(!TzapKeySource::NoPassword.uses_secret());
}

#[test]
fn streamed_records_need_their_platform() {
    let record = |streamed: bool, kind: &str| AuxiliaryRecord {
        record_kind: kind.to_owned(),
        streamed,
        payload: vec![1, 2],
    };
    assert_eq!(
        open_auxiliary(&vec![record(false, "x")], 0, false, false).unwrap(),
        AuxiliarySource::Payload(vec![1, 2])
    );
    assert!(open_auxiliary(&Vec::new(), 0, true, true).is_err());
    let fork = vec![record(true, "macos.resource-fork")];
    assert!(open_auxiliary(&fork, 0, false, true).is_err());
    assert!(open_auxiliary(&fork, 0, true, false).is_err());
    assert_eq!(open_auxiliary(&fork, 0, true, true).unwrap(), AuxiliarySource::ResourceFork);
    assert!(open_auxiliary(&vec![record(true, "other")], 0, true, true).is_err());
}

#[test]
fn progress_starts_and_finishes_each_entry_once() {
    let collected = collect_archive_sources(&manifest(), &options(), &captured(4), None).unwrap();
    let mut progress = entry_progress(&collected.sources);
    let first = progress.source_bytes_read(JobPhase::EmittingPayload, "dir/file", 3);
    assert_eq!(first.started, Some(7));
    assert_eq!(first.finished, None);
    let second = progress.source_bytes_read(JobPhase::EmittingPayload, "dir/file", 4);
    assert_eq!(second.started, None);
    assert_eq!(second.finished, Some(7));
    let events = close_entries(&collected.sources, &mut progress);
    assert!(!events.iter().any(
        |event| matches!(event, JobEvent::EntryFinished { path, .. } if path == "dir/file")
    ));
    assert!(events.iter().any(
        |event| matches!(event, JobEvent::EntryFinished { path, .. } if path == "dir")
    ));

    let mut twice = TzapEntryProgress::new(&vec![("a".to_owned(), 1)]);
    twice.add("a", 9);
    assert_eq!(twice.slot("a"), Some(0));
    assert_eq!(twice.size(0), 9);
    assert_eq!(twice.slot("b"), None);
    assert!(twice.mark_started(0));
    assert!(!twice.mark_started(0));
    assert_eq!(twice.record_processed(0, 8), None);
    assert_eq!(twice.record_processed(0, 1), Some(9));
    assert_eq!(twice.record_processed(0, 1), None);
    assert!(!twice.mark_finished(0));
}

#[test]
fn phases_tell_their_totals() {
    let start = phase_started(Some(JobPhase::PlanningPayload), ArchiveWritePhase::EmittingPayload, 7);
    assert_eq!(start.flushed, Some(JobPhase::PlanningPayload));
    assert_eq!(start.phase, JobPhase::EmittingPayload);
    assert_eq!(start.total_bytes, Some(7));
    assert_eq!(phase_total_bytes(JobPhase::CommittingOutput, 7), None);
}

fn state(path: &str, state: FileState) -> PathState {
    PathState { path: path.to_owned(), state, removed: Ok(()) }
}

#[test]
fn outputs_are_opened_written_and_committed() {
    let mut sink =
        TzapArchiveFileSink::new("/out/a.tzap", false, true, Ok(Vec::new())).unwrap();
    let none: Vec<PathState> = Vec::new();
    let paths = sink.begin_archive(2, false, &none).unwrap();
    assert_eq!(paths, vec!["/out/a.vol000.tzap".to_owned(), "/out/a.vol001.tzap".to_owned()]);
    assert!(sink.begin_archive(0, false, &none).is_err());
    assert!(matches!(sink.begin_archive(2, true, &none), Err(WriteFault::Cancelled)));
    assert!(matches!(
        sink.begin_archive(2, false, &vec![state("/out/a.vol001.tzap", FileState::Other)]),
        Err(WriteFault::Io(failure))
            if failure.kind == IoKind::AlreadyExists && failure.message.contains("already exists")
    ));

    assert!(sink.write_volume(0, false).is_err());
    assert!(sink.outputs_created(paths.clone(), &vec![Ok(()), Err(IoFailure::new(IoKind::Other, "full"))]).is_err());
    sink.outputs_created(paths, &vec![Ok(()), Ok(())]).unwrap();
    assert_eq!(sink.write_volume(1, false).unwrap(), "/out/a.vol001.tzap");
    assert!(sink.write_volume(2, false).is_err());
    sink.write_bootstrap_sidecar(vec![1], false).unwrap();
    let mut done = CommitAnswers::nothing();
    assert_eq!(sink.next_commit_step(&done), SinkStep::CheckCancelled);
    done.cancelled = Some(false);
    assert_eq!(sink.next_commit_step(&done), SinkStep::Commit { index: 0 });
    done.committed.push(Ok(()));
    assert_eq!(sink.next_commit_step(&done), SinkStep::Commit { index: 1 });
    done.committed.push(Ok(()));
    let sidecar = "/out/a.sidecar".to_owned();
    assert_eq!(
        sink.next_commit_step(&done),
        SinkStep::PrepareSidecar { path: sidecar.clone(), remove: false }
    );
    done.sidecar_place = Some(state(&sidecar, FileState::Missing));
    assert_eq!(sink.next_commit_step(&done), SinkStep::WriteSidecar { path: sidecar });
    done.sidecar = Some(Ok(()));
    assert_eq!(sink.next_commit_step(&done), SinkStep::Finished);
    assert_eq!(sink.commit(&done).unwrap(), 2);
    done.sidecar = Some(Err(IoFailure::new(IoKind::Other, "full")));
    assert!(matches!(
        sink.commit(&done),
        Err(TzapError::Io { path, .. }) if path == "/out/a.sidecar"
    ));
    done.committed[1] = Err(IoFailure::new(IoKind::Other, "lost"));
    assert_eq!(sink.next_commit_step(&done), SinkStep::Finished);
    assert!(matches!(
        sink.commit(&done),
        Err(TzapError::Io { path, .. }) if path == "/out/a.vol001.tzap"
    ));
    done.cancelled = Some(true);
    assert_eq!(sink.next_commit_step(&done), SinkStep::Finished);
    assert_eq!(sink.commit(&done), Err(TzapError::Cancelled));
}

#[test]
fn what_is_in_the_way_goes_before_the_volumes_are_put_in_place() {
    let existing = vec!["/out/a.vol000.tzap".to_owned()];
    let mut sink = TzapArchiveFileSink::new("/out/a.tzap", true, false, Ok(existing)).unwrap();
    let none: Vec<PathState> = Vec::new();
    let paths = sink.begin_archive(1, false, &none).unwrap();
    sink.outputs_created(paths, &vec![Ok(())]).unwrap();
    let mut done = CommitAnswers::nothing();
    done.cancelled = Some(false);
    assert_eq!(
        sink.next_commit_step(&done),
        SinkStep::Clear { path: "/out/a.vol000.tzap".to_owned() }
    );
    done.cleared.push(state("/out/a.vol000.tzap", FileState::Other));
    assert_eq!(
        sink.next_commit_step(&done),
        SinkStep::Clear { path: "/out/a.tzap".to_owned() }
    );
    done.cleared.push(state("/out/a.tzap", FileState::Missing));
    assert_eq!(sink.next_commit_step(&done), SinkStep::Commit { index: 0 });
    done.committed.push(Ok(()));
    assert_eq!(sink.next_commit_step(&done), SinkStep::Finished);
    assert_eq!(sink.commit(&done).unwrap(), 1);

    let mut blocked = CommitAnswers::nothing();
    blocked.cancelled = Some(false);
    blocked.cleared.push(state("/out/a.vol000.tzap", FileState::Directory));
    assert_eq!(sink.next_commit_step(&blocked), SinkStep::Finished);
    assert_eq!(
        sink.commit(&blocked).unwrap_err(),
        TzapError::Io {
            path: "/out/a.vol000.tzap".to_owned(),
            source: IoFailure::new(
                IoKind::IsADirectory,
                "cannot replace directory /out/a.vol000.tzap",
            ),
        }
    );
    let mut kept = CommitAnswers::nothing();
    kept.cancelled = Some(false);
    kept.cleared.push(PathState {
        removed: Err(IoFailure::new(IoKind::PermissionDenied, "denied")),
        ..state("/out/a.vol000.tzap", FileState::Other)
    });
    assert_eq!(sink.next_commit_step(&kept), SinkStep::Finished);
    assert!(matches!(
        sink.commit(&kept),
        Err(TzapError::Io { source, .. }) if source.kind == IoKind::PermissionDenied
    ));
}

#[test]
fn files_are_replaced_only_when_asked() {
    let states = vec![
        state("/out/file", FileState::Other),
        state("/out/dir", FileState::Directory),
        state("/out/secret", FileState::Unreadable(IoFailure::new(IoKind::PermissionDenied, "denied"))),
    ];
    assert!(ensure_file_destination_available("/out/new", &states, false).is_ok());
    assert!(ensure_file_destination_available("/out/file", &states, false).is_err());
    assert!(ensure_file_destination_available("/out/file", &states, true).is_ok());
    assert!(ensure_file_destination_available("/out/dir", &states, true).is_err());
    assert!(ensure_file_destination_available("/out/secret", &states, true).is_err());
    assert!(needs_removal("/out/file", &states));
    assert!(!needs_removal("/out/new", &states));
    assert!(
        remove_tzap_destinations_for_replace("/out/dir", &Vec::new(), true, &states).is_err()
    );
    assert!(remove_tzap_destinations_for_replace("/out/dir", &Vec::new(), false, &states).is_ok());
    assert_eq!(
        unique_paths(
            &vec!["a".to_owned(), "b".to_owned()],
            &vec!["b".to_owned(), "c".to_owned()]
        ),
        vec!["a".to_owned(), "b".to_owned(), "c".to_owned()]
    );
    assert!(commit_bootstrap_sidecar("/out/a.tzap", false, &states, &Ok(())).is_ok());
}

#[test]
fn write_errors_pass_through_the_writer() {
    let fault = tzap_archive_write_error(TzapError::PasswordRequired);
    assert_eq!(
        fault,
        WriteFault::Io(IoFailure::new(IoKind::Other, "tzap password required"))
    );
    let missing = io_error("/in/a", IoKind::NotFound, "gone");
    assert_eq!(
        tzap_write_error("/out/a.tzap", tzap_archive_write_error(missing)),
        io_error("/out/a.tzap", IoKind::NotFound, "gone")
    );
    assert_eq!(tzap_write_error("/out/a.tzap", WriteFault::Cancelled), TzapError::Cancelled);
    assert!(matches!(
        output_error(
            OutputStep::Write,
            "/out/a.tzap",
            &IoFailure::new(IoKind::Other, "full"),
        ),
        WriteFault::Io(failure)
            if failure.message == "failed to write TZAP output volume /out/a.tzap: full"
    ));
}

fn p256() -> PKey<openssl::pkey::Private> {
    let group = EcGroup::from_curve_name(Nid::X9_62_PRIME256V1).unwrap();
    PKey::from_ec_key(EcKey::generate(&group).unwrap()).unwrap()
}

fn spki(key: &PKey<openssl::pkey::Private>) -> Vec<u8> {
    key.public_key_to_der().unwrap()
}

#[test]
fn a_public_key_gets_a_certificate() {
    let key = p256();
    let der = synthetic_recipient_certificate_der(&spki(&key)).unwrap();
    let certificate = X509::from_der(&der).unwrap();
    assert_eq!(certificate.public_key().unwrap().public_key_to_der().unwrap(), spki(&key));
    let template = recipient_certificate_template();
    assert_eq!(
        certificate.subject_name().entries().next().unwrap().data().as_slice(),
        template.name.as_bytes()
    );
    assert!(matches!(synthetic_recipient_certificate_der(b"no key"), Err(TzapError::KeyWrap(_))));
    let error = certificate_step_error(CertificateStep::PublicKey, "broken");
    assert!(matches!(error, TzapError::KeyWrap(message) if message.contains("broken")));
}

fn identity() -> KeyWrapArchiveIdentity {
    KeyWrapArchiveIdentity {
        archive_uuid: [1; 16],
        session_id: [2; 16],
        format_version: tzap_core::FORMAT_VERSION,
        volume_format_rev: tzap_core::VOLUME_FORMAT_REV,
    }
}

#[test]
fn a_key_is_wrapped_for_a_recipient() {
    let key = p256();
    let certificate = synthetic_recipient_certificate_der(&spki(&key)).unwrap();
    let record =
        build_recipient_wrap_record_from_certificate_der(&certificate, &[7; 32], &identity()).unwrap();
    assert_eq!(record.recipient_identity_bytes, certificate);
    assert!(!record.profile_payload_bytes.is_empty());
    assert!(
        build_recipient_wrap_record_from_certificate_der(&vec![1, 2], &[7; 32], &identity()).is_err()
    );

    let pem = X509::from_der(&certificate).unwrap().to_pem().unwrap();
    let file = CertificateFile { path: "/r.pem".to_owned(), bytes: Ok(pem.clone()) };
    let by_path =
        build_recipient_wrap_record_from_certificate_path(&file, &[7; 32], &identity()).unwrap();
    assert_eq!(by_path.recipient_identity_bytes, certificate);
    assert_eq!(load_single_x509_certificate_file("recipient", &file).unwrap(), certificate);
    let mut two = pem.clone();
    two.extend_from_slice(&pem);
    let bundle = CertificateFile { path: "/two.pem".to_owned(), bytes: Ok(two) };
    assert!(load_single_x509_certificate_file("recipient", &bundle).is_err());

    let lookup = load_recipient_private_key_lookup_from_bytes_list(
        &vec![p256().private_key_to_der().unwrap(), key.private_key_to_der().unwrap()],
        "keys",
    )
    .unwrap();
    assert_eq!(
        lookup.lookup_private_key(&certificate),
        Some(lookup.candidates[1].private_key_bytes.clone())
    );
}

#[test]
fn records_are_built_for_every_recipient() {
    let keys = [p256(), p256()];
    let mut wrapped = options();
    wrapped.key_source =
        TzapKeySource::RecipientPublicKeys(keys.iter().map(|key| spki(key)).collect());
    let mut plan = writer_plan(&wrapped);
    let records =
        build_recipient_records(&wrapped, &[7; 32], &mut plan, &Vec::new()).unwrap().unwrap();
    assert_eq!(records.len(), 2);
    assert!(plan.archive_uuid.is_some());
    assert!(plan.session_id.is_some());
    let again = recipient_wrap_archive_identity_for_writer(&mut plan);
    assert_eq!(Some(again.archive_uuid), plan.archive_uuid);

    let mut split = options();
    split.key_source = TzapKeySource::RecipientPublicKeys(vec![spki(&keys[0])]);
    split.volume_loss_tolerance = 1;
    assert!(validate_recipient_wrap_create_options(&split).is_err());
    let mut none = options();
    none.key_source = TzapKeySource::RecipientPublicKeys(Vec::new());
    assert!(check_recipients(&none).is_err());
    assert!(build_recipient_records(&options(), &[7; 32], &mut plan, &Vec::new()).unwrap().is_none());
}

#[test]
fn private_keys_are_told_by_their_form() {
    let key = p256();
    let pem = key.private_key_to_pem_pkcs8().unwrap();
    assert!(looks_like_pem(&pem));
    let candidate = parse_recipient_private_key_candidate(&pem, "key").unwrap();
    assert_eq!(candidate.private_key_spki_der, Some(spki(&key)));
    let raw = parse_recipient_private_key_candidate(&[9; 32], "key").unwrap();
    assert_eq!(raw.private_key_bytes, vec![9; 32]);
    assert_eq!(raw.private_key_spki_der, None);
    assert!(parse_recipient_private_key_candidate(b"nonsense", "key").is_err());
    let from_file = load_recipient_private_key_lookup("/k.pem", &Ok(pem.clone())).unwrap();
    let in_memory = load_recipient_private_key_lookup_from_bytes(&pem, "key").unwrap();
    assert_eq!(from_file, in_memory);
    assert!(matches!(
        load_recipient_private_key_lookup("/k.pem", &Err(IoFailure::new(IoKind::NotFound, "gone"))),
        Err(TzapError::Io { path, .. }) if path == "/k.pem"
    ));
}

#[test]
fn a_stranger_is_told_that_no_key_matches() {
    let mut stats = RecipientWrapOpenStats::new();
    for _ in 0..2 {
        let keys =
            recipient_wrap_candidates_for_record(&WrapOutcome::NoMatchingPrivateKey, &mut stats);
        assert!(keys.is_empty());
    }
    assert_eq!(
        recipient_wrap_open_error(FormatFault::KeyMaterialMismatch, &stats),
        TzapError::KeyWrap(
            "key material does not match KDF mode: no matching recipient private key for archive"
                .to_owned()
        )
    );
}

#[test]
fn outcomes_of_unwrapping_are_counted() {
    let mut stats = RecipientWrapOpenStats::new();
    let found = recipient_wrap_candidates_for_record(
        &WrapOutcome::UnwrappedCandidateMasterKey { master_key: [5; 32] },
        &mut stats,
    );
    assert_eq!(found, vec![[5; 32]]);
    let none =
        recipient_wrap_candidates_for_record(&WrapOutcome::NoMatchingPrivateKey, &mut stats);
    assert!(none.is_empty());
    recipient_wrap_candidates_for_record(&WrapOutcome::InvalidRecord, &mut stats);
    recipient_wrap_candidates_for_record(&WrapOutcome::UnsupportedSuite, &mut stats);
    assert_eq!(stats.records_seen, 4);
    assert_eq!(stats.candidate_count, 1);
    assert_eq!(stats.no_matching_private_key, 1);
    assert_eq!(stats.invalid_record_or_unwrap, 1);
    assert_eq!(stats.unsupported_record, 1);
    assert!(matches!(
        recipient_wrap_open_error(FormatFault::KeyMaterialMismatch, &stats),
        TzapError::KeyWrap(_) | TzapError::Format(_)
    ));
    assert!(matches!(key_wrap_outcome_error(&WrapOutcome::InvalidRecord), TzapError::Format(_)));
    assert!(matches!(
        key_wrap_outcome_error(&WrapOutcome::UnsupportedSuite),
        TzapError::Format(FormatFault::ReaderUnsupported(_))
    ));
    assert!(may_retry(&WrapOutcome::UnsupportedSuite));
    assert!(settle_wrapped(Err(WrapOutcome::InvalidRecord), Err(WrapOutcome::InvalidRecord)).is_err());
}

fn identifiers() -> ChainIdentifiers {
    ChainIdentifiers {
        ca_policy: "1.3.6.1.4.1.55555.1.1".to_owned(),
        leaf_policy: "1.3.6.1.4.1.55555.1.2".to_owned(),
        document_signing: "1.3.6.1.5.5.7.3.36".to_owned(),
        metadata_extension: "1.3.6.1.4.1.55555.2.1".to_owned(),
    }
}

fn signing_material() -> (Vec<u8>, Vec<u8>) {
    let key = p256();
    let fixture = synthetic_recipient_certificate_der(&spki(&key)).unwrap();
    (fixture, key.private_key_to_pem_pkcs8().unwrap())
}

#[test]
fn a_signer_is_loaded_from_an_identity_file() {
    let fixture = certificate_fixture(ChainConfig::default(), &identifiers()).unwrap();
    let leaf = X509::from_der(&fixture.chain_der[0]).unwrap();
    let key = &fixture.leaf_key;
    let identity = Pkcs12::builder()
        .name("signer")
        .pkey(key)
        .cert(&leaf)
        .build2("password")
        .unwrap()
        .to_der()
        .unwrap();
    let file = CertificateFile { path: "/id.p12".to_owned(), bytes: Ok(identity.clone()) };
    let parts = load_x509_signer_from_pkcs12(&file, "password").unwrap();
    assert_eq!(parts.leaf, leaf.to_der().unwrap());
    assert!(load_x509_signer_from_pkcs12(&file, "wrong").is_err());
    assert!(matches!(
        load_x509_signer_from_pkcs12(&file, "pass\0word"),
        Err(TzapError::X509RootAuth(message))
            if message == "PKCS#12 password contains a NUL character"
    ));

    let source = SigningSource::Pkcs12 { identity: file, password: "password".to_owned() };
    assert!(load_x509_signer(&source, &Ok(1_700_000_000)).is_ok());

    let certificate =
        CertificateFile { path: "/leaf.pem".to_owned(), bytes: Ok(leaf.to_pem().unwrap()) };
    let private_key =
        CertificateFile { path: "/leaf.key".to_owned(), bytes: Ok(key.private_key_to_pem_pkcs8().unwrap()) };
    let parts = load_x509_signer_from_certificate_files(&certificate, &private_key, &Vec::new()).unwrap();
    assert_eq!(parts.leaf, leaf.to_der().unwrap());
    assert_eq!(parts.chain.len(), 0);

    let unfit = SigningSource::InMemory {
        parts: SigningParts { leaf: vec![1], private_key: vec![2], chain: Vec::new() },
    };
    assert!(matches!(
        load_x509_signer(&unfit, &Ok(1_700_000_000)),
        Err(TzapError::X509RootAuth(_))
    ));
    let stopped: ClockReading = Err("second time provided was later than self".to_owned());
    assert_eq!(
        load_x509_signer(&source, &stopped).err().unwrap(),
        TzapError::X509RootAuth("second time provided was later than self".to_owned())
    );
    assert_eq!(X509_AUTHENTICATOR_ID, zmanager_core::tzap::root_auth::X509_AUTHENTICATOR_ID);
}

fn inputs(count: usize) -> PrepareInputs {
    PrepareInputs {
        cancelled_at_start: false,
        cancelled_from: None,
        captured: captured(count),
        cancelled_after_collecting: false,
        recipient_files: Vec::new(),
        listing: Ok(vec![SiblingFile { name: "a.vol000.tzap".to_owned(), exists: true }]),
        signing_files: Vec::new(),
        clock: Ok(1_700_000_000),
    }
}

#[test]
fn a_job_is_prepared() {
    let prepared = prepare_tzap_create(&manifest(), "/out/a.tzap", &options(), &inputs(4)).unwrap();
    assert_eq!(prepared.sources.sources.len(), 3);
    assert!(prepared.plan.unencrypted);
    assert_eq!(prepared.master_key, [0; 32]);
    assert!(prepared.records.is_none());
    assert!(prepared.signer.is_none());
    assert_eq!(prepared.sink.existing_volume_paths, vec!["/out/a.vol000.tzap".to_owned()]);

    let key = p256();
    let mut wrapped = options();
    wrapped.key_source = TzapKeySource::RecipientPublicKeys(vec![spki(&key)]);
    let prepared = prepare_tzap_create(&manifest(), "/out/a.tzap", &wrapped, &inputs(4)).unwrap();
    assert_eq!(prepared.records.unwrap().len(), 1);
    assert_ne!(prepared.master_key, [0; 32]);
    assert_ne!(prepared.plan.archive_uuid, None);
    assert_ne!(prepared.plan.archive_uuid, prepared.plan.session_id);
    assert_eq!((prepared.sink.outputs, prepared.sink.volume_paths.len()), (0, 0));
    let again = prepare_tzap_create(&manifest(), "/out/a.tzap", &wrapped, &inputs(4)).unwrap();
    assert_ne!(again.plan.archive_uuid, prepared.plan.archive_uuid);

    let mut stopped = inputs(4);
    stopped.cancelled_after_collecting = true;
    assert!(matches!(
        prepare_tzap_create(&manifest(), "/out/a.tzap", &options(), &stopped),
        Err(TzapError::Cancelled)
    ));
    let mut unlisted = inputs(4);
    unlisted.listing = Err(IoFailure::new(IoKind::PermissionDenied, "denied"));
    assert!(matches!(
        prepare_tzap_create(&manifest(), "/out/a.tzap", &options(), &unlisted),
        Err(TzapError::Io { .. })
    ));
    assert!(prepare_sink("/out/b.tzap", &options(), &inputs(0).listing).unwrap().outputs == 0);
}

#[test]
fn signing_files_are_found_by_their_path() {
    let (certificate, key) = signing_material();
    let files = vec![
        CertificateFile { path: "/c".to_owned(), bytes: Ok(certificate.clone()) },
        CertificateFile { path: "/k".to_owned(), bytes: Ok(key.clone()) },
    ];
    let options = TzapX509SigningOptions::CertificateAndKey {
        certificate_path: "/c".to_owned(),
        private_key_path: "/k".to_owned(),
        chain_paths: vec!["/gone".to_owned()],
    };
    let SigningSource::CertificateAndKey { certificate: c, private_key: k, chain } =
        signing_source(&options, &files)
    else {
        panic!("the options name files");
    };
    assert_eq!(c.bytes, Ok(certificate));
    assert_eq!(k.bytes, Ok(key));
    assert_eq!(
        chain[0].bytes,
        Err(IoFailure::new(IoKind::NotFound, "the file was not read"))
    );
    assert_eq!(read_file(&files, "/c").path, "/c");
}

struct Lookup(zmanager_core::tzap::keys::TzapRecipientPrivateKeyLookup);

impl tzap_plugin_keywrap::PrivateKeyLookup for Lookup {
    fn lookup_private_key(
        &self,
        _identity: &tzap_plugin_keywrap::ArchiveIdentity,
        _metadata: &tzap_plugin_keywrap::RecipientRecordMetadata,
        recipient_identity_bytes: &[u8],
    ) -> Option<Vec<u8>> {
        self.0.lookup_private_key(recipient_identity_bytes)
    }
}

#[test]
fn a_wrapped_key_is_unwrapped_by_its_recipient_alone() {
    let key = p256();
    let certificate = synthetic_recipient_certificate_der(&spki(&key)).unwrap();
    let unwrap_with = |private_key: &PKey<openssl::pkey::Private>| {
        let record =
            build_recipient_wrap_record_from_certificate_der(&certificate, &[7; 32], &identity())
                .unwrap();
        let lookup = load_recipient_private_key_lookup_from_bytes(
            &private_key.private_key_to_der().unwrap(),
            "key",
        )
        .unwrap();
        tzap_plugin_keywrap::dispatch_key_wrap_record(
            tzap_plugin_keywrap::RecipientRecordInput {
                archive_identity: tzap_plugin_keywrap::ArchiveIdentity {
                    archive_uuid: [1; 16],
                    session_id: [2; 16],
                    format_version: tzap_core::FORMAT_VERSION,
                    volume_format_rev: tzap_core::VOLUME_FORMAT_REV,
                },
                metadata: tzap_plugin_keywrap::RecipientRecordMetadata {
                    profile_id: record.profile_id,
                    recipient_identity_type: record.recipient_identity_type,
                    recipient_identity_digest: record.recipient_identity_digest,
                },
                recipient_identity_bytes: record.recipient_identity_bytes,
                profile_payload_bytes: record.profile_payload_bytes,
            },
            &Lookup(lookup),
        )
    };
    assert!(matches!(
        unwrap_with(&key),
        tzap_plugin_keywrap::KeyWrapOutcome::UnwrappedCandidateMasterKey { master_key, .. }
            if master_key == [7; 32]
    ));
    assert!(matches!(
        unwrap_with(&p256()),
        tzap_plugin_keywrap::KeyWrapOutcome::NoMatchingPrivateKey
    ));
}

#[test]
fn recipient_files_are_taken_by_their_paths() {
    let file = |path: &str, byte: u8| CertificateFile {
        path: path.to_owned(),
        bytes: Ok(vec![byte]),
    };
    let files = vec![file("c", 3), file("a", 1), file("b", 2)];
    let source = TzapKeySource::RecipientCertificates(vec!["a".to_owned(), "c".to_owned()]);
    let list = zmanager_core::tzap::job::recipient_files_of(&source, &files);
    assert_eq!(list.len(), 2);
    assert_eq!((list[0].path.as_str(), list[0].bytes.as_ref().unwrap().as_slice()), ("a", &[1u8][..]));
    assert_eq!((list[1].path.as_str(), list[1].bytes.as_ref().unwrap().as_slice()), ("c", &[3u8][..]));
    let one = TzapKeySource::RecipientCertificate("missing".to_owned());
    let list = zmanager_core::tzap::job::recipient_files_of(&one, &files);
    assert_eq!(list.len(), 1);
    assert!(list[0].bytes.is_err());
    let none = zmanager_core::tzap::job::recipient_files_of(&TzapKeySource::NoPassword, &files);
    assert!(none.is_empty());
}
