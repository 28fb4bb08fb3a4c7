use tzap_core::{RegularFile, WriterOptions, write_archive_unencrypted};
use zmanager_core::failure::{IoFailure, IoKind};
use zmanager_core::tzap::archive::{
    ArchiveEntry, ArchiveIndexEntry, ExtractFailure, TarEntryKind, TzapArchive,
    TzapExtractReport, copy_can_be_counted,
};
use zmanager_core::tzap::error::{FormatFault, TzapError};
use zmanager_core::tzap::extract::{
    ExtractedMember, ExtractionKind, IndexAnswer, MaterializeAnswer, MemberAnswer,
    MemberDecision, StreamStep, extract_tzap_with_optional_password_and_context,
    extract_tzap_with_optional_password_and_context_fast, extract_tzap_with_password,
    extraction_events, extraction_kind_from_tzap_entry, index_extraction_events,
    materialize_non_regular_member, stream_regular_member_to_destination,
    tzap_index_entry_kind,
};
use zmanager_core::tzap::opening::ArchiveInput;
use zmanager_core::tzap::single_file::{
    CommitAnswer, CommitMove, CommitStep, DirectoryOutcome, MoveAnswer, SingleFileAnswer,
    SingleFileStep, allocate_extraction_root, archive_member_path_under_root,
    commit_extracted_file, commit_move, extract_tzap_file_to_destination_with_optional_password,
    extract_tzap_file_to_destination_with_recipient_key, next_commit_step, next_single_file_step,
    temporary_extraction_path,
};
use zmanager_core::tzap::steps::{
    IndexDone, IndexStep, MemberDone, MemberStep, OutputAnswer, OutputStep, entry_stops,
    extraction_fits, member_stops, next_index_step, next_member_step, next_output_step, settle_output,
};
use zmanager_core::tzap::volumes::VolumeCandidate;
use zmanager_core::tzap::progress::JobEvent;

fn entry(path: &str, kind: TarEntryKind, size: u64) -> ArchiveEntry {
    ArchiveEntry {
        path: path.to_owned(),
        kind,
        file_data_size: size,
        mode: 0o644,
        mtime: 0,
        mtime_nanoseconds: 0,
    }
}

/// The files of an archive, in a set of volumes that needs no key.
fn archive(files: Vec<ArchiveEntry>) -> ArchiveInput {
    let index = files
        .iter()
        .map(|file| ArchiveIndexEntry {
            path: file.path.clone(),
            file_data_size: file.file_data_size,
        })
        .collect();
    let volumes = write_archive_unencrypted(
        &[RegularFile::new("payload.txt", b"payload")],
        WriterOptions { zstd_level: 1, ..WriterOptions::default() },
    )
    .unwrap()
    .volumes;
    ArchiveInput {
        path: "/data/a.tzap".to_owned(),
        volumes: vec![VolumeCandidate {
            path: "/data/a.tzap".to_owned(),
            exists: true,
        }],
        first_file: Ok(volumes[0].clone()),
        opened: vec![Ok(())],
        archive: Ok(TzapArchive {
            files: Ok(files),
            index: Ok(index),
            intact: Ok(()),
            authenticator_id: None,
        }),
    }
}

fn member(path: &str, kind: TarEntryKind, target: Option<&str>) -> ExtractedMember {
    ExtractedMember { path: path.to_owned(), kind, link_target: target.map(str::to_owned) }
}

fn made() -> MaterializeAnswer {
    MaterializeAnswer { removed: Ok(()), unsupported_symlink: None, made: Ok(()) }
}

fn write(destination: &str, target: Option<&str>) -> MemberDecision {
    MemberDecision::Write {
        destination: destination.to_owned(),
        replace_existing: false,
        link_target: target.map(str::to_owned),
    }
}

fn answer(decision: MemberDecision, member: Option<ExtractedMember>) -> MemberAnswer {
    MemberAnswer {
        cancelled: false,
        preloaded: Ok(None),
        decision,
        stream: StreamStep::Done,
        reported: Vec::new(),
        loaded: Ok(member),
        made: made(),
    }
}

#[test]
fn every_member_is_written_or_skipped() {
    let archive = archive(vec![
        entry("dir", TarEntryKind::Directory, 0),
        entry("dir/file", TarEntryKind::Regular, 12),
        entry("dir/link", TarEntryKind::Symlink, 0),
        entry("old", TarEntryKind::Regular, 3),
        entry("gone", TarEntryKind::Regular, 4),
    ]);
    let mut link = answer(write("/out/dir/link", Some("file")), None);
    link.preloaded = Ok(Some(member("dir/link", TarEntryKind::Symlink, Some("file"))));
    let mut gone = answer(write("/out/gone", None), None);
    gone.stream = StreamStep::Missing;
    let mut file = answer(write("/out/dir/file", None), None);
    file.reported = vec![("dir/file".to_owned(), 8), ("dir/file".to_owned(), 4)];
    let answers = vec![
        answer(write("/out/dir", None), Some(member("dir", TarEntryKind::Directory, None))),
        file,
        link,
        answer(MemberDecision::Skip("exists".to_owned()), None),
        gone,
    ];
    let extraction =
        extract_tzap_with_optional_password_and_context(&archive, None, "/out", &Ok(()), &answers)
            .unwrap();
    assert_eq!(extraction.report.written_entries, 3);
    assert_eq!(extraction.report.written_bytes, 12);
    assert_eq!(extraction.report.skipped_entries, 2);
    assert_eq!(extraction.report.warnings[0], "skipped old: exists");
    assert!(extraction.report.warnings[1].contains("gone"));
    let started = extraction
        .events
        .iter()
        .filter(|event| matches!(event, JobEvent::EntryStarted { .. }))
        .count();
    let finished = extraction
        .events
        .iter()
        .filter(|event| matches!(event, JobEvent::EntryFinished { .. }))
        .count();
    assert_eq!((started, finished), (5, 5));
    let path = || "dir/file".to_owned();
    assert_eq!(
        extraction.events[3..7],
        [
            JobEvent::EntryStarted { path: path(), size: 12 },
            JobEvent::BytesProcessed { path: path(), bytes: 8 },
            JobEvent::BytesProcessed { path: path(), bytes: 4 },
            JobEvent::EntryFinished { path: path(), bytes: 12 },
        ]
    );
    assert_eq!(
        extraction_events(&archive, None, false, &Ok(()), &answers),
        extraction.events
    );
}

#[test]
fn a_failed_extraction_tells_what_went_before() {
    let archive = archive(vec![
        entry("a", TarEntryKind::Regular, 1),
        entry("b", TarEntryKind::Regular, 2),
    ]);
    let mut first = answer(write("/out/a", None), None);
    first.reported = vec![("a".to_owned(), 1)];
    let mut second = answer(write("/out/b", None), None);
    second.reported = vec![("b".to_owned(), 1)];
    second.stream = StreamStep::OutputFailed(IoFailure::new(IoKind::Other, "full"));
    let told = vec![
        JobEvent::EntryStarted { path: "a".to_owned(), size: 1 },
        JobEvent::BytesProcessed { path: "a".to_owned(), bytes: 1 },
        JobEvent::EntryFinished { path: "a".to_owned(), bytes: 1 },
        JobEvent::EntryStarted { path: "b".to_owned(), size: 2 },
        JobEvent::BytesProcessed { path: "b".to_owned(), bytes: 1 },
    ];
    let mut answers = vec![first, second];
    assert!(extract_tzap_with_password(&archive, "", "/out", &Ok(()), &answers).is_err());
    assert_eq!(extraction_events(&archive, Some(""), false, &Ok(()), &answers), told);
    answers[1].decision = MemberDecision::Rejected("escapes".to_owned());
    assert_eq!(extraction_events(&archive, None, false, &Ok(()), &answers), told[..4]);
    answers[1].cancelled = true;
    assert_eq!(extraction_events(&archive, None, false, &Ok(()), &answers), told[..3]);
    let denied = Err(IoFailure::new(IoKind::PermissionDenied, "denied"));
    assert!(extraction_events(&archive, None, false, &denied, &answers).is_empty());

    let index = |path: &str, stream: StreamStep| IndexAnswer {
        cancelled: false,
        decision: write(&format!("/out/{path}"), None),
        stream,
        reported: vec![(path.to_owned(), 1)],
        made: Ok(()),
    };
    let full = StreamStep::OutputFailed(IoFailure::new(IoKind::Other, "full"));
    let answers = vec![index("a", StreamStep::Done), index("b", full)];
    assert_eq!(index_extraction_events(&archive, None, &Ok(()), &answers), told);
}

#[test]
fn an_extraction_stops_at_the_first_fault() {
    let archive = archive(vec![
        entry("a", TarEntryKind::Regular, 1),
        entry("b", TarEntryKind::Regular, 1),
    ]);
    let ok = || answer(write("/out/a", None), None);
    let run = |answers: Vec<MemberAnswer>| {
        extract_tzap_with_password(&archive, "", "/out", &Ok(()), &answers).unwrap_err()
    };
    let mut stopped = ok();
    stopped.cancelled = true;
    assert_eq!(run(vec![ok(), stopped]), TzapError::Cancelled);
    assert_eq!(
        run(vec![ok(), answer(MemberDecision::Rejected("escapes".to_owned()), None)]),
        TzapError::Safety("escapes".to_owned())
    );
    let mut full = ok();
    full.stream = StreamStep::OutputFailed(IoFailure::new(IoKind::Other, "full"));
    assert_eq!(
        run(vec![full, ok()]),
        TzapError::Io { path: "/out/a".to_owned(), source: IoFailure::new(IoKind::Other, "full") }
    );
    assert!(matches!(
        extract_tzap_with_password(
            &archive,
            "",
            "/out",
            &Err(IoFailure::new(IoKind::PermissionDenied, "denied")),
            &vec![ok(), ok()]
        ),
        Err(TzapError::Io { path, .. }) if path == "/out"
    ));
}

#[test]
fn a_fast_extraction_follows_the_index() {
    let archive = archive(vec![
        entry("dir/", TarEntryKind::Directory, 0),
        entry("dir/file", TarEntryKind::Regular, 12),
    ]);
    let index = |decision: MemberDecision| IndexAnswer {
        cancelled: false,
        decision,
        stream: StreamStep::Done,
        reported: Vec::new(),
        made: Ok(()),
    };
    let answers = vec![index(write("/out/dir", None)), index(write("/out/dir/file", None))];
    let extraction =
        extract_tzap_with_optional_password_and_context_fast(
            &archive, None, "/out", &Ok(()), &answers,
        )
        .unwrap();
    assert_eq!(extraction.report.written_entries, 2);
    assert_eq!(extraction.report.written_bytes, 12);
    assert_eq!(tzap_index_entry_kind("dir/"), ExtractionKind::Directory);
    assert_eq!(tzap_index_entry_kind("dir"), ExtractionKind::File);
}

#[test]
fn links_need_their_targets() {
    let mut report = TzapExtractReport::new();
    let link = member("link", TarEntryKind::Symlink, Some("file"));
    assert_eq!(
        materialize_non_regular_member(
            &link,
            "/out/link",
            true,
            &Some("file".to_owned()),
            &made(),
            &mut report
        )
        .unwrap(),
        0
    );
    assert_eq!(report.written_entries, 1);
    let mut failed = made();
    failed.removed = Err(IoFailure::new(IoKind::Other, "busy"));
    assert!(materialize_non_regular_member(&link, "/out/link", true, &None, &failed, &mut report)
        .is_err());
    let regular = member("file", TarEntryKind::Regular, None);
    assert!(materialize_non_regular_member(&regular, "/out/f", false, &None, &made(), &mut report)
        .is_err());
    assert_eq!(
        extraction_kind_from_tzap_entry(
            &entry("link", TarEntryKind::Symlink, 0),
            &Some(member("link", TarEntryKind::Symlink, Some("file")))
        ),
        ExtractionKind::Symlink { target: "file".to_owned() }
    );
}

#[test]
fn streams_report_their_size() {
    assert_eq!(
        stream_regular_member_to_destination("a", 5, "/out/a", &StreamStep::Done).unwrap(),
        Some(5)
    );
    assert_eq!(
        stream_regular_member_to_destination("a", 5, "/out/a", &StreamStep::Missing).unwrap(),
        None
    );
    assert!(matches!(
        stream_regular_member_to_destination(
            "a",
            5,
            "/out/a",
            &StreamStep::ContentFailed(ExtractFailure::Format(FormatFault::UnsafeArchivePath))
        ),
        Err(TzapError::Format(FormatFault::UnsafeArchivePath))
    ));
}

#[test]
fn members_stay_below_the_root() {
    assert_eq!(archive_member_path_under_root("/out", "a/b").unwrap(), "/out/a/b");
    assert!(archive_member_path_under_root("/out", "../b").is_err());
    assert!(archive_member_path_under_root("/out", "/etc").is_err());
}

#[test]
fn temporary_roots_are_tried_in_turn() {
    let path = allocate_extraction_root(
        "/out/file.txt",
        42,
        "99",
        &Ok(()),
        &vec![DirectoryOutcome::Exists, DirectoryOutcome::Created],
    )
    .unwrap();
    assert_eq!(path, temporary_extraction_path("/out/file.txt", 42, "99", 1));
    assert_ne!(path, temporary_extraction_path("/out/file.txt", 42, "99", 0));
    assert!(allocate_extraction_root(
        "/out/file.txt",
        42,
        "99",
        &Ok(()),
        &vec![DirectoryOutcome::Failed(IoFailure::new(IoKind::PermissionDenied, "denied"))]
    )
    .is_err());
}

fn moved(how: CommitMove, existed: bool, outcome: Result<(), IoFailure>) -> Option<MoveAnswer> {
    Some(MoveAnswer { how, existed, outcome })
}

fn committed(removed: Option<Result<(), IoFailure>>, moved: Option<MoveAnswer>) -> CommitAnswer {
    CommitAnswer { directory: Some(Ok(())), removed, moved }
}

#[test]
fn one_file_is_extracted_and_committed() {
    let archive = archive(Vec::new());
    let single = |lookup, held| SingleFileAnswer {
        lookup: Some(lookup),
        root: Some(Ok("/out/.tmp".to_owned())),
        held,
        commit: committed(None, moved(CommitMove::LinkNew, false, Ok(()))),
        root_removed: true,
    };
    let run = |answer: &SingleFileAnswer| {
        extract_tzap_file_to_destination_with_optional_password(
            &archive, None, "a", "/out/a", false, answer,
        )
    };
    assert_eq!(run(&single(Ok(Some(5)), Some(Ok(true)))).unwrap(), Some(5));
    assert_eq!(run(&single(Ok(Some(5)), Some(Ok(false)))).unwrap(), None);
    assert_eq!(run(&single(Ok(None), None)).unwrap(), None);
    assert_eq!(
        run(&single(Err(FormatFault::UnsafeArchivePath), None)).unwrap_err(),
        TzapError::Format(FormatFault::UnsafeArchivePath)
    );
    assert_eq!(
        extract_tzap_file_to_destination_with_recipient_key(
            &archive,
            "a",
            "/out/a",
            false,
            &single(Ok(Some(5)), Some(Ok(true)))
        )
        .unwrap_err(),
        TzapError::Format(FormatFault::KeyMaterialMismatch)
    );
    let crossed = moved(CommitMove::LinkNew, false, Err(IoFailure::new(IoKind::Other, "cross-device")));
    assert!(commit_extracted_file("/out/a", false, &committed(None, crossed)).is_err());
    let busy = committed(Some(Err(IoFailure::new(IoKind::Other, "busy"))), None);
    assert!(commit_extracted_file("/out/a", true, &busy).is_err());
}

#[test]
fn an_existing_file_is_kept_without_leave() {
    assert_eq!(commit_move(false), CommitMove::LinkNew);
    assert_eq!(commit_move(true), CommitMove::RenameOver);
    let mut answer = CommitAnswer::nothing();
    assert_eq!(next_commit_step("/out/a", false, &answer), CommitStep::MakeDirectory);
    answer.directory = Some(Ok(()));
    assert_eq!(next_commit_step("/out/a", true, &answer), CommitStep::RemoveExisting);
    assert_eq!(
        next_commit_step("/out/a", false, &answer),
        CommitStep::Move(CommitMove::LinkNew)
    );
    answer.moved = moved(CommitMove::LinkNew, true, Err(IoFailure::new(IoKind::AlreadyExists, "exists")));
    assert_eq!(next_commit_step("/out/a", false, &answer), CommitStep::Finished);
    assert_eq!(
        commit_extracted_file("/out/a", false, &answer).unwrap_err(),
        TzapError::Io { path: "/out/a".to_owned(), source: IoFailure::new(IoKind::AlreadyExists, "exists") }
    );
}

#[test]
fn the_temporary_directory_is_removed_last() {
    let step = |answer: &SingleFileAnswer| next_single_file_step("a", "/out/a", false, answer);
    let mut answer = SingleFileAnswer::nothing();
    assert_eq!(step(&answer), SingleFileStep::LookUp);
    answer.lookup = Some(Ok(Some(5)));
    assert_eq!(step(&answer), SingleFileStep::MakeRoot);
    answer.root = Some(Ok("/out/.tmp".to_owned()));
    assert_eq!(step(&answer), SingleFileStep::Extract);
    answer.held = Some(Ok(true));
    assert_eq!(step(&answer), SingleFileStep::Commit(CommitStep::MakeDirectory));
    answer.commit.directory = Some(Ok(()));
    assert_eq!(step(&answer), SingleFileStep::Commit(CommitStep::Move(CommitMove::LinkNew)));
    answer.commit.moved = moved(CommitMove::LinkNew, true, Err(IoFailure::new(IoKind::AlreadyExists, "exists")));
    assert_eq!(step(&answer), SingleFileStep::RemoveRoot);
    answer.root_removed = true;
    assert_eq!(step(&answer), SingleFileStep::Finished);
    answer.root_removed = false;
    answer.held = Some(Err(FormatFault::UnsafeArchivePath));
    assert_eq!(step(&answer), SingleFileStep::RemoveRoot);
    answer.root = Some(Err(TzapError::Cancelled));
    assert_eq!(step(&answer), SingleFileStep::Finished);
}

#[test]
fn a_member_is_worked_on_step_by_step() {
    let link = entry("dir/link", TarEntryKind::Symlink, 0);
    let mut so_far = answer(write("/out/dir/link", None), None);
    let mut done = MemberDone::nothing();
    assert_eq!(next_member_step(&link, &so_far, &done), MemberStep::CheckCancelled);
    done.checked = true;
    assert_eq!(next_member_step(&link, &so_far, &done), MemberStep::Preload);
    done.preloaded = true;
    so_far.preloaded = Ok(Some(member("dir/link", TarEntryKind::Symlink, Some("file"))));
    assert_eq!(next_member_step(&link, &so_far, &done), MemberStep::Decide);
    done.decided = true;
    assert_eq!(next_member_step(&link, &so_far, &done), MemberStep::AskForSymlinks);
    done.asked = true;
    assert_eq!(next_member_step(&link, &so_far, &done), MemberStep::MakeSymlink);
    so_far.made.made = Err(IoFailure::new(IoKind::PermissionDenied, "denied"));
    done.made = true;
    assert_eq!(next_member_step(&link, &so_far, &done), MemberStep::Finished);
    assert!(member_stops(&link, &so_far));

    let directory = entry("dir", TarEntryKind::Directory, 0);
    let done = MemberDone { checked: true, decided: true, ..MemberDone::nothing() };
    let mut so_far = answer(
        MemberDecision::Write {
            destination: "/out/dir".to_owned(),
            replace_existing: true,
            link_target: None,
        },
        Some(member("dir", TarEntryKind::Directory, None)),
    );
    assert_eq!(next_member_step(&directory, &so_far, &done), MemberStep::Load);
    let done = MemberDone { loaded: true, ..done };
    assert_eq!(next_member_step(&directory, &so_far, &done), MemberStep::RemoveExisting);
    let done = MemberDone { removed: true, ..done };
    assert_eq!(next_member_step(&directory, &so_far, &done), MemberStep::MakeDirectory);
    assert!(!member_stops(&directory, &so_far));
    so_far.loaded = Ok(None);
    assert_eq!(next_member_step(&directory, &so_far, &done), MemberStep::Finished);
    assert!(!member_stops(&directory, &so_far));
    so_far.cancelled = true;
    assert_eq!(next_member_step(&directory, &so_far, &done), MemberStep::Finished);
    assert!(member_stops(&directory, &so_far));

    let hard = entry("hard", TarEntryKind::Hardlink, 0);
    let mut so_far = answer(write("/out/hard", None), None);
    so_far.preloaded = Ok(Some(member("hard", TarEntryKind::Hardlink, Some("file"))));
    let done = MemberDone { checked: true, preloaded: true, decided: true, ..MemberDone::nothing() };
    assert_eq!(next_member_step(&hard, &so_far, &done), MemberStep::Finished);
    assert!(member_stops(&hard, &so_far));
    so_far.decision = write("/out/hard", Some("/out/file"));
    assert_eq!(next_member_step(&hard, &so_far, &done), MemberStep::MakeHardlink);
    assert!(!member_stops(&hard, &so_far));

    let file = entry("file", TarEntryKind::Regular, 3);
    let done = MemberDone { checked: true, decided: true, ..MemberDone::nothing() };
    let mut so_far = answer(write("/out/file", None), None);
    assert_eq!(next_member_step(&file, &so_far, &done), MemberStep::Stream);
    so_far.stream = StreamStep::OutputFailed(IoFailure::new(IoKind::Other, "full"));
    assert!(member_stops(&file, &so_far));
    so_far.decision = MemberDecision::Rejected("escapes".to_owned());
    assert_eq!(next_member_step(&file, &so_far, &done), MemberStep::Finished);
}

#[test]
fn only_written_bytes_have_to_be_counted() {
    let huge = || entry("huge", TarEntryKind::Regular, u64::MAX);
    let files = vec![huge(), huge()];
    let written = || answer(write("/out/huge", None), None);
    let skipped = || answer(MemberDecision::Skip("exists".to_owned()), None);
    assert!(extraction_fits(&files, &vec![written(), skipped()]));
    assert!(!extraction_fits(&files, &vec![written(), written()]));
    assert!(!extraction_fits(&files, &vec![written()]));
    let input = archive(files);
    let report =
        extract_tzap_with_password(&input, "", "/out", &Ok(()), &vec![skipped(), written()])
            .unwrap();
    assert_eq!((report.written_bytes, report.skipped_entries), (u64::MAX, 1));

    let index = vec![
        ArchiveIndexEntry { path: "a".to_owned(), file_data_size: u64::MAX },
        ArchiveIndexEntry { path: "b".to_owned(), file_data_size: 1 },
    ];
    let copied = vec![Ok(true), Ok(true)];
    assert!(copy_can_be_counted(&index, &vec![true, false], &copied));
    assert!(!copy_can_be_counted(&index, &vec![true, true], &copied));
    assert!(!copy_can_be_counted(&index, &vec![true], &copied));
}

#[test]
fn an_entry_of_the_index_is_worked_on_step_by_step() {
    let directory = ArchiveIndexEntry { path: "dir/".to_owned(), file_data_size: 0 };
    let file = ArchiveIndexEntry { path: "dir/file".to_owned(), file_data_size: 3 };
    let mut so_far = IndexAnswer {
        cancelled: false,
        decision: write("/out/dir", None),
        stream: StreamStep::Done,
        reported: Vec::new(),
        made: Ok(()),
    };
    let mut done = IndexDone::nothing();
    assert_eq!(next_index_step(&file, &so_far, &done), IndexStep::CheckCancelled);
    done.checked = true;
    assert_eq!(next_index_step(&file, &so_far, &done), IndexStep::Decide);
    done.decided = true;
    assert_eq!(next_index_step(&file, &so_far, &done), IndexStep::Stream);
    assert_eq!(next_index_step(&directory, &so_far, &done), IndexStep::MakeDirectory);
    done.written = true;
    assert_eq!(next_index_step(&file, &so_far, &done), IndexStep::Finished);
    so_far.stream = StreamStep::ContentFailed(ExtractFailure::Format(
        FormatFault::ReaderUnsupported("sparse".to_owned()),
    ));
    assert!(!entry_stops(&file, &so_far));
    so_far.stream =
        StreamStep::ContentFailed(ExtractFailure::Format(FormatFault::UnsafeArchivePath));
    assert!(entry_stops(&file, &so_far));
    assert!(!entry_stops(&directory, &so_far));
    so_far.made = Err(IoFailure::new(IoKind::PermissionDenied, "denied"));
    assert!(entry_stops(&directory, &so_far));
}

#[test]
fn an_output_appears_once_it_is_whole() {
    let mut answer = OutputAnswer::nothing();
    assert_eq!(next_output_step(&answer), OutputStep::Create);
    answer.created = Some(Ok(()));
    assert_eq!(next_output_step(&answer), OutputStep::Copy);
    answer.copied = Some(Ok(true));
    assert_eq!(next_output_step(&answer), OutputStep::Commit);
    answer.committed = Some(Ok(()));
    assert_eq!(next_output_step(&answer), OutputStep::Finished);
    assert_eq!(settle_output(answer), StreamStep::Done);
    let missing =
        OutputAnswer { created: Some(Ok(())), copied: Some(Ok(false)), committed: None };
    assert_eq!(next_output_step(&missing), OutputStep::Finished);
    assert_eq!(settle_output(missing), StreamStep::Missing);
    let full = OutputAnswer { created: Some(Err(IoFailure::new(IoKind::Other, "full"))), copied: None, committed: None };
    assert_eq!(next_output_step(&full), OutputStep::Finished);
    assert_eq!(settle_output(full), StreamStep::OutputFailed(IoFailure::new(IoKind::Other, "full")));
}

