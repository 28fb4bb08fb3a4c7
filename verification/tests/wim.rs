use sha1::Digest;
use zmanager_core::disk_extract::EntryDecision;
use zmanager_core::failure::{IoFailure, IoKind};
use zmanager_core::report::TestOptions;
use zmanager_core::wim::{
    WimAnswer, WimBackendError, WimEntry, WimEntryKind, WimError, WimListing, WimStream,
    check_stream, copy_to_writer, entry_stops, entry_work, extract, is_left_out, list,
};
use zmanager_core::work::ArchiveWork;

const README: &[u8] = b"ZManager fixture payload\n";
const NESTED: &[u8] = b"nested fixture file\n";

fn sha1_of(data: &[u8]) -> [u8; 20] {
    sha1::Sha1::digest(data).into()
}

fn entry(path: &str, kind: WimEntryKind, data: &[u8]) -> WimEntry {
    WimEntry {
        path: path.to_owned(),
        kind,
        size: data.len() as u64,
        sha1: sha1_of(data),
        link_target: None,
    }
}

fn basic() -> (WimListing, Vec<WimStream>) {
    let entries = vec![
        entry("README.txt", WimEntryKind::File, README),
        entry("nested", WimEntryKind::Directory, b""),
        entry("nested/file.txt", WimEntryKind::File, NESTED),
    ];
    let streams =
        vec![Ok(Some(README.to_vec())), Ok(None), Ok(Some(NESTED.to_vec()))];
    (Ok(entries), streams)
}

fn answer(destination: &str) -> WimAnswer {
    WimAnswer {
        cancelled: false,
        decision: EntryDecision::Write {
            destination: destination.to_owned(),
            replace_existing: true,
        },
        removed: Ok(()),
        made: Ok(()),
        unsupported_symlink: None,
    }
}

#[test]
fn copy_to_writer_streams_selected_entry() {
    let (listing, streams) = basic();
    let mut readme_bytes = Vec::new();
    let written =
        copy_to_writer("basic.wim", &listing, &streams, "README.txt", &mut readme_bytes).unwrap();
    assert_eq!(readme_bytes, b"ZManager fixture payload\n");
    assert_eq!(written, readme_bytes.len() as u64);

    let mut nested_bytes = Vec::new();
    let written_nested =
        copy_to_writer("basic.wim", &listing, &streams, "nested/file.txt", &mut nested_bytes)
            .unwrap();
    assert_eq!(nested_bytes, b"nested fixture file\n");
    assert_eq!(written_nested, nested_bytes.len() as u64);

    let mut missing_bytes = Vec::new();
    let error =
        copy_to_writer("basic.wim", &listing, &streams, "nonexistent.txt", &mut missing_bytes)
            .unwrap_err();
    assert!(missing_bytes.is_empty());
    assert!(error.message().contains("not found"), "{}", error.message());
}

#[test]
fn test_honours_selection_and_cancellation() {
    let (listing, streams) = basic();

    let options = TestOptions {
        selected_paths: vec!["README.txt".to_owned()],
        ..TestOptions::default()
    };
    let report = zmanager_core::wim::test("basic.wim", &listing, &streams, &options).unwrap();
    assert_eq!(report.entries, 1);
    assert_eq!(report.bytes, "ZManager fixture payload\n".len() as u64);
    assert!(report.skipped_entries > 0);

    let options_cancelled = TestOptions { cancelled_from: Some(0), ..TestOptions::default() };
    assert!(matches!(
        zmanager_core::wim::test("basic.wim", &listing, &streams, &options_cancelled),
        Err(WimBackendError::Cancelled)
    ));

    let mut cancelled = answer("out/README.txt");
    cancelled.cancelled = true;
    assert!(matches!(
        extract(&listing, &streams, "out", &Ok(()), &vec![cancelled]),
        Err(WimBackendError::Cancelled)
    ));
}

#[test]
fn reference_wim_fixtures_list_and_extract_for_all_compressions() {
    let (listing, streams) = basic();
    let entries = list(&listing).unwrap();
    let paths: Vec<&str> = entries.iter().map(|entry| entry.path.as_str()).collect();
    for expected in ["README.txt", "nested", "nested/file.txt"] {
        assert!(paths.contains(&expected), "missing {expected} in {paths:?}");
    }
    let answers = vec![answer("out/README.txt"), answer("out/nested"), answer("out/nested/file.txt")];
    let extract_report = extract(&listing, &streams, "out", &Ok(()), &answers).unwrap();
    let declared: u64 = entries
        .iter()
        .filter(|entry| entry.kind == WimEntryKind::File)
        .map(|entry| entry.size)
        .sum();
    assert_eq!(extract_report.bytes, declared, "written bytes must sum declared file sizes");
    let test_report = zmanager_core::wim::test("basic.wim", &listing, &streams, &TestOptions::default()).unwrap();
    assert_eq!(test_report.bytes, declared, "verified bytes must match declared total");
    assert_eq!(test_report.entries, entries.len(), "test entries must count all entries");
}

#[test]
fn damaged_streams_are_told_apart() {
    let (listing, mut streams) = basic();
    streams[0] = Ok(Some(b"short".to_vec()));
    let error = zmanager_core::wim::test("basic.wim", &listing, &streams, &TestOptions::default()).unwrap_err();
    assert_eq!(
        error.message(),
        "invalid WIM basic.wim: WIM entry README.txt decoded to 5 bytes, expected 25"
    );
    let mut damaged = README.to_vec();
    damaged[0] = b'Y';
    streams[0] = Ok(Some(damaged));
    let error = zmanager_core::wim::test("basic.wim", &listing, &streams, &TestOptions::default()).unwrap_err();
    assert!(error.message().contains("but the lookup table records"), "{}", error.message());

    let entries = list(&listing).unwrap();
    assert_eq!(
        check_stream("basic.wim", &entries[0], &README.to_vec(), &sha1_of(README)).unwrap(),
        25
    );
    assert!(check_stream("basic.wim", &entries[0], &README.to_vec(), &[0; 20]).is_err());
}

#[test]
fn reader_failures_pass_through() {
    let unsupported: WimListing =
        Err(WimError::Unsupported { path: "x.wim".to_owned(), message: "solid".to_owned() });
    assert_eq!(list(&unsupported).unwrap_err().message(), "unsupported WIM x.wim: solid");
    let invalid: WimListing =
        Err(WimError::Invalid { path: "x.wim".to_owned(), message: "magic".to_owned() });
    assert_eq!(list(&invalid).unwrap_err().message(), "invalid WIM x.wim: magic");
    let io: WimListing =
        Err(WimError::Io { path: "x.wim".to_owned(), source: IoFailure::new(IoKind::NotFound, "gone") });
    assert_eq!(list(&io).unwrap_err().message(), "I/O failed for x.wim: gone");
    assert_eq!(
        WimBackendError::Plan("no".to_owned()).message(),
        "manifest planning failed: no"
    );
    let (listing, streams) = basic();
    let error =
        extract(&listing, &streams, "out", &Err(IoFailure::new(IoKind::PermissionDenied, "denied")), &Vec::new()).unwrap_err();
    assert_eq!(error.message(), "I/O failed for out: denied");
}

#[test]
fn links_that_lead_nowhere_are_skipped_with_a_warning() {
    let mut link = entry("link", WimEntryKind::Symlink, b"");
    let listing: WimListing = Ok(vec![link]);
    let report = extract(&listing, &Vec::new(), "out", &Ok(()), &vec![answer("out/link")]).unwrap();
    assert_eq!(
        report.warnings,
        vec!["skipped reparse point link: the image does not expose a usable link target"]
    );
    link = entry("link", WimEntryKind::Symlink, b"");
    link.link_target = Some("README.txt".to_owned());
    let listing: WimListing = Ok(vec![link]);
    let report = extract(&listing, &Vec::new(), "out", &Ok(()), &vec![answer("out/link")]).unwrap();
    assert_eq!(report.entries, 1);
    let mut unable = answer("out/link");
    unable.unsupported_symlink = Some("no links here".to_owned());
    let report = extract(&listing, &Vec::new(), "out", &Ok(()), &vec![unable]).unwrap();
    assert_eq!((report.skipped_entries, report.warnings.len()), (1, 1));
    let mut failing = answer("out/link");
    failing.removed = Err(IoFailure::new(IoKind::Other, "busy"));
    assert_eq!(
        extract(&listing, &Vec::new(), "out", &Ok(()), &vec![failing]).unwrap_err().message(),
        "I/O failed for out/link: busy"
    );
    let mut rejected = answer("out/link");
    rejected.decision = EntryDecision::Rejected("escapes".to_owned());
    assert_eq!(
        extract(&listing, &Vec::new(), "out", &Ok(()), &vec![rejected]).unwrap_err().message(),
        "extraction safety rejected entry: escapes"
    );
}

#[test]
fn the_work_for_an_image_entry_is_decided() {
    let file = entry("README.txt", WimEntryKind::File, README);
    let directory = entry("nested", WimEntryKind::Directory, b"");
    let mut link = entry("link", WimEntryKind::Symlink, b"");
    assert!(is_left_out(&link) && !is_left_out(&file));
    assert_eq!(entry_work(&file, true, &None), ArchiveWork::WriteFile);
    assert_eq!(entry_work(&directory, true, &None), ArchiveWork::MakeDirectory { remove: true });
    assert!(matches!(entry_work(&link, false, &None), ArchiveWork::SkipLink { .. }));
    link.link_target = Some("README.txt".to_owned());
    assert!(!is_left_out(&link));
    assert_eq!(
        entry_work(&link, true, &None),
        ArchiveWork::MakeSymlink { target: "README.txt".to_owned(), remove: true }
    );
    assert_eq!(
        entry_work(&link, true, &Some("no links".to_owned())),
        ArchiveWork::SkipLink { warning: "no links".to_owned() }
    );
}

#[test]
fn an_extraction_of_an_image_ends_at_an_entry_that_cannot_be_decoded() {
    let file = entry("README.txt", WimEntryKind::File, README);
    let undecodable: WimStream =
        Err(WimError::Invalid { path: "x.wim".to_owned(), message: "lzx".to_owned() });
    assert!(entry_stops(&file, &undecodable, &answer("out/README.txt")));
    assert!(!entry_stops(&file, &Ok(None), &answer("out/README.txt")));
    let directory = entry("nested", WimEntryKind::Directory, b"");
    assert!(!entry_stops(&directory, &undecodable, &answer("out/nested")));
    let mut failing = answer("out/nested");
    failing.made = Err(IoFailure::new(IoKind::PermissionDenied, "denied"));
    assert!(entry_stops(&directory, &Ok(None), &failing));
    failing.decision = EntryDecision::Skip { warning: None };
    assert!(!entry_stops(&directory, &Ok(None), &failing));
    failing.cancelled = true;
    assert!(entry_stops(&directory, &Ok(None), &failing));
}
