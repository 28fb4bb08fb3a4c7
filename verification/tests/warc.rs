use zmanager_core::disk_extract::EntryDecision;
use zmanager_core::failure::{IoFailure, IoKind};
use zmanager_core::report::TestOptions;
use zmanager_core::warc::{
    RecordAnswer, RecordOutcome, WarcError, copy, copy_by_path_occurrence, extract, list,
    record_stops, scan_records, target_path,
};

fn build_warc(records: &[(&str, Option<&str>, &[u8])]) -> Vec<u8> {
    let mut warc = Vec::new();
    for (i, &(record_type, target_uri, body)) in records.iter().enumerate() {
        warc.extend_from_slice(b"WARC/1.0\r\n");
        warc.extend_from_slice(format!("WARC-Type: {record_type}\r\n").as_bytes());
        warc.extend_from_slice(
            format!("WARC-Record-ID: <urn:uuid:00000000-0000-0000-0000-{i:012}>\r\n").as_bytes(),
        );
        warc.extend_from_slice(b"WARC-Date: 2026-01-01T12:00:00Z\r\n");
        if let Some(uri) = target_uri {
            warc.extend_from_slice(format!("WARC-Target-URI: {uri}\r\n").as_bytes());
        }
        warc.extend_from_slice(format!("Content-Length: {}\r\n", body.len()).as_bytes());
        warc.extend_from_slice(b"\r\n");
        warc.extend_from_slice(body);
        warc.extend_from_slice(b"\r\n\r\n");
    }
    warc
}

/// What a normalizer that keeps every path makes of the targets of a stream.
fn kept_paths(file: &[u8]) -> Vec<Option<String>> {
    let scan = scan_records("sample.warc", file);
    scan.records.iter().map(|record| record.target.as_deref().map(target_path)).collect()
}

fn done(destination: &str) -> RecordAnswer {
    RecordAnswer {
        cancelled: false,
        decision: EntryDecision::Write {
            destination: destination.to_owned(),
            replace_existing: false,
        },
        written: RecordOutcome::Done,
    }
}

#[test]
fn test_warc_list_test_extract_and_copy() {
    let path = "sample.warc";
    let file = build_warc(&[
        ("warcinfo", None, b"software: test\n"),
        ("response", Some("http://example.com/page.html"), b"<html><body>Hello</body></html>"),
    ]);
    let normalized = kept_paths(&file);

    let entries = list(path, &file, &normalized).unwrap();
    assert_eq!(entries.len(), 2);
    assert!(entries[0].path.starts_with("records/00000000-warcinfo"));
    assert_eq!(entries[0].size, 15);
    assert_eq!(entries[1].path, "example.com/page.html");
    assert_eq!(entries[1].size, 31);

    let test_report = zmanager_core::warc::test(path, &file, &normalized, &TestOptions::default()).unwrap();
    assert_eq!(test_report.entries, 2);
    assert_eq!(test_report.bytes, 15 + 31);

    let sel_opts = TestOptions {
        selected_paths: vec!["example.com/page.html".to_string()],
        ..TestOptions::default()
    };
    let sel_report = zmanager_core::warc::test(path, &file, &normalized, &sel_opts).unwrap();
    assert_eq!(sel_report.entries, 1);
    assert_eq!(sel_report.skipped_entries, 1);

    let answers = vec![done("out/info"), done("out/example.com/page.html")];
    let extract_report = extract(path, &file, &normalized, "out", &Ok(()), &answers).unwrap();
    assert_eq!(extract_report.entries, 2);

    let copied = copy(path, &file, &normalized, 1).unwrap();
    assert_eq!(copied.len(), 31);
    assert_eq!(copied, b"<html><body>Hello</body></html>");

    let copied_occ =
        copy_by_path_occurrence(path, &file, &normalized, "example.com/page.html", 0).unwrap();
    assert_eq!(copied_occ.len(), 31);
    assert_eq!(copied_occ, b"<html><body>Hello</body></html>");
}

#[test]
fn test_warc_error_handling() {
    let corrupt = b"WARC/1.0\r\nWARC-Type: invalid\r\n\r\n";
    assert!(list("corrupt.warc", corrupt, &kept_paths(corrupt)).is_err());
    assert!(list("junk.warc", b"junk", &Vec::new()).is_err());
    assert!(copy("empty.warc", b"", &Vec::new(), 0).is_err());

    let inv_err =
        WarcError::Invalid { path: "a.warc".to_owned(), message: "corrupt".to_string() };
    assert!(inv_err.message().contains("invalid WARC"));

    let io_err = WarcError::Io { path: "b.warc".to_owned(), source: IoFailure::new(IoKind::NotFound, "err") };
    assert!(io_err.message().contains("I/O failed"));

    let cancelled = WarcError::Cancelled;
    assert_eq!(cancelled.message(), "job cancelled");

    let safety = WarcError::Safety("path is empty".to_owned());
    assert!(safety.message().contains("extraction safety"));
}

#[test]
fn records_of_one_target_get_paths_of_their_own() {
    let file = build_warc(&[
        ("response", Some("http://example.com/a"), b"one"),
        ("response", Some("http://example.com/a"), b"two"),
    ]);
    let entries = list("twice.warc", &file, &kept_paths(&file)).unwrap();
    assert_ne!(entries[0].path, entries[1].path);
    assert_eq!(copy("twice.warc", &file, &kept_paths(&file), 1).unwrap(), b"two");
}

#[test]
fn a_stopped_job_leaves_the_rest() {
    let file = build_warc(&[("warcinfo", None, b"a"), ("warcinfo", None, b"b")]);
    let stopped = TestOptions { selected_paths: Vec::new(), cancelled_from: Some(1) };
    assert!(matches!(
        zmanager_core::warc::test("s.warc", &file, &kept_paths(&file), &stopped),
        Err(WarcError::Cancelled)
    ));
    let mut answers = vec![done("out/a"), done("out/b")];
    answers[1].written = RecordOutcome::DestinationFailed(IoFailure::new(IoKind::Other, "full"));
    assert_eq!(
        extract("s.warc", &file, &kept_paths(&file), "out", &Ok(()), &answers).unwrap_err().message(),
        "I/O failed for out/b: full"
    );
    answers[1].decision = EntryDecision::Skip { warning: None };
    let report = extract("s.warc", &file, &kept_paths(&file), "out", &Ok(()), &answers).unwrap();
    assert_eq!((report.entries, report.skipped_entries), (1, 1));
    answers[1].decision = EntryDecision::Rejected("unsafe".to_owned());
    assert!(matches!(
        extract("s.warc", &file, &kept_paths(&file), "out", &Ok(()), &answers),
        Err(WarcError::Safety(_))
    ));
}

#[test]
fn records_that_are_cut_short_are_refused() {
    let mut file = build_warc(&[("warcinfo", None, b"software: test\n")]);
    file.truncate(file.len() - 3);
    assert!(list("cut.warc", &file, &kept_paths(&file)).is_err());
}

#[test]
fn records_are_not_extracted_without_a_destination() {
    let file = build_warc(&[("warcinfo", None, b"a"), ("warcinfo", None, b"b")]);
    let denied = Err(IoFailure::new(IoKind::PermissionDenied, "denied"));
    assert_eq!(
        extract("s.warc", &file, &kept_paths(&file), "out", &denied, &Vec::new()).unwrap_err(),
        WarcError::Io {
            path: "out".to_owned(),
            source: IoFailure::new(IoKind::PermissionDenied, "denied"),
        }
    );
    assert!(matches!(
        extract("s.warc", &file, &kept_paths(&file), "out", &Ok(()), &vec![done("out/a")]),
        Err(WarcError::Cancelled)
    ));
    assert!(!record_stops(&done("out/a")));
    let mut failing = done("out/a");
    failing.written = RecordOutcome::CopyFailed(IoFailure::new(IoKind::Other, "full"));
    assert!(record_stops(&failing));
    failing.decision = EntryDecision::Skip { warning: None };
    assert!(!record_stops(&failing));
    failing.cancelled = true;
    assert!(record_stops(&failing));
}

#[test]
fn a_record_that_is_cut_short_says_so_by_its_kind() {
    let mut file = build_warc(&[("warcinfo", None, b"software: test\n")]);
    file.truncate(file.len() - 10);
    assert!(matches!(
        list("cut.warc", &file, &kept_paths(&file)),
        Err(WarcError::Io { path, source })
            if path == "cut.warc" && source.kind == IoKind::UnexpectedEof
    ));
}
