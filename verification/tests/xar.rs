use std::io::Write;
use zmanager_core::disk_extract::EntryDecision;
use zmanager_core::failure::{IoFailure, IoKind};
use zmanager_core::report::TestOptions;
use zmanager_core::work::ArchiveWork;
use zmanager_core::xar::{
    NormalPath, TocData, TocFile, XarAnswer, XarEntryKind, XarError, XarToc, collect_entries,
    copy, copy_by_path_occurrence, entry_stops, entry_work, extract, list, normalize_xar_path,
    path_to_normalize, read_entry_to,
};

fn zlib(data: &[u8]) -> Vec<u8> {
    let mut encoder = flate2::write::ZlibEncoder::new(Vec::new(), flate2::Compression::fast());
    encoder.write_all(data).unwrap();
    encoder.finish().unwrap()
}

fn gzip(data: &[u8]) -> Vec<u8> {
    let mut encoder = flate2::write::GzEncoder::new(Vec::new(), flate2::Compression::fast());
    encoder.write_all(data).unwrap();
    encoder.finish().unwrap()
}

fn bzip2(data: &[u8]) -> Vec<u8> {
    let mut encoder = bzip2::write::BzEncoder::new(Vec::new(), bzip2::Compression::fast());
    encoder.write_all(data).unwrap();
    encoder.finish().unwrap()
}

const README: &[u8] = b"ZManager fixture payload\n";
const NESTED: &[u8] = b"nested fixture file, nested fixture file\n";

fn data_xml(offset: usize, length: usize, size: usize, encoding: &str) -> String {
    format!(
        "<data><offset>{offset}</offset><length>{length}</length><size>{size}</size>\
         <encoding style=\"{encoding}\"/></data>"
    )
}

/// An archive with a directory, files in every encoding, and a link.
fn build_xar() -> Vec<u8> {
    let stored = [README.to_vec(), gzip(NESTED), zlib(NESTED), bzip2(NESTED)];
    let encodings =
        ["application/octet-stream", "application/x-gzip", "application/x-gzip", "application/x-bzip2"];
    let names = ["README.txt", "gzip.txt", "zlib.txt", "bzip2.txt"];
    let sizes = [README.len(), NESTED.len(), NESTED.len(), NESTED.len()];
    let mut heap = Vec::new();
    let mut files = String::new();
    for i in 0..4 {
        files.push_str(&format!(
            "<file id=\"{}\"><name>{}</name><type>file</type>{}</file>",
            i + 2,
            names[i],
            data_xml(heap.len(), stored[i].len(), sizes[i], encodings[i])
        ));
        heap.extend_from_slice(&stored[i]);
    }
    files.push_str(
        "<file id=\"9\"><name>readme-link.txt</name><type>symlink</type>\
         <link type=\"file\">../README.txt</link></file>",
    );
    let xml = format!(
        "<?xml version=\"1.0\" encoding=\"UTF-8\"?><xar><toc>\
         <file id=\"1\"><name>payload</name><type>directory</type>{files}</file></toc></xar>"
    );
    let toc = zlib(xml.as_bytes());
    let mut out = Vec::new();
    out.extend_from_slice(b"xar!");
    out.extend_from_slice(&28_u16.to_be_bytes());
    out.extend_from_slice(&1_u16.to_be_bytes());
    out.extend_from_slice(&(toc.len() as u64).to_be_bytes());
    out.extend_from_slice(&(xml.len() as u64).to_be_bytes());
    out.extend_from_slice(&0_u32.to_be_bytes());
    out.extend_from_slice(&toc);
    out.extend_from_slice(&heap);
    out
}

fn answer(destination: &str) -> XarAnswer {
    XarAnswer {
        cancelled: false,
        decision: EntryDecision::Write {
            destination: destination.to_owned(),
            replace_existing: true,
        },
        removed: Ok(()),
        created: Ok(()),
        written: Ok(()),
        committed: Ok(()),
        unsupported_symlink: None,
    }
}

/// The paths of an archive, each of which is in normal form.
fn normal_forms(archive: &[u8]) -> Vec<NormalPath> {
    let opened = dpp::xara::XarArchive::open(std::io::Cursor::new(archive)).unwrap();
    opened
        .files()
        .iter()
        .filter_map(|file| path_to_normalize(&file.path))
        .map(|path| NormalPath { outcome: Ok(path.clone()), path })
        .collect()
}

#[test]
fn test_xar_list_test_extract_and_copy() {
    let path = "basic.xar";
    let archive = build_xar();
    let forms = normal_forms(&archive);
    let file = Ok(archive);

    let entries = list(path, &file, &forms).unwrap();
    assert!(!entries.is_empty());
    let has_readme = entries.iter().any(|entry| entry.path.ends_with("README.txt"));
    assert!(has_readme, "XAR entries should contain README.txt");
    let readme_link = entries.iter().find(|entry| entry.path.ends_with("readme-link.txt"));
    assert_eq!(
        readme_link.and_then(|entry| entry.link_target.as_deref()),
        Some("../README.txt")
    );

    let test_report = zmanager_core::xar::test(path, &file, &forms, &TestOptions::default()).unwrap();
    assert!(test_report.entries > 0);
    assert_eq!(test_report.bytes, (README.len() + 3 * NESTED.len()) as u64);

    let sel_opts = TestOptions {
        selected_paths: vec!["payload/README.txt".to_string()],
        ..TestOptions::default()
    };
    let sel_report = zmanager_core::xar::test(path, &file, &forms, &sel_opts).unwrap();
    assert_eq!(sel_report.entries, 1);

    let answers: Vec<XarAnswer> = entries.iter().map(|entry| answer(&entry.path)).collect();
    let extract_report = extract(path, &file, &forms, "out", &Ok(()), &answers).unwrap();
    assert_eq!(extract_report.entries, entries.len());
    assert!(extract_report.bytes > 0);

    let readme_idx = entries.iter().position(|e| e.path.ends_with("README.txt")).unwrap();
    let copied = copy(path, &file, &forms, readme_idx).unwrap();
    assert_eq!(copied, README);

    let copied_occ =
        copy_by_path_occurrence(path, &file, &forms, &entries[readme_idx].path, 0).unwrap();
    assert_eq!(copied_occ, copied);
    assert!(copy_by_path_occurrence(path, &file, &forms, &entries[readme_idx].path, 1).is_err());
    for name in ["payload/gzip.txt", "payload/zlib.txt", "payload/bzip2.txt"] {
        assert_eq!(copy_by_path_occurrence(path, &file, &forms, name, 0).unwrap(), NESTED);
    }
    let directory = entries.iter().position(|e| e.kind == XarEntryKind::Directory).unwrap();
    assert_eq!(
        copy(path, &file, &forms, directory).unwrap_err().message(),
        "invalid XAR basic.xar: retained XAR entry is not a regular file"
    );
    assert_eq!(
        copy(path, &file, &forms, 99).unwrap_err().message(),
        "invalid XAR basic.xar: retained XAR entry ID is not present"
    );
}

#[test]
fn test_xar_error_handling() {
    let missing = Err(IoFailure::new(IoKind::NotFound, "not found"));
    let forms = Vec::new();
    assert!(list("missing.xar", &missing, &forms).is_err());
    assert!(zmanager_core::xar::test("missing.xar", &missing, &forms, &TestOptions::default()).is_err());
    assert!(extract("missing.xar", &missing, &forms, "out", &Ok(()), &Vec::new()).is_err());
    assert!(copy("missing.xar", &missing, &forms, 0).is_err());

    let corrupt = Ok(b"not a xar archive".to_vec());
    assert!(matches!(list("corrupt.xar", &corrupt, &forms), Err(XarError::Parser { .. })));

    let parser_err =
        XarError::Parser { path: "a.xar".to_owned(), message: "parse failed".to_string() };
    assert!(parser_err.message().contains("invalid XAR"));

    let io_err = XarError::Io { path: "b.xar".to_owned(), source: IoFailure::new(IoKind::NotFound, "err") };
    assert!(io_err.message().contains("I/O failed"));

    let cancelled = XarError::Cancelled;
    assert_eq!(cancelled.message(), "job cancelled");

    let safety = XarError::Safety("path is empty".to_owned());
    assert!(safety.message().contains("extraction safety"));
}

fn plain(path: &str, offset: u64, length: u64, size: u64, encoding: &str) -> TocFile {
    TocFile {
        path: path.to_owned(),
        kind: XarEntryKind::File,
        link: None,
        data: Some(TocData { offset, length, size, encoding: encoding.to_owned() }),
    }
}

#[test]
fn paths_lose_a_leading_slash() {
    assert_eq!(path_to_normalize("/etc/file").as_deref(), Some("etc/file"));
    assert_eq!(path_to_normalize(".//file").as_deref(), Some("file"));
    assert_eq!(path_to_normalize("./file").as_deref(), Some("./file"));
    assert_eq!(path_to_normalize("file").as_deref(), Some("file"));
    assert_eq!(path_to_normalize("."), None);
    assert_eq!(path_to_normalize(""), None);
    assert_eq!(path_to_normalize("/"), None);
}

#[test]
fn a_path_that_was_not_normalized_is_rejected() {
    assert!(matches!(normalize_xar_path("../evil", &Vec::new()), Err(XarError::Safety(_))));
    let forms = vec![NormalPath { path: "a/./b".to_owned(), outcome: Ok("a/b".to_owned()) }];
    assert_eq!(normalize_xar_path("/a/./b", &forms).unwrap().as_deref(), Some("a/b"));
    assert!(normalize_xar_path("a/b", &forms).is_err());
    assert_eq!(normalize_xar_path("/", &Vec::new()).unwrap(), None);
}

#[test]
fn no_path_is_listed_twice() {
    let octets = "application/octet-stream";
    let toc = XarToc {
        header_size: 28,
        toc_compressed_len: 0,
        files: vec![plain("/a", 0, 0, 0, octets), plain("a", 0, 0, 0, octets)],
    };
    let forms = vec![NormalPath { path: "a".to_owned(), outcome: Ok("a".to_owned()) }];
    let error = collect_entries("x.xar", &toc, &forms).unwrap_err();
    assert_eq!(error.message(), "invalid XAR x.xar: XAR contains duplicate path a");
    let forms = vec![NormalPath { path: "a".to_owned(), outcome: Err("unsafe".to_owned()) }];
    assert!(matches!(collect_entries("x.xar", &toc, &forms), Err(XarError::Safety(_))));
    let toc = XarToc {
        header_size: 28,
        toc_compressed_len: 0,
        files: vec![plain("./", 0, 0, 0, octets), plain(".", 0, 0, 0, octets), plain("b//c", 0, 0, 7, octets)],
    };
    let forms = vec![
        NormalPath { path: "b//c".to_owned(), outcome: Ok("b/c".to_owned()) },
        NormalPath { path: "./".to_owned(), outcome: Ok("top".to_owned()) },
    ];
    let entries = collect_entries("x.xar", &toc, &forms).unwrap();
    assert_eq!(entries.len(), 2);
    assert_eq!((entries[1].index, entries[1].path.as_str(), entries[1].size), (1, "b/c", 7));
}

#[test]
fn content_must_have_its_declared_size() {
    let toc = XarToc { header_size: 2, toc_compressed_len: 1, files: Vec::new() };
    let file = b"___content";
    let octets = "application/octet-stream";
    assert_eq!(read_entry_to("x", &toc, &plain("f", 0, 7, 7, octets), file).unwrap(), b"content");
    assert_eq!(
        read_entry_to("x", &toc, &plain("f", 0, 7, 9, octets), file).unwrap_err().message(),
        "invalid XAR x: XAR file f decoded to 7 bytes, expected 9"
    );
    assert_eq!(
        read_entry_to("x", &toc, &plain("f", 50, 7, 7, octets), file).unwrap_err().message(),
        "invalid XAR x: XAR file f decoded to 0 bytes, expected 7"
    );
    assert_eq!(
        read_entry_to("x", &toc, &plain("f", u64::MAX, 1, 1, octets), file).unwrap_err().message(),
        "invalid XAR x: XAR file offset overflows"
    );
    assert!(matches!(
        read_entry_to("x", &toc, &plain("f", 1 << 63, 1, 1, octets), file),
        Err(XarError::Io { source, .. }) if source.kind == IoKind::InvalidInput
    ));
    let far = XarToc { header_size: 2, toc_compressed_len: u64::MAX, files: Vec::new() };
    assert_eq!(
        read_entry_to("x", &far, &plain("f", 0, 1, 1, octets), file).unwrap_err().message(),
        "invalid XAR x: XAR heap offset overflows"
    );
    assert_eq!(
        read_entry_to("x", &toc, &plain("f", 0, 7, 7, "application/x-lzma"), file)
            .unwrap_err()
            .message(),
        "invalid XAR x: unsupported XAR file encoding application/x-lzma"
    );
    assert!(matches!(
        read_entry_to("x", &toc, &plain("f", 6, 1, 1, "application/x-gzip"), file),
        Err(XarError::Io { source, .. }) if source.kind == IoKind::UnexpectedEof
    ));
    assert!(matches!(
        read_entry_to("x", &toc, &plain("f", 0, 7, 7, "application/zlib"), file),
        Err(XarError::Io { source, .. }) if source.kind == IoKind::InvalidInput
    ));
    let mut longer = b"___".to_vec();
    longer.extend_from_slice(&zlib(b"seven bytes and more"));
    let entry = plain("f", 0, 100, 7, "application/zlib");
    assert_eq!(
        read_entry_to("x", &toc, &entry, &longer).unwrap_err().message(),
        "invalid XAR x: XAR file f decoded to 8 bytes, expected 7"
    );
    let bare = TocFile { path: "d".to_owned(), kind: XarEntryKind::File, link: None, data: None };
    assert!(read_entry_to("x", &toc, &bare, file).unwrap().is_empty());
}

#[test]
fn extraction_follows_the_answers() {
    let archive = build_xar();
    let forms = normal_forms(&archive);
    let file = Ok(archive);
    let entries = list("basic.xar", &file, &forms).unwrap();
    let run = |change: &dyn Fn(&mut Vec<XarAnswer>)| {
        let mut answers: Vec<XarAnswer> = entries.iter().map(|e| answer(&e.path)).collect();
        change(&mut answers);
        extract("basic.xar", &file, &forms, "out", &Ok(()), &answers)
    };
    let link = entries.iter().position(|e| e.kind == XarEntryKind::Symlink).unwrap();
    let dir = entries.iter().position(|e| e.kind == XarEntryKind::Directory).unwrap();
    let readme = entries.iter().position(|e| e.path == "payload/README.txt").unwrap();
    let report = run(&|a| a[link].unsupported_symlink = Some("no links".to_owned())).unwrap();
    assert_eq!((report.skipped_entries, report.warnings), (1, vec!["no links".to_owned()]));
    let report = run(&|a| a[readme].decision = EntryDecision::Skip { warning: None }).unwrap();
    assert_eq!((report.entries, report.skipped_entries), (entries.len() - 1, 1));
    assert!(matches!(run(&|a| a[2].cancelled = true), Err(XarError::Cancelled)));
    assert!(matches!(run(&|a| a.truncate(2)), Err(XarError::Cancelled)));
    assert!(matches!(
        run(&|a| a[readme].decision = EntryDecision::Rejected("no".to_owned())),
        Err(XarError::Safety(_))
    ));
    assert_eq!(
        run(&|a| a[readme].created = Err(IoFailure::new(IoKind::Other, "full"))).unwrap_err().message(),
        "I/O failed for payload/README.txt: full"
    );
    assert_eq!(
        run(&|a| a[readme].written = Err(IoFailure::new(IoKind::Other, "full"))).unwrap_err().message(),
        "I/O failed for basic.xar: full"
    );
    assert_eq!(
        run(&|a| a[readme].committed = Err(IoFailure::new(IoKind::Other, "full"))).unwrap_err().message(),
        "I/O failed for payload/README.txt: full"
    );
    assert_eq!(
        run(&|a| a[dir].removed = Err(IoFailure::new(IoKind::Other, "busy"))).unwrap_err().message(),
        "I/O failed for payload: busy"
    );
    assert_eq!(
        extract("basic.xar", &file, &forms, "out", &Err(IoFailure::new(IoKind::PermissionDenied, "denied")), &Vec::new())
            .unwrap_err()
            .message(),
        "I/O failed for out: denied"
    );
}

#[test]
fn the_work_for_an_archive_entry_is_decided() {
    let archive = build_xar();
    let forms = normal_forms(&archive);
    let entries = list("basic.xar", &Ok(archive), &forms).unwrap();
    let of = |kind: XarEntryKind| entries.iter().find(|e| e.kind == kind).unwrap();
    let link = of(XarEntryKind::Symlink);
    assert_eq!(entry_work(of(XarEntryKind::File), true, &None), ArchiveWork::WriteFile);
    assert_eq!(
        entry_work(of(XarEntryKind::Directory), true, &None),
        ArchiveWork::MakeDirectory { remove: true }
    );
    assert_eq!(
        entry_work(link, false, &None),
        ArchiveWork::MakeSymlink { target: link.link_target.clone().unwrap(), remove: false }
    );
    assert_eq!(
        entry_work(link, false, &Some("no links".to_owned())),
        ArchiveWork::SkipLink { warning: "no links".to_owned() }
    );
}

#[test]
fn an_extraction_ends_at_a_file_that_cannot_be_decoded() {
    let archive = build_xar();
    let forms = normal_forms(&archive);
    let entries = list("basic.xar", &Ok(archive), &forms).unwrap();
    let file = entries.iter().find(|e| e.kind == XarEntryKind::File).unwrap();
    let directory = entries.iter().find(|e| e.kind == XarEntryKind::Directory).unwrap();
    let undecodable = || Err(XarError::Parser { path: "x".to_owned(), message: "bad".to_owned() });
    assert!(entry_stops(file, &undecodable(), &answer("out")));
    assert!(!entry_stops(file, &Ok(Vec::new()), &answer("out")));
    assert!(!entry_stops(directory, &undecodable(), &answer("out")));
    let mut failing = answer("out");
    failing.created = Err(IoFailure::new(IoKind::Other, "full"));
    assert!(entry_stops(directory, &Ok(Vec::new()), &failing));
    failing.decision = EntryDecision::Skip { warning: None };
    assert!(!entry_stops(directory, &Ok(Vec::new()), &failing));
    failing.cancelled = true;
    assert!(entry_stops(directory, &Ok(Vec::new()), &failing));
}
