use zmanager_core::failure::{IoFailure, IoKind};
use zmanager_core::paths::archive_directory;
use zmanager_core::tzap::error::TzapError;
use zmanager_core::tzap::headers::summarize_tzap_public_metadata;
use zmanager_core::tzap::names::{
    parse_tzap_volume_file_name, tzap_bootstrap_sidecar_path,
    tzap_destination_path_from_volume_path, tzap_multi_volume_base_name, tzap_output_volume_path,
    tzap_output_volume_paths,
};
use zmanager_core::tzap::volumes::{
    SiblingFile, VolumeCandidate, discover_tzap_input_volume_paths,
    discover_tzap_sibling_volume_paths, discover_tzap_volume_paths_for_destination,
    existing_tzap_volume_paths, expected_tzap_input_volume_paths, has_existing_tzap_input_volume,
    is_tzap_archive_path,
};

fn file(name: &str) -> SiblingFile {
    SiblingFile { name: name.to_owned(), exists: true }
}

fn paths(found: &[VolumeCandidate]) -> Vec<&str> {
    found.iter().map(|candidate| candidate.path.as_str()).collect()
}

#[test]
fn open_recognizes_tzap_base_and_numbered_volumes() {
    assert!(is_tzap_archive_path("project.tzap"));
    assert!(is_tzap_archive_path("project.vol000.tzap"));
    assert!(is_tzap_archive_path("project.vol001.tzap"));
    assert!(is_tzap_archive_path("PROJECT.vol000.TZAP"));

    assert!(!is_tzap_archive_path("project.tzap.tmp"));
    assert!(!is_tzap_archive_path("project.zip.000"));
}

#[test]
fn tzap_backend_recognizes_tzap_base_and_numbered_volumes() {
    assert!(is_tzap_archive_path("project.tzap"));
    assert!(is_tzap_archive_path("project.vol000.tzap"));
    assert!(is_tzap_archive_path("project.vol001.tzap"));
    assert!(is_tzap_archive_path("PROJECT.vol000.TZAP"));
    assert!(!is_tzap_archive_path("project.tzap.tmp"));
    assert!(!is_tzap_archive_path("project.zip.000"));
}

#[test]
fn unicode_non_tzap_name_is_safe_to_classify() {
    assert!(!is_tzap_archive_path("游戏存档管理器.zip"));
}

#[test]
fn archive_directory_normalizes_bare_relative_file_name_to_current_dir() {
    assert_eq!(archive_directory("archive.vol000.tzap"), ".");
    assert_eq!(archive_directory("./archive.vol000.tzap"), ".");
    assert_eq!(archive_directory("subdir/archive.vol000.tzap"), "subdir");
    assert_eq!(archive_directory("/abs/subdir/archive.vol000.tzap"), "/abs/subdir");
}

#[test]
fn discover_tzap_sibling_volume_paths_finds_bare_relative_siblings() {
    let listing = vec![file("set.vol001.tzap"), file("set.vol000.tzap"), file("other.txt")];
    let discovered = discover_tzap_sibling_volume_paths("set.vol000.tzap", &listing);
    assert!(discovered.is_some(), "failed to discover bare sibling volumes");
    assert_eq!(paths(&discovered.unwrap()), vec!["./set.vol000.tzap", "./set.vol001.tzap"]);
}

#[test]
fn volume_names_are_read_and_written() {
    assert_eq!(tzap_output_volume_path("dir/set.tzap", 0), "dir/set.vol000.tzap");
    assert_eq!(tzap_output_volume_path("dir/set.tzap", 12), "dir/set.vol012.tzap");
    assert_eq!(tzap_output_volume_path("dir/set.tzap", 1234), "dir/set.vol1234.tzap");
    assert_eq!(tzap_output_volume_paths("set.tzap", 1), vec!["set.tzap"]);
    assert_eq!(
        tzap_output_volume_paths("set.tzap", 2),
        vec!["set.vol000.tzap", "set.vol001.tzap"]
    );
    assert_eq!(tzap_multi_volume_base_name("Set.TZAP"), "Set");
    assert_eq!(tzap_multi_volume_base_name("set"), "set");
    assert_eq!(tzap_bootstrap_sidecar_path("set.tzap"), "set.sidecar");

    let parsed = parse_tzap_volume_file_name("set.vol007.tzap").unwrap();
    assert_eq!(parsed.base, "set");
    assert_eq!(parsed.volume_index, 7);
    assert!(parse_tzap_volume_file_name("set.tzap").is_none());
    assert!(parse_tzap_volume_file_name("set.vol.tzap").is_none());

    assert_eq!(
        tzap_destination_path_from_volume_path("dir/set.vol003.tzap").as_deref(),
        Some("dir/set.tzap")
    );
    assert!(tzap_destination_path_from_volume_path("dir/set.tzap").is_none());
}

#[test]
fn volumes_come_in_order_of_their_number() {
    let listing = vec![
        file("set.vol010.tzap"),
        file("set.vol002.tzap"),
        file("set.vol001.tzap"),
        file("another.vol000.tzap"),
    ];
    let found = discover_tzap_volume_paths_for_destination("in/set.tzap", &listing);
    assert_eq!(
        paths(&found),
        vec!["in/set.vol001.tzap", "in/set.vol002.tzap", "in/set.vol010.tzap"]
    );
    let existing = existing_tzap_volume_paths("in/set.tzap", &Ok(listing)).unwrap();
    assert_eq!(existing.len(), 3);
    assert_eq!(existing[2].path, "in/set.vol010.tzap");
    let failed = existing_tzap_volume_paths("in/set.tzap", &Err(IoFailure::new(IoKind::PermissionDenied, "denied")));
    assert_eq!(failed.err().unwrap().message(), "I/O failed for in: denied");
}

#[test]
fn an_archive_without_volumes_is_its_own_input() {
    let found = discover_tzap_input_volume_paths("in/set.tzap", true, &Vec::new());
    assert_eq!(paths(&found), vec!["in/set.tzap"]);
    assert!(has_existing_tzap_input_volume("in/set.tzap", true, &Vec::new()));
    assert!(!has_existing_tzap_input_volume("in/set.tzap", false, &Vec::new()));
}

#[test]
fn every_path_of_a_set_gives_the_whole_set() {
    let listing = vec![file("set.vol001.tzap"), file("notes.txt"), file("set.vol000.tzap")];
    let whole = vec!["in/set.vol000.tzap", "in/set.vol001.tzap"];
    for (path, exists) in
        [("in/set.vol000.tzap", true), ("in/set.vol001.tzap", true), ("in/set.tzap", false)]
    {
        let found = discover_tzap_input_volume_paths(path, exists, &listing);
        assert_eq!(paths(&found), whole, "{path}");
        assert!(has_existing_tzap_input_volume(path, exists, &listing));
    }
    let missing = summarize_tzap_public_metadata(
        "in/set.tzap",
        false,
        &Vec::new(),
        &Err(IoFailure::new(IoKind::Other, "unused")),
        &Vec::new(),
    );
    assert_eq!(
        missing.unwrap_err(),
        TzapError::Io {
            path: "in/set.tzap".to_owned(),
            source: IoFailure::new(IoKind::NotFound, "no TZAP input volumes found"),
        }
    );
}

#[test]
fn expected_volumes_follow_the_set() {
    assert_eq!(
        expected_tzap_input_volume_paths("set.tzap", "set.vol001.tzap", 3),
        vec!["set.vol000.tzap", "set.vol001.tzap", "set.vol002.tzap"]
    );
    assert_eq!(expected_tzap_input_volume_paths("set.tzap", "set.tzap", 1), vec!["set.tzap"]);
}
