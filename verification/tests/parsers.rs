//! Output parsing: the snapshot array, the file listing with banner and
//! noise lines, and snapshot id collection.

use restic_browser::records::dump_file_name;
use restic_browser::{collect_snapshot_ids, parse_file_listing, parse_snapshots};

#[test]
fn three_records() {
    // the first line is a banner, blank lines and lines without a brace
    // are noise; two entries remain, in order
    let text = "banner\n{\"name\":\"a\",\"type\":\"file\",\"path\":\"/a\"}\n\n garbage-without-brace \n{\"name\":\"b\",\"type\":\"dir\",\"path\":\"/b\"}";
    let files = parse_file_listing(text).expect("listing should decode");
    assert_eq!(files.len(), 2);
    assert_eq!(files[0].name, "a");
    assert_eq!(files[0].type_, "file");
    assert_eq!(files[0].path, "/a");
    assert_eq!(files[1].name, "b");
    assert_eq!(files[1].type_, "dir");
    assert_eq!(files[1].path, "/b");
}

#[test]
fn first_line_is_skipped_even_when_it_looks_like_data() {
    let text = "{\"name\":\"lost\",\"type\":\"file\",\"path\":\"/lost\"}\n{\"name\":\"kept\",\"type\":\"file\",\"path\":\"/kept\"}";
    let files = parse_file_listing(text).expect("listing should decode");
    assert_eq!(files.len(), 1);
    assert_eq!(files[0].name, "kept");
}

#[test]
fn malformed_braced_line_fails_the_whole_listing() {
    let text = "banner\n{\"name\":\"a\",\"type\":\"file\",\"path\":\"/a\"}\n{\"name\":}\n{\"name\":\"b\",\"type\":\"dir\",\"path\":\"/b\"}";
    assert!(parse_file_listing(text).is_err());
}

#[test]
fn entry_missing_a_required_field_fails_the_listing() {
    let text = "banner\n{\"name\":\"a\",\"type\":\"file\"}";
    assert!(parse_file_listing(text).is_err());
}

#[test]
fn empty_listing_output_yields_no_entries() {
    assert_eq!(parse_file_listing("").expect("empty input is fine").len(), 0);
    assert_eq!(parse_file_listing("banner only").expect("one line is fine").len(), 0);
}

#[test]
fn file_entry_defaults_are_applied() {
    let text = "banner\n{\"name\":\"a\",\"type\":\"file\",\"path\":\"/a\"}";
    let files = parse_file_listing(text).expect("listing should decode");
    assert_eq!(files[0].uid, 0);
    assert_eq!(files[0].gid, 0);
    assert_eq!(files[0].size, 0);
    assert_eq!(files[0].mode, 0);
    assert_eq!(files[0].mtime, "");
    assert_eq!(files[0].atime, "");
    assert_eq!(files[0].ctime, "");
}

#[test]
fn file_entry_fields_are_carried_over() {
    let text = "banner\n{\"name\":\"a\",\"type\":\"file\",\"path\":\"/a\",\"uid\":501,\"gid\":20,\"size\":1024,\"mode\":420,\"mtime\":\"2023-01-01T00:00:00Z\"}";
    let files = parse_file_listing(text).expect("listing should decode");
    assert_eq!(files[0].uid, 501);
    assert_eq!(files[0].gid, 20);
    assert_eq!(files[0].size, 1024);
    assert_eq!(files[0].mode, 420);
    assert_eq!(files[0].mtime, "2023-01-01T00:00:00Z");
}

#[test]
fn non_integer_uid_fails_the_listing() {
    let text = "banner\n{\"name\":\"a\",\"type\":\"file\",\"path\":\"/a\",\"uid\":1.5}";
    assert!(parse_file_listing(text).is_err());
}

#[test]
fn snapshots_decode_from_a_json_array() {
    let text = "[{\"id\":\"abcdef0123\",\"short_id\":\"abcdef\",\"time\":\"2023-05-01T12:00:00Z\",\"paths\":[\"/home\"],\"tags\":[\"daily\"],\"hostname\":\"box\",\"username\":\"me\"},{\"id\":\"fedcba9876\",\"short_id\":\"fedcba\"}]";
    let snaps = parse_snapshots(text).expect("array should decode");
    assert_eq!(snaps.len(), 2);
    assert_eq!(snaps[0].id, "abcdef0123");
    assert_eq!(snaps[0].short_id, "abcdef");
    assert_eq!(snaps[0].time, "2023-05-01T12:00:00Z");
    assert_eq!(snaps[0].paths, vec!["/home".to_string()]);
    assert_eq!(snaps[0].tags, vec!["daily".to_string()]);
    assert_eq!(snaps[0].hostname, "box");
    assert_eq!(snaps[0].username, "me");
    // defaults for the second entry
    assert_eq!(snaps[1].time, "");
    assert!(snaps[1].paths.is_empty());
    assert!(snaps[1].tags.is_empty());
    assert_eq!(snaps[1].hostname, "");
    assert_eq!(snaps[1].username, "");
}

#[test]
fn snapshot_listing_is_not_defensively_parsed() {
    assert!(parse_snapshots("not json").is_err());
    assert!(parse_snapshots("{\"id\":\"x\"}").is_err());
    assert!(parse_snapshots("[{\"short_id\":\"x\"}]").is_err());
    assert!(parse_snapshots("[{\"id\":\"a\",\"short_id\":\"a\",\"paths\":[1]}]").is_err());
}

#[test]
fn empty_snapshot_array_decodes() {
    assert_eq!(parse_snapshots("[]").expect("empty array is fine").len(), 0);
}

#[test]
fn snapshot_ids_are_collected_without_duplicates() {
    let text = "[{\"id\":\"one\",\"short_id\":\"1\"},{\"id\":\"two\",\"short_id\":\"2\"},{\"id\":\"one\",\"short_id\":\"1\"}]";
    let snaps = parse_snapshots(text).expect("array should decode");
    let ids = collect_snapshot_ids(&snaps);
    assert_eq!(ids, vec!["one".to_string(), "two".to_string()]);
}

#[test]
fn dump_target_names_wrap_directories() {
    let text = "banner\n{\"name\":\"docs\",\"type\":\"dir\",\"path\":\"/docs\"}\n{\"name\":\"a.txt\",\"type\":\"file\",\"path\":\"/docs/a.txt\"}";
    let files = parse_file_listing(text).expect("listing should decode");
    assert_eq!(dump_file_name(&files[0]), "docs.zip");
    assert_eq!(dump_file_name(&files[1]), "a.txt");
}
