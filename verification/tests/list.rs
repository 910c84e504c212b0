use sdkman_cli_native::listing::{
    build_version_csv, candidates_list_url, is_available, offline_lines, versions_list_url,
    with_trailing_newline, VersionEntry,
};

fn entry(name: &[u8], is_dir_or_symlink: bool) -> VersionEntry {
    VersionEntry { name: name.to_vec(), is_dir_or_symlink }
}

#[test]
fn builds_sorted_version_csv_without_current() {
    let entries = vec![
        entry(b"0.0.3", true),
        entry(b"current", true),
        entry(b"0.0.1", true),
        entry(b"notes.txt", false),
        entry(b"0.0.2", true),
        entry(&[0xff, 0x31], true),
    ];
    assert_eq!(build_version_csv(&entries), "0.0.1,0.0.2,0.0.3");
    assert_eq!(build_version_csv(&[]), "");
    assert_eq!(
        build_version_csv(&[entry(b"b", true), entry(b"B", true), entry(b"ab", true), entry(b"a", true)]),
        "B,a,ab,b"
    );
}

#[test]
fn should_successfully_list_installed_offline_and_mark_current() {
    let lines = offline_lines("0.0.1,0.0.2,0.0.3", "0.0.2");
    assert_eq!(lines, vec![" * 0.0.3", " > 0.0.2", " * 0.0.1"]);
}

#[test]
fn should_show_none_installed_offline_when_candidate_not_present() {
    assert!(offline_lines("", "").is_empty());
    assert!(offline_lines(" , ,", "x").is_empty());
}

#[test]
fn builds_the_service_addresses() {
    assert_eq!(
        candidates_list_url("http://127.0.0.1:1234//"),
        "http://127.0.0.1:1234/candidates/list"
    );
    assert_eq!(
        versions_list_url("https://api.sdkman.io/2/", "scala", "linuxx64", "0.0.2", "0.0.1,0.0.2,0.0.3"),
        "https://api.sdkman.io/2/candidates/scala/linuxx64/versions/list?current=0.0.2&installed=0.0.1%2C0.0.2%2C0.0.3"
    );
    assert_eq!(
        versions_list_url("a", "c", "p", "", "x y~é"),
        "a/candidates/c/p/versions/list?current=&installed=x%20y~%C3%A9"
    );
}

#[test]
fn pages_end_with_a_line_break() {
    assert_eq!(with_trailing_newline("a\nb"), "a\nb\n");
    assert_eq!(with_trailing_newline("a\n"), "a\n");
    assert_eq!(with_trailing_newline(""), "\n");
}

#[test]
fn service_is_unavailable_only_when_switched_off() {
    assert!(!is_available(Some("false")));
    assert!(is_available(Some("true")));
    assert!(is_available(Some("FALSE")));
    assert!(is_available(None));
}

#[test]
fn version_csv_ignores_entry_order() {
    let a = vec![entry(b"0.0.2", true), entry(b"current", true), entry(b"0.0.1", true), entry(b"0.0.3", true)];
    let b = vec![entry(b"0.0.3", true), entry(b"0.0.1", true), entry(b"0.0.2", true), entry(b"current", true)];
    assert_eq!(build_version_csv(&a), build_version_csv(&b));
    assert_eq!(build_version_csv(&a), "0.0.1,0.0.2,0.0.3");
}

#[test]
fn version_csv_splits_back_into_ascending_names() {
    let entries = vec![entry(b"1.10", true), entry(b"1.2", true), entry(b"1.1", true), entry(b"x.txt", false)];
    let csv = build_version_csv(&entries);
    let names: Vec<&str> = csv.split(',').collect();
    assert_eq!(names, vec!["1.1", "1.10", "1.2"]);
    assert!(names.windows(2).all(|w| w[0] < w[1]));
}
