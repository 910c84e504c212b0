use sdkman_cli_native::current::{
    determine_current_version, get_current_version, is_current_version, plan_uninstall,
    versions_in_use,
    CurrentProbe, EntryKind, UninstallPlan,
};

fn linked(candidate_dir: &str, target: &str) -> CurrentProbe {
    CurrentProbe {
        candidate_is_dir: true,
        current_kind: EntryKind::Symlink,
        candidate_canonical: Some(candidate_dir.as_bytes().to_vec()),
        current_canonical: Some(target.as_bytes().to_vec()),
        marker: None,
    }
}

#[test]
fn shows_the_specific_current_version() {
    let probe = linked("/s/candidates/java", "/s/candidates/java/11.0.15-tem");
    assert_eq!(get_current_version(&probe), Some("11.0.15-tem".to_owned()));
}

#[test]
fn shows_all_current_versions() {
    let java = linked("/s/candidates/java", "/s/candidates/java/11.0.15-tem");
    let kotlin = linked("/s/candidates/kotlin", "/s/candidates/kotlin/1.7.22");
    let current: Vec<(&str, String)> = [("java", java), ("kotlin", kotlin)]
        .into_iter()
        .filter_map(|(c, p)| get_current_version(&p).map(|v| (c, v)))
        .collect();
    assert_eq!(
        current,
        vec![("java", "11.0.15-tem".to_owned()), ("kotlin", "1.7.22".to_owned())]
    );
}

#[test]
fn reports_no_current_version_for_missing_or_invalid_current() {
    // missing: nothing at `current`
    let mut missing = linked("/s/candidates/kotlin", "/s/candidates/kotlin/1.7.22");
    missing.current_kind = EntryKind::Missing;
    assert_eq!(get_current_version(&missing), None);
    // dangling: the link's target cannot be canonicalized
    let mut dangling = linked("/s/candidates/kotlin", "/s/candidates/kotlin/1.7.22");
    dangling.current_canonical = None;
    assert_eq!(get_current_version(&dangling), None);
    // nested: the target is not directly in the candidate directory
    let nested = linked("/s/candidates/kotlin", "/s/candidates/kotlin/nested/1.7.22");
    assert_eq!(get_current_version(&nested), None);
    // outside: the target is elsewhere
    let outside = linked("/s/candidates/kotlin", "/tmp/x/1.7.22");
    assert_eq!(get_current_version(&outside), None);
}

#[test]
fn reads_the_copied_current_marker() {
    let probe = CurrentProbe {
        candidate_is_dir: true,
        current_kind: EntryKind::Directory,
        candidate_canonical: None,
        current_canonical: None,
        marker: Some("3.3.0\n".to_owned()),
    };
    assert_eq!(get_current_version(&probe), Some("3.3.0".to_owned()));
    let blank = CurrentProbe { marker: Some(" \n".to_owned()), ..probe };
    assert_eq!(get_current_version(&blank), None);
}

#[test]
fn reports_nothing_for_a_missing_candidate_directory() {
    let mut probe = linked("/s/candidates/java", "/s/candidates/java/17");
    probe.candidate_is_dir = false;
    assert_eq!(get_current_version(&probe), None);
    let mut other = linked("/s/candidates/java", "/s/candidates/java/17");
    other.current_kind = EntryKind::Other;
    assert_eq!(get_current_version(&other), None);
}

#[test]
fn determines_the_version_a_link_names() {
    assert_eq!(determine_current_version(Some(b"0.0.2")), Some("0.0.2".to_owned()));
    assert_eq!(
        determine_current_version(Some(b"/s/candidates/scala/0.0.2/")),
        Some("0.0.2".to_owned())
    );
    assert_eq!(
        determine_current_version(Some(b"nested/../0.0.2")),
        Some("0.0.2".to_owned())
    );
    assert_eq!(determine_current_version(Some(b"..")), None);
    assert_eq!(determine_current_version(Some(b"/")), None);
    assert_eq!(determine_current_version(Some(&[0x30, 0xff][..])), None);
    assert_eq!(determine_current_version(None), None);
}

#[test]
fn removes_unused_version_and_preserves_current() {
    let current = b"/s/candidates/scala/0.0.2";
    let unused = b"/s/candidates/scala/0.0.1";
    let is_current = is_current_version(Some(current), Some(unused), None, "0.0.1");
    assert!(!is_current);
    assert_eq!(plan_uninstall(is_current, false), UninstallPlan::RemoveVersion);
}

#[test]
fn protects_and_forces_current_symlink() {
    let current = b"/s/candidates/scala/0.0.2";
    assert!(is_current_version(Some(current), Some(current), None, "0.0.2"));
    assert_eq!(plan_uninstall(true, false), UninstallPlan::Refuse);
    assert_eq!(plan_uninstall(true, true), UninstallPlan::RemoveCurrentAndVersion);
}

#[test]
fn protects_and_forces_current_copy_marked_with_its_version() {
    assert!(is_current_version(None, None, Some("0.0.2\n"), "0.0.2"));
    assert!(!is_current_version(None, None, Some("0.0.1"), "0.0.2"));
    assert!(!is_current_version(Some(b"/a"), None, None, "0.0.2"));
}

#[test]
fn lists_only_candidates_in_use() {
    let entries = vec![
        ("java".to_owned(), Some("11.0.15-tem".to_owned())),
        ("groovy".to_owned(), None),
        ("kotlin".to_owned(), Some("1.7.22".to_owned())),
    ];
    assert_eq!(versions_in_use(&entries), vec!["java 11.0.15-tem", "kotlin 1.7.22"]);
    assert!(versions_in_use(&[("java".to_owned(), None)]).is_empty());
    assert!(versions_in_use(&[]).is_empty());
}
