use sdkman_cli_native::helpers::{
    infer_sdkman_dir, known_candidates, non_blank_content, read_file_content, validate_candidate,
    validate_version_path, CandidatesError, VersionPathProbe,
};
use sdkman_cli_native::path::is_normal_path_segment;

fn strings(items: &[&str]) -> Vec<String> {
    items.iter().map(|s| s.to_string()).collect()
}

#[test]
fn should_read_known_candidates() {
    // The candidates file of an installation with one candidate.
    let candidates = known_candidates("scala").unwrap();
    let expected_candidate = vec!["scala"];
    assert_eq!(candidates, expected_candidate);
}

#[test]
fn should_parse_candidates_from_config() {
    for (content, expected) in [
        (" scala, ,java ,, kotlin ", vec!["scala", "java", "kotlin"]),
        ("", vec![]),
    ] {
        assert_eq!(known_candidates(content).unwrap(), expected);
    }
}

#[test]
fn refuses_candidates_file_with_path_like_names() {
    for content in ["scala,../java", "scala,.", "a/b", "java,..", "/abs"] {
        assert_eq!(
            known_candidates(content),
            Err(CandidatesError::InvalidCandidateName),
            "{content}"
        );
    }
    // A trailing slash still names a single directory.
    assert_eq!(known_candidates("java/").unwrap(), vec!["java/"]);
}

#[test]
fn normal_path_segments() {
    for ok in ["scala", "0.0.1", "11.0.15-tem", "java/", "java/.", "...", ".hidden"] {
        assert!(is_normal_path_segment(ok), "{ok}");
    }
    for bad in ["", ".", "..", "./java", "/tmp", "0.0.1/other", "../victim", "a//b", "/"] {
        assert!(!is_normal_path_segment(bad), "{bad}");
    }
}

#[test]
fn rejects_unknown_candidate() {
    let known = strings(&["java"]);
    assert!(!validate_candidate(&known, "invalid"));
    assert!(validate_candidate(&known, "java"));
}

#[test]
fn rejects_candidates_that_are_not_single_names() {
    let known = strings(&["java", "..", "java/x"]);
    assert!(!validate_candidate(&known, ".."));
    assert!(!validate_candidate(&known, "java/x"));
    assert!(!validate_candidate(&[], "java"));
}

fn nested_probe(base: &str, candidate: &str, version: &str) -> VersionPathProbe {
    VersionPathProbe {
        base: Some(base.as_bytes().to_vec()),
        candidates: Some(format!("{base}/candidates").into_bytes()),
        candidate: Some(format!("{base}/candidates/{candidate}").into_bytes()),
        version: Some(format!("{base}/candidates/{candidate}/{version}").into_bytes()),
        version_is_dir: true,
    }
}

#[test]
fn should_successfully_display_current_candidate_home() {
    let base = "/tmp/.sdkman-test";
    let probe = nested_probe(base, "scala", "0.0.1");
    let path = validate_version_path(base.as_bytes(), "scala", "0.0.1", &probe).unwrap();
    assert_eq!(path, b"/tmp/.sdkman-test/candidates/scala/0.0.1".to_vec());
}

#[test]
fn should_fail_if_candidate_home_is_not_found() {
    let base = "/tmp/.sdkman-test";
    let mut probe = nested_probe(base, "scala", "0.0.2");
    // Nothing is installed at 0.0.2: canonicalizing it fails.
    probe.version = None;
    probe.version_is_dir = false;
    assert_eq!(
        validate_version_path(base.as_bytes(), "scala", "0.0.2", &probe),
        None
    );
}

#[test]
fn should_reject_unsafe_version_paths() {
    let base = "/tmp/.sdkman-test";
    for version in ["..", "/tmp", "0.0.1/other"] {
        // Even a probe that looks consistent does not let these through.
        let probe = nested_probe(base, "scala", version);
        assert_eq!(
            validate_version_path(base.as_bytes(), "scala", version, &probe),
            None,
            "{version}"
        );
    }
}

#[test]
fn rejects_symlinked_version_directories() {
    let base = "/tmp/.sdkman-test";
    // The version directory is a link that leads out of the installation.
    let mut probe = nested_probe(base, "scala", "0.0.1");
    probe.version = Some(b"/tmp/victim/0.0.1".to_vec());
    assert_eq!(
        validate_version_path(base.as_bytes(), "scala", "0.0.1", &probe),
        None
    );
    // The candidate directory is a link to another candidate.
    let mut probe = nested_probe(base, "scala", "0.0.1");
    probe.candidate = Some(format!("{base}/candidates/java").into_bytes());
    probe.version = Some(format!("{base}/candidates/java/0.0.1").into_bytes());
    assert_eq!(
        validate_version_path(base.as_bytes(), "scala", "0.0.1", &probe),
        None
    );
    // The candidates directory is a link elsewhere.
    let mut probe = nested_probe(base, "scala", "0.0.1");
    probe.candidates = Some(b"/tmp/victim".to_vec());
    assert_eq!(
        validate_version_path(base.as_bytes(), "scala", "0.0.1", &probe),
        None
    );
}

#[test]
fn accepts_equal_paths_that_differ_in_spelling() {
    // The canonical home ends in a separator; components still match.
    let probe = VersionPathProbe {
        base: Some(b"/home/u/.sdkman/".to_vec()),
        candidates: Some(b"/home/u/.sdkman/candidates".to_vec()),
        candidate: Some(b"/home/u/.sdkman/candidates/java".to_vec()),
        version: Some(b"/home/u/.sdkman/candidates/java/17".to_vec()),
        version_is_dir: true,
    };
    assert_eq!(
        validate_version_path(b"/home/u/.sdkman", "java", "17", &probe),
        Some(b"/home/u/.sdkman/candidates/java/17".to_vec())
    );
    let mut not_dir = probe;
    not_dir.version_is_dir = false;
    assert_eq!(
        validate_version_path(b"/home/u/.sdkman", "java", "17", &not_dir),
        None
    );
}

#[test]
fn should_read_trimmed_non_blank_content_only() {
    for (name, content, expected) in [
        ("trimmed", Some(" 5.0.0\n"), Some("5.0.0")),
        ("blank", Some("  \n\t"), None),
        ("missing", None, None),
    ] {
        assert_eq!(read_file_content(content), expected.map(str::to_owned), "{name}");
    }
    // Unicode whitespace is trimmed too, other characters are kept.
    assert_eq!(
        non_blank_content("\u{3000}\u{a0}x y\u{2029}"),
        Some("x y".to_owned())
    );
}

#[test]
fn should_infer_sdkman_dir_from_env_var() {
    let dir = infer_sdkman_dir(Some(b"/home/someone/.sdkman"), Some(b"/home/other"));
    assert_eq!(dir, Some(b"/home/someone/.sdkman".to_vec()));
}

#[test]
fn should_infer_fallback_dir_for_missing_or_empty_env_var() {
    for value in [None, Some(&b""[..])] {
        assert_eq!(
            infer_sdkman_dir(value, Some(b"/home/someone")),
            Some(b"/home/someone/.sdkman".to_vec())
        );
    }
    assert_eq!(
        infer_sdkman_dir(None, Some(b"/")),
        Some(b"/.sdkman".to_vec())
    );
    assert_eq!(infer_sdkman_dir(None, None), None);
}

#[test]
fn should_preserve_non_utf8_sdkman_dir() {
    let value = vec![b'/', b't', b'm', b'p', b'/', 0x80];
    assert_eq!(infer_sdkman_dir(Some(&value), None), Some(value.clone()));
}

#[test]
fn rejects_invalid_candidate_and_missing_version_without_deleting_anything() {
    let base = "/tmp/.sdkman-test";
    let mut probe = nested_probe(base, "scala", "0.0.3");
    probe.version = None;
    probe.version_is_dir = false;
    assert_eq!(
        validate_version_path(base.as_bytes(), "scala", "0.0.3", &probe),
        None
    );
    let known = strings(&["scala"]);
    assert!(!validate_candidate(&known, "zcala"));
}

#[test]
fn listed_candidates_are_valid() {
    let known = known_candidates(" java , kotlin,scala ").unwrap();
    for c in ["java", "kotlin", "scala"] {
        assert!(validate_candidate(&known, c), "{c}");
    }
    assert!(!validate_candidate(&known, " java "));
}
