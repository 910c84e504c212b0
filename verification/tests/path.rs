use sdkman_cli_native::path::{file_name_of, join_path, parent_is, path_components, same_components, PathComponent};
use sdkman_cli_native::text::{sort_strings, split_list, trim_str};

fn names(p: &[u8]) -> Vec<String> {
    path_components(p)
        .into_iter()
        .map(|c| match c {
            PathComponent::RootDir => "/".to_owned(),
            PathComponent::CurDir => ".".to_owned(),
            PathComponent::ParentDir => "..".to_owned(),
            PathComponent::Normal(n) => String::from_utf8(n).unwrap(),
        })
        .collect()
}

#[test]
fn splits_paths_into_components_like_std() {
    for p in ["", "/", "a", "a/b", "/a//b/", "./a/./b/..", ".", "..", "a/.", "./.", ".//x", "/../a"] {
        let expected: Vec<String> = std::path::Path::new(p)
            .components()
            .map(|c| c.as_os_str().to_str().unwrap().to_owned())
            .collect();
        assert_eq!(names(p.as_bytes()), expected, "{p}");
    }
}

#[test]
fn joins_like_pathbuf_push() {
    for (base, rel) in [("", "a"), ("/", "a"), ("/s", "a"), ("/s/", "a"), ("/s", "/abs"), ("s", "a/b")] {
        let expected = std::path::Path::new(base).join(rel);
        assert_eq!(join_path(base.as_bytes(), rel.as_bytes()), expected.to_str().unwrap().as_bytes(), "{base} {rel}");
    }
}

#[test]
fn compares_and_takes_apart_paths() {
    assert!(same_components(b"/a/b/", b"/a//b"));
    assert!(!same_components(b"/a/b", b"a/b"));
    assert!(parent_is(b"/s/candidates/java/17", b"/s/candidates/java"));
    assert!(!parent_is(b"/", b"/"));
    assert!(!parent_is(b"/s/candidates/java/x/17", b"/s/candidates/java"));
    assert_eq!(file_name_of(b"/a/b.txt"), Some(b"b.txt".to_vec()));
    assert_eq!(file_name_of(b"/a/.."), None);
}

#[test]
fn trims_splits_and_sorts_text() {
    assert_eq!(trim_str("\t a b \n"), "a b");
    assert_eq!(trim_str("   "), "");
    assert_eq!(split_list("a,, b ,\u{2003}c"), vec!["a", "b", "c"]);
    let sorted = sort_strings(vec!["b".into(), "a".into(), "ä".into(), "Z".into(), "a".into(), "".into()]);
    assert_eq!(sorted, vec!["", "Z", "a", "a", "b", "ä"]);
}

#[test]
fn trimming_twice_changes_nothing() {
    for s in ["  a  ", "\u{2000}\tb\u{85}", "", " ", "x"] {
        let once = trim_str(s);
        assert_eq!(trim_str(&once), once, "{s:?}");
    }
}
