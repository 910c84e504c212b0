//! Which version of a candidate is the current one.
use vstd::prelude::*;

use crate::helpers::{is_plain_name, non_blank_content};
use crate::path::{components, file_name, join, ComponentView, file_name_of, parent_components, parent_is, same_components};
use crate::text::{trim, utf8_text};
use vstd::utf8::{decode_utf8, valid_utf8};

verus! {

/// What a path names, as `symlink_metadata` tells it.
#[derive(Debug, Clone, Copy, PartialEq, Eq)]
pub enum EntryKind {
    /// Nothing could be read at the path.
    Missing,
    /// A symbolic link.
    Symlink,
    /// A directory.
    Directory,
    /// Anything else.
    Other,
}

/// What `get_current_version` learns from the file system about a candidate:
/// whether its directory is a directory, what its `current` entry is, the
/// canonical forms of the candidate directory and of `current` (`None` where
/// canonicalizing failed), and the content of the version marker inside a
/// copied `current` (`None` where it could not be read).
pub struct CurrentProbe {
    pub candidate_is_dir: bool,
    pub current_kind: EntryKind,
    pub candidate_canonical: Option<Vec<u8>>,
    pub current_canonical: Option<Vec<u8>>,
    pub marker: Option<String>,
}

/// The text of the last name of `target`, when it ends in a name that is
/// valid UTF-8.
pub open spec fn version_named(target: Seq<u8>) -> Option<Seq<char>> {
    match file_name(target) {
        Some(name) => if valid_utf8(name) {
            Some(decode_utf8(name))
        } else {
            None
        },
        None => None,
    }
}

/// The version that a `current` link names: the last name of its canonical
/// target, when that target lies directly in the canonical candidate
/// directory and its name is text.
pub open spec fn linked_version(candidate_dir: Seq<u8>, target: Seq<u8>) -> Option<Seq<char>> {
    if parent_components(target) == Some(components(candidate_dir)) {
        version_named(target)
    } else {
        None
    }
}

/// The current version of a candidate, from what `probe` tells of it.
pub open spec fn current_version(probe: CurrentProbe) -> Option<Seq<char>> {
    if !probe.candidate_is_dir {
        None
    } else {
        match probe.current_kind {
            EntryKind::Symlink => match (probe.candidate_canonical, probe.current_canonical) {
                (Some(dir), Some(target)) => linked_version(dir@, target@),
                _ => None,
            },
            EntryKind::Directory => match probe.marker {
                Some(m) => if trim(m@).len() > 0 {
                    Some(trim(m@))
                } else {
                    None
                },
                None => None,
            },
            _ => None,
        }
    }
}

fn version_from_name(name: Option<Vec<u8>>) -> (r: Option<String>)
    ensures
        match r {
            Some(s) => name is Some && valid_utf8(name->0@) && s@ == decode_utf8(name->0@),
            None => name is None || !valid_utf8(name->0@),
        },
{
    match name {
        Some(n) => utf8_text(n),
        None => None,
    }
}

/// A link whose canonical target is a plain name joined onto the canonical
/// candidate directory names that version: the target's parent is the
/// candidate directory and its last name is the version's name.
pub proof fn lemma_link_in_candidate_dir(dir: Seq<u8>, name: Seq<u8>)
    requires
        is_plain_name(name),
    ensures
        parent_components(join(dir, name)) == Some(components(dir)),
        file_name(join(dir, name)) == Some(name),
        valid_utf8(name) ==> linked_version(dir, join(dir, name)) == Some(decode_utf8(name)),
        valid_utf8(name) ==> version_named(join(dir, name)) == Some(decode_utf8(name)),
{
    crate::path::lemma_plain_name_is_normal(name);
    crate::path::lemma_join_normal_segment(dir, name);
    let c = components(join(dir, name));
    assert(c.drop_last() =~= components(dir));
    assert(c.last() == ComponentView::Normal(name));
}

/// The current version of a candidate: for a `current` link, the name of its
/// target when the target lies directly in the candidate directory; for a
/// copied `current` directory, the non-blank trimmed content of its version
/// marker; nothing otherwise.
pub fn get_current_version(probe: &CurrentProbe) -> (r: Option<String>)
    ensures
        match r {
            Some(s) => current_version(*probe) == Some(s@),
            None => current_version(*probe) is None,
        },
        !probe.candidate_is_dir ==> r is None,
        (r is Some && probe.current_kind == EntryKind::Symlink) ==> (probe.candidate_canonical is Some
            && probe.current_canonical is Some && parent_components(probe.current_canonical->0@)
            == Some(components(probe.candidate_canonical->0@))),
        (probe.current_kind == EntryKind::Missing || probe.current_kind == EntryKind::Other) ==> r is None,
        (probe.candidate_is_dir && probe.current_kind == EntryKind::Directory) ==> match probe.marker {
            Some(m) => if trim(m@).len() > 0 {
                r is Some && r->0@ == trim(m@)
            } else {
                r is None
            },
            None => r is None,
        },
        forall|name: Seq<u8>|
            probe.candidate_is_dir && probe.current_kind == EntryKind::Symlink
                && probe.candidate_canonical is Some && probe.current_canonical is Some
                && is_plain_name(name) && valid_utf8(name) && probe.current_canonical->0@ == #[trigger] join(
                probe.candidate_canonical->0@,
                name,
            ) ==> r is Some && r->0@ == decode_utf8(name),
{
    proof {
        assert forall|name: Seq<u8>|
            probe.candidate_is_dir && probe.current_kind == EntryKind::Symlink
                && probe.candidate_canonical is Some && probe.current_canonical is Some
                && is_plain_name(name) && valid_utf8(name) && probe.current_canonical->0@ == #[trigger] join(
                probe.candidate_canonical->0@,
                name,
            ) implies current_version(*probe) == Some(decode_utf8(name)) by {
            lemma_link_in_candidate_dir(probe.candidate_canonical->0@, name);
        }
    }
    if !probe.candidate_is_dir {
        return None;
    }
    match probe.current_kind {
        EntryKind::Symlink => match (&probe.candidate_canonical, &probe.current_canonical) {
            (Some(dir), Some(target)) => {
                if !parent_is(target, dir) {
                    return None;
                }
                version_from_name(file_name_of(target))
            },
            _ => None,
        },
        EntryKind::Directory => match &probe.marker {
            Some(m) => non_blank_content(m.as_str()),
            None => None,
        },
        _ => None,
    }
}

/// The version that the `current` link names, from the link's target as read
/// from the link: its last name, when it is one and is text.
pub fn determine_current_version(link_target: Option<&[u8]>) -> (r: Option<String>)
    ensures
        match r {
            Some(s) => link_target is Some && version_named(link_target->0@) == Some(s@),
            None => link_target is None || version_named(link_target->0@) is None,
        },
        link_target is None ==> r is None,
        forall|dir: Seq<u8>, name: Seq<u8>|
            link_target is Some && is_plain_name(name) && valid_utf8(name) && link_target->0@
                == #[trigger] join(dir, name) ==> r is Some && r->0@ == decode_utf8(name),
{
    proof {
        assert forall|dir: Seq<u8>, name: Seq<u8>|
            link_target is Some && is_plain_name(name) && valid_utf8(name) && link_target->0@
                == #[trigger] join(dir, name) implies version_named(link_target->0@) == Some(
            decode_utf8(name),
        ) by {
            lemma_link_in_candidate_dir(dir, name);
        }
    }
    match link_target {
        Some(t) => version_from_name(file_name_of(t)),
        None => None,
    }
}

/// Whether `version` is the current version of its candidate: the canonical
/// `current` and the canonical version directory are the same path, or the
/// version marker in `current` holds `version` once trimmed.
pub fn is_current_version(
    current_canonical: Option<&[u8]>,
    version_canonical: Option<&[u8]>,
    marker: Option<&str>,
    version: &str,
) -> (r: bool)
    ensures
        r == ((current_canonical is Some && version_canonical is Some && components(
            current_canonical->0@,
        ) == components(version_canonical->0@)) || (marker is Some && trim(marker->0@)
            == version@)),
{
    let same = match (current_canonical, version_canonical) {
        (Some(c), Some(v)) => same_components(c, v),
        _ => false,
    };
    if same {
        return true;
    }
    match marker {
        Some(m) => {
            let t = crate::text::trim_str(m);
            crate::text::str_equal(t.as_str(), version)
        },
        None => false,
    }
}

/// What `uninstall` does with a version.
#[derive(Debug, Clone, Copy, PartialEq, Eq)]
pub enum UninstallPlan {
    /// Refuse: the version is the current one and removal was not forced.
    Refuse,
    /// Remove the version's directory.
    RemoveVersion,
    /// Remove `current`, then the version's directory.
    RemoveCurrentAndVersion,
}

/// The plan for removing a version: the current version is only removed when
/// forced, and then `current` goes with it.
pub fn plan_uninstall(is_current: bool, force: bool) -> (r: UninstallPlan)
    ensures
        r == (if !is_current {
            UninstallPlan::RemoveVersion
        } else if force {
            UninstallPlan::RemoveCurrentAndVersion
        } else {
            UninstallPlan::Refuse
        }),
{
    if !is_current {
        UninstallPlan::RemoveVersion
    } else if force {
        UninstallPlan::RemoveCurrentAndVersion
    } else {
        UninstallPlan::Refuse
    }
}


/// The lines that list the current versions: `<candidate> <version>` for
/// each candidate that has a current version, in the order given.
pub open spec fn in_use_lines(entries: Seq<(String, Option<String>)>) -> Seq<Seq<char>>
    decreases entries.len(),
{
    if entries.len() == 0 {
        seq![]
    } else {
        let rest = in_use_lines(entries.drop_last());
        match entries.last().1 {
            Some(v) => rest.push(entries.last().0@ + seq![' '] + v@),
            None => rest,
        }
    }
}

/// The listing of current versions, from each candidate and its current
/// version, if any: one line per candidate that has one. No line means that
/// no candidate is in use.
pub fn versions_in_use(entries: &[(String, Option<String>)]) -> (lines: Vec<String>)
    ensures
        lines@.map_values(|t: String| t@) == in_use_lines(entries@),
        lines@.map_values(|t: String| t@) == entries@.filter_map(
            |e: (String, Option<String>)|
                match e.1 {
                    Some(v) => Some(e.0@ + seq![' '] + v@),
                    None => None,
                },
        ),
        forall|k: int|
            0 <= k < entries@.len() && (#[trigger] entries@[k]).1 is Some ==> lines@.map_values(
                |t: String| t@,
            ).contains(entries@[k].0@ + seq![' '] + entries@[k].1->0@),
{
    proof {
        lemma_in_use_lines_law(entries@);
    }
    let mut lines: Vec<String> = Vec::new();
    let mut i: usize = 0;
    while i < entries.len()
        invariant
            i <= entries.len(),
            lines@.map_values(|t: String| t@) == in_use_lines(entries@.take(i as int)),
        decreases entries.len() - i,
    {
        proof {
            assert(entries@.take(i + 1).drop_last() =~= entries@.take(i as int));
            assert(entries@.take(i + 1).last() == entries@[i as int]);
        }
        let ghost before = lines@.map_values(|t: String| t@);
        match &entries[i].1 {
            Some(v) => {
                let mut line = String::new();
                line.append(entries[i].0.as_str());
                crate::text::push_char(&mut line, ' ');
                line.append(v.as_str());
                assert(line@ =~= entries@[i as int].0@ + seq![' '] + v@);
                lines.push(line);
                assert(lines@.map_values(|t: String| t@) =~= before.push(lines@.last()@));
            },
            None => {},
        }
        i = i + 1;
    }
    assert(entries@.take(entries.len() as int) =~= entries@);
    proof {
        lemma_in_use_lines_law(entries@);
    }
    lines
}


/// The listing of current versions holds, in the order given, exactly one
/// line `<candidate> <version>` for each candidate that has a current
/// version: every such candidate gets its line, whatever its neighbours,
/// and every line belongs to such a candidate.
pub proof fn lemma_in_use_lines_law(entries: Seq<(String, Option<String>)>)
    ensures
        in_use_lines(entries) == entries.filter_map(
            |e: (String, Option<String>)|
                match e.1 {
                    Some(v) => Some(e.0@ + seq![' '] + v@),
                    None => None,
                },
        ),
        forall|k: int|
            0 <= k < entries.len() && (#[trigger] entries[k]).1 is Some ==> in_use_lines(
                entries,
            ).contains(entries[k].0@ + seq![' '] + entries[k].1->0@),
        forall|j: int|
            #![trigger in_use_lines(entries)[j]]
            0 <= j < in_use_lines(entries).len() ==> exists|k: int|
                0 <= k < entries.len() && (#[trigger] entries[k]).1 is Some && in_use_lines(
                    entries,
                )[j] == entries[k].0@ + seq![' '] + entries[k].1->0@,
    decreases entries.len(),
{
    if entries.len() > 0 {
        let init = entries.drop_last();
        let last = entries.last();
        lemma_in_use_lines_law(init);
        let rest = in_use_lines(init);
        let all = in_use_lines(entries);
        match last.1 {
            Some(v) => {
                assert(all =~= rest + seq![last.0@ + seq![' '] + v@]);
            },
            None => {},
        }
        assert forall|k: int| 0 <= k < entries.len() && (#[trigger] entries[k]).1 is Some implies all.contains(
            entries[k].0@ + seq![' '] + entries[k].1->0@,
        ) by {
            if k < init.len() {
                assert(entries[k] == init[k]);
                assert(init[k].1 is Some);
                let x = entries[k].0@ + seq![' '] + entries[k].1->0@;
                assert(rest.contains(x));
                let j = choose|j: int| 0 <= j < rest.len() && rest[j] == x;
                assert(all[j] == rest[j]);
            } else {
                assert(entries[k] == last);
                assert(all[all.len() - 1] == last.0@ + seq![' '] + last.1->0@);
            }
        }
        assert forall|j: int| #![trigger all[j]] 0 <= j < all.len() implies exists|k: int|
            0 <= k < entries.len() && (#[trigger] entries[k]).1 is Some && all[j] == entries[k].0@
                + seq![' '] + entries[k].1->0@ by {
            if j < rest.len() {
                assert(all[j] == rest[j]);
                let k = choose|k: int|
                    0 <= k < init.len() && (#[trigger] init[k]).1 is Some && rest[j] == init[k].0@
                        + seq![' '] + init[k].1->0@;
                assert(entries[k] == init[k]);
            } else {
                assert(entries[entries.len() - 1] == last);
            }
        }
    } else {
        assert(in_use_lines(entries) =~= entries.filter_map(
            |e: (String, Option<String>)|
                match e.1 {
                    Some(v) => Some(e.0@ + seq![' '] + v@),
                    None => None,
                },
        ));
    }
}

} // verus!
