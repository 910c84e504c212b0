//! The rules that decide which candidates, versions and directories the
//! commands accept.
use vstd::prelude::*;
use vstd::string::StringSliceAdditionalSpecFns;

use crate::constants::{CANDIDATES_DIR, DEFAULT_SDKMAN_HOME};
use crate::path::{
    components, copy_bytes, is_normal_path_segment, is_normal_segment, join, join_path,
    same_components, ComponentView,
};
use crate::text::{list_items, split_list, trim, trim_str};

verus! {

/// Why the candidates file was refused.
#[derive(Debug, PartialEq, Eq)]
pub enum CandidatesError {
    /// An item of the list is not a single path name.
    InvalidCandidateName,
}

/// Every item is a single path name.
pub open spec fn all_normal_names(items: Seq<Seq<char>>) -> bool {
    forall|i: int| 0 <= i < items.len() ==> is_normal_segment(#[trigger] encode_utf8(items[i]))
}

/// The UTF-8 bytes of `chars`.
pub open spec fn encode_utf8(chars: Seq<char>) -> Seq<u8> {
    vstd::utf8::encode_utf8(chars)
}

/// The candidates named by `content`, the content of the candidates file: its
/// comma-separated items, trimmed, blank ones left out. The file is refused
/// when an item is not a single path name.
pub fn known_candidates(content: &str) -> (r: Result<Vec<String>, CandidatesError>)
    ensures
        r is Ok <==> all_normal_names(list_items(content@)),
        r matches Ok(items) ==> items@.map_values(|t: String| t@) == list_items(content@),
        r matches Ok(items) ==> forall|i: int|
            0 <= i < items@.len() ==> {
                let item = (#[trigger] items@[i])@;
                &&& item.len() > 0
                &&& !crate::text::is_white_space(item[0])
                &&& !crate::text::is_white_space(item.last())
                &&& !item.contains(',')
                &&& is_normal_segment(encode_utf8(item))
            },
{
    proof {
        crate::text::lemma_list_items_law(content@);
    }
    let items = split_list(content);
    let ghost iv = items@.map_values(|t: String| t@);
    let mut i: usize = 0;
    while i < items.len()
        invariant
            i <= items.len(),
            iv == items@.map_values(|t: String| t@),
            iv == list_items(content@),
            forall|k: int| 0 <= k < i ==> is_normal_segment(#[trigger] encode_utf8(iv[k])),
        decreases items.len() - i,
    {
        if !is_normal_path_segment(items[i].as_str()) {
            assert(!is_normal_segment(encode_utf8(iv[i as int])));
            return Err(CandidatesError::InvalidCandidateName);
        }
        i = i + 1;
    }
    assert forall|i: int| 0 <= i < items@.len() implies {
        let item = (#[trigger] items@[i])@;
        &&& item.len() > 0
        &&& !crate::text::is_white_space(item[0])
        &&& !crate::text::is_white_space(item.last())
        &&& !item.contains(',')
        &&& is_normal_segment(encode_utf8(item))
    } by {
        assert(iv[i] == items@[i]@);
        crate::text::lemma_list_items_law(content@);
    }
    Ok(items)
}

/// Every name on a list read from the candidates file is a single path
/// name: checking a candidate against such a list comes down to finding it
/// there.
pub proof fn lemma_listed_candidates_are_valid(items: Seq<Seq<char>>, candidate: Seq<char>)
    requires
        all_normal_names(items),
    ensures
        (exists|k: int| 0 <= k < items.len() && #[trigger] items[k] == candidate) ==> is_normal_segment(
            encode_utf8(candidate),
        ),
{
    if exists|k: int| 0 <= k < items.len() && #[trigger] items[k] == candidate {
        let k = choose|k: int| 0 <= k < items.len() && #[trigger] items[k] == candidate;
        assert(is_normal_segment(encode_utf8(items[k])));
    }
}

/// Whether `candidate` may be used: it is a single path name and one of the
/// known candidates.
pub fn validate_candidate(all_candidates: &[String], candidate: &str) -> (r: bool)
    ensures
        r <==> is_normal_segment(candidate.spec_bytes()) && exists|k: int|
            0 <= k < all_candidates@.len() && #[trigger] all_candidates@[k]@ == candidate@,
{
    if !is_normal_path_segment(candidate) {
        return false;
    }
    let mut k: usize = 0;
    while k < all_candidates.len()
        invariant
            k <= all_candidates.len(),
            is_normal_segment(candidate.spec_bytes()),
            forall|j: int| 0 <= j < k ==> #[trigger] all_candidates@[j]@ != candidate@,
        decreases all_candidates.len() - k,
    {
        let known = all_candidates[k].as_str();
        if crate::text::str_equal(known, candidate) {
            assert(all_candidates@[k as int]@ == candidate@);
            return true;
        }
        k = k + 1;
    }
    false
}

/// The bytes of the name of the candidates directory.
pub open spec fn candidates_dir_bytes() -> Seq<u8> {
    CANDIDATES_DIR.spec_bytes()
}

/// The name of the candidates directory is one plain path name.
pub proof fn lemma_candidates_dir_is_normal()
    ensures
        is_normal_segment(candidates_dir_bytes()),
        components(candidates_dir_bytes()) == seq![ComponentView::Normal(candidates_dir_bytes())],
{
    reveal_strlit("candidates");
    let cs = CANDIDATES_DIR@;
    assert(vstd::utf8::is_ascii_chars(cs));
    vstd::utf8::is_ascii_chars_encode_utf8(cs);
    let b = candidates_dir_bytes();
    assert forall|i: int| 0 <= i < b.len() implies b[i] != crate::path::SEPARATOR by {
        assert(cs[i] as u8 == b[i]);
    }
    assert(b[0] == 99u8);
    crate::path::lemma_plain_name_is_normal(b);
}

/// A plain name: not empty, not `.` or `..`, and without a separator, such
/// as `java` or `11.0.15-tem`.
pub open spec fn is_plain_name(b: Seq<u8>) -> bool {
    &&& b.len() > 0
    &&& !(b.len() == 1 && b[0] == 46u8)
    &&& !(b.len() == 2 && b[0] == 46u8 && b[1] == 46u8)
    &&& forall|i: int| 0 <= i < b.len() ==> b[i] != 47u8
}

/// Plain names are single path names, so `validate_version_path` accepts a
/// plain candidate and a plain version whenever the canonical paths nest as
/// their names say and the version is a directory: no other condition on the
/// names can turn such a version away.
pub proof fn lemma_plain_names_accepted(candidate: Seq<u8>, version: Seq<u8>)
    ensures
        is_plain_name(candidate) ==> is_normal_segment(candidate),
        is_plain_name(version) ==> is_normal_segment(version),
{
    if is_plain_name(candidate) {
        crate::path::lemma_plain_name_is_normal(candidate);
    }
    if is_plain_name(version) {
        crate::path::lemma_plain_name_is_normal(version);
    }
}

/// What `validate_version_path` learns from the file system: the canonical
/// forms of the SDKMAN! home, of its candidates directory, of the candidate's
/// directory and of the version's directory (`None` where canonicalizing
/// failed), and whether the version path is a directory.
pub struct VersionPathProbe {
    pub base: Option<Vec<u8>>,
    pub candidates: Option<Vec<u8>>,
    pub candidate: Option<Vec<u8>>,
    pub version: Option<Vec<u8>>,
    pub version_is_dir: bool,
}

/// The path of a version of a candidate under the SDKMAN! home `base`.
pub open spec fn version_path_of(base: Seq<u8>, candidate: Seq<u8>, version: Seq<u8>) -> Seq<u8> {
    join(join(join(base, candidates_dir_bytes()), candidate), version)
}

/// The canonical paths nest as their names say: the canonical candidates
/// directory is the canonical home joined with `candidates`, the canonical
/// candidate directory is that joined with the candidate, and the canonical
/// version directory is that joined with the version. A symbolic link
/// anywhere along the way breaks this.
pub open spec fn probe_nests(probe: VersionPathProbe, candidate: Seq<u8>, version: Seq<u8>) -> bool {
    &&& probe.base is Some
    &&& probe.candidates is Some
    &&& probe.candidate is Some
    &&& probe.version is Some
    &&& components(probe.candidates->0@) == components(
        join(probe.base->0@, candidates_dir_bytes()),
    )
    &&& components(probe.candidate->0@) == components(join(probe.candidates->0@, candidate))
    &&& components(probe.version->0@) == components(join(probe.candidate->0@, version))
}

/// The directory of `version` of `candidate` under the SDKMAN! home
/// `base_dir`, when both names are single path names, the canonical paths in
/// `probe` nest as their names say, and the version path is a directory;
/// `None` otherwise. An accepted version directory lies, canonically, exactly
/// the candidates directory, the candidate and the version below the real
/// home: no name can lead out of it.
pub fn validate_version_path(
    base_dir: &[u8],
    candidate: &str,
    version: &str,
    probe: &VersionPathProbe,
) -> (r: Option<Vec<u8>>)
    ensures
        r is Some <==> is_normal_segment(candidate.spec_bytes()) && is_normal_segment(
            version.spec_bytes(),
        ) && probe_nests(*probe, candidate.spec_bytes(), version.spec_bytes())
            && probe.version_is_dir,
        r matches Some(p) ==> p@ == version_path_of(
            base_dir@,
            candidate.spec_bytes(),
            version.spec_bytes(),
        ),
        r matches Some(p) ==> components(p@) == components(base_dir@) + seq![
            ComponentView::Normal(candidates_dir_bytes()),
            components(candidate.spec_bytes())[0],
            components(version.spec_bytes())[0],
        ],
        r is Some ==> components(probe.version->0@) == components(probe.base->0@) + seq![
            ComponentView::Normal(candidates_dir_bytes()),
            components(candidate.spec_bytes())[0],
            components(version.spec_bytes())[0],
        ],
        ({
            let cn = candidate.spec_bytes();
            let vn = version.spec_bytes();
            (is_normal_segment(cn) && is_normal_segment(vn) && probe.base is Some
                && probe.candidates is Some && probe.candidate is Some && probe.version is Some
                && components(probe.candidates->0@) == components(
                join(probe.base->0@, candidates_dir_bytes()),
            ) && components(probe.candidate->0@) == components(join(probe.candidates->0@, cn))
                && components(probe.version->0@) == components(join(probe.candidate->0@, vn))
                && probe.version_is_dir) ==> (r is Some && r->0@ == join(
                join(join(base_dir@, candidates_dir_bytes()), cn),
                vn,
            ))
        }),
        ({
            let cn = candidate.spec_bytes();
            let vn = version.spec_bytes();
            (is_plain_name(cn) && is_plain_name(vn) && probe.base is Some && probe.candidates is Some
                && probe.candidate is Some && probe.version is Some && components(
                probe.candidates->0@,
            ) == components(join(probe.base->0@, candidates_dir_bytes())) && components(
                probe.candidate->0@,
            ) == components(join(probe.candidates->0@, cn)) && components(probe.version->0@)
                == components(join(probe.candidate->0@, vn)) && probe.version_is_dir) ==> r is Some
        }),
{
    proof {
        lemma_plain_names_accepted(candidate.spec_bytes(), version.spec_bytes());
    }
    if !is_normal_path_segment(candidate) || !is_normal_path_segment(version) {
        return None;
    }
    let candidates_name = CANDIDATES_DIR.as_bytes();
    let candidate_name = candidate.as_bytes();
    let version_name = version.as_bytes();
    let nests = match (&probe.base, &probe.candidates, &probe.candidate, &probe.version) {
        (Some(b), Some(c), Some(k), Some(v)) => {
            same_components(c, &join_path(b, candidates_name)) && same_components(
                k,
                &join_path(c, candidate_name),
            ) && same_components(v, &join_path(k, version_name))
        },
        _ => false,
    };
    if !nests || !probe.version_is_dir {
        return None;
    }
    proof {
        let b = probe.base->0@;
        let c = probe.candidates->0@;
        let k = probe.candidate->0@;
        let cn = candidate.spec_bytes();
        let vn = version.spec_bytes();
        lemma_candidates_dir_is_normal();
        crate::path::lemma_join_normal_segment(b, candidates_dir_bytes());
        crate::path::lemma_join_normal_segment(c, cn);
        crate::path::lemma_join_normal_segment(k, vn);
        assert(components(probe.version->0@) =~= components(b) + seq![
            ComponentView::Normal(candidates_dir_bytes()),
            components(cn)[0],
            components(vn)[0],
        ]);
    }
    let candidates_path = join_path(base_dir, candidates_name);
    let candidate_path = join_path(&candidates_path, candidate_name);
    let version_path = join_path(&candidate_path, version_name);
    proof {
        crate::path::lemma_join_normal_segment(base_dir@, candidates_dir_bytes());
        crate::path::lemma_join_normal_segment(candidates_path@, candidate.spec_bytes());
        crate::path::lemma_join_normal_segment(candidate_path@, version.spec_bytes());
        assert(components(version_path@) =~= components(base_dir@) + seq![
            ComponentView::Normal(candidates_dir_bytes()),
            components(candidate.spec_bytes())[0],
            components(version.spec_bytes())[0],
        ]);
    }
    Some(version_path)
}

/// The content of a metadata file as the commands use it: trimmed, and `None`
/// when nothing but whitespace is left.
pub fn non_blank_content(content: &str) -> (r: Option<String>)
    ensures
        r is Some <==> trim(content@).len() > 0,
        r matches Some(t) ==> t@ == trim(content@),
{
    let t = trim_str(content);
    if t.as_str().is_empty() {
        None
    } else {
        Some(t)
    }
}

/// The content of a metadata file as the commands use it, from what reading
/// it gave (`None` where it could not be read): trimmed, and `None` when it
/// could not be read or nothing but whitespace is left.
pub fn read_file_content(content: Option<&str>) -> (r: Option<String>)
    ensures
        match r {
            Some(t) => content is Some && trim(content->0@).len() > 0 && t@ == trim(content->0@),
            None => content is None || trim(content->0@).len() == 0,
        },
{
    match content {
        Some(c) => non_blank_content(c),
        None => None,
    }
}

/// The SDKMAN! home chosen from the value of `SDKMAN_DIR` and the user's home
/// directory: the variable when it is set and not empty, else `.sdkman` under
/// the home directory, and nothing when neither is known.
pub open spec fn sdkman_dir_choice(env_value: Option<Seq<u8>>, home_dir: Option<Seq<u8>>) -> Option<
    Seq<u8>,
> {
    match env_value {
        Some(v) if v.len() > 0 => Some(v),
        _ => match home_dir {
            Some(h) => Some(join(h, DEFAULT_SDKMAN_HOME.spec_bytes())),
            None => None,
        },
    }
}

/// `SDKMAN_DIR`, when set and not empty, is the SDKMAN! home whatever the
/// user's home directory is; otherwise the home is `.sdkman` under the user's
/// home directory, and unknown without one.
pub proof fn lemma_sdkman_dir_choice(env_value: Option<Seq<u8>>, home_dir: Option<Seq<u8>>)
    ensures
        (env_value is Some && env_value->0.len() > 0) ==> sdkman_dir_choice(env_value, home_dir)
            == env_value,
        (env_value is None || env_value->0.len() == 0) ==> sdkman_dir_choice(env_value, home_dir)
            == match home_dir {
            Some(h) => Some(join(h, DEFAULT_SDKMAN_HOME.spec_bytes())),
            None => None,
        },
{
}

/// The bytes of an optional byte string.
pub open spec fn bytes_view(b: Option<&[u8]>) -> Option<Seq<u8>> {
    match b {
        Some(b) => Some(b@),
        None => None,
    }
}

/// The SDKMAN! home: the value of `SDKMAN_DIR` when it is set and not empty,
/// else `.sdkman` under the user's home directory, and `None` when neither
/// is known.
pub fn infer_sdkman_dir(env_value: Option<&[u8]>, home_dir: Option<&[u8]>) -> (r: Option<Vec<u8>>)
    ensures
        match r {
            Some(p) => sdkman_dir_choice(bytes_view(env_value), bytes_view(home_dir)) == Some(p@),
            None => sdkman_dir_choice(bytes_view(env_value), bytes_view(home_dir)) is None,
        },
        (env_value is Some && env_value->0@.len() > 0) ==> (r is Some && r->0@ == env_value->0@),
        (env_value is None || env_value->0@.len() == 0) ==> (match home_dir {
            Some(h) => r is Some && r->0@ == join(h@, DEFAULT_SDKMAN_HOME.spec_bytes()),
            None => r is None,
        }),
{
    proof {
        lemma_sdkman_dir_choice(bytes_view(env_value), bytes_view(home_dir));
    }
    match env_value {
        Some(v) if v.len() > 0 => {
            return Some(copy_bytes(v));
        },
        _ => {},
    }
    match home_dir {
        Some(h) => Some(join_path(h, DEFAULT_SDKMAN_HOME.as_bytes())),
        None => None,
    }
}

} // verus!
