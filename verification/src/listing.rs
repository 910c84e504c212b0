//! What `list` shows and asks for: the installed versions of a candidate,
//! the offline listing and the addresses of the candidates service.
use vstd::prelude::*;
use vstd::multiset::Multiset;
use vstd::relations::sorted_by;
use vstd::string::StringSliceAdditionalSpecFns;

use crate::constants::CURRENT_DIR;
use crate::path::bytes_equal;
use crate::text::{
    chars_of, join_strings, join_with, lex_le, lex_order, list_items, push_char, sort_strings, split_list,
    str_equal, utf8_text,
};
use vstd::utf8::{decode_utf8, valid_utf8};

verus! {

/// An entry of a candidate's directory: its name, and whether it is a
/// directory or a symbolic link (`false` where its type could not be read).
pub struct VersionEntry {
    pub name: Vec<u8>,
    pub is_dir_or_symlink: bool,
}

/// An entry counts as an installed version when it is a directory or a
/// symbolic link, is not `current`, and its name is text.
pub open spec fn is_installed_version(e: VersionEntry) -> bool {
    &&& e.is_dir_or_symlink
    &&& e.name@ != CURRENT_DIR.spec_bytes()
    &&& valid_utf8(e.name@)
}

/// The names of the installed versions among `entries`, in directory order.
pub open spec fn installed_versions(entries: Seq<VersionEntry>) -> Seq<Seq<char>>
    decreases entries.len(),
{
    if entries.len() == 0 {
        seq![]
    } else {
        let rest = installed_versions(entries.drop_last());
        if is_installed_version(entries.last()) {
            rest.push(decode_utf8(entries.last().name@))
        } else {
            rest
        }
    }
}

/// The installed versions of a candidate, in ascending order, joined with
/// commas, as SDKMAN!'s `__sdkman_build_version_csv` lists them.
pub fn build_version_csv(entries: &[VersionEntry]) -> (csv: String)
    ensures
        csv@ == join_with(installed_versions(entries@).sort_by(lex_order()), seq![',']),
        csv@ == join_with(ascending_versions(entries@), seq![',']),
        sorted_by(ascending_versions(entries@), lex_order()),
        forall|i: int|
            0 <= i < entries@.len() && (#[trigger] entries@[i]).is_dir_or_symlink
                && entries@[i].name@ != CURRENT_DIR.spec_bytes() && valid_utf8(entries@[i].name@)
                ==> ascending_versions(entries@).contains(decode_utf8(entries@[i].name@)),
        forall|x: Seq<char>|
            #[trigger] ascending_versions(entries@).contains(x) ==> exists|i: int|
                0 <= i < entries@.len() && (#[trigger] entries@[i]).is_dir_or_symlink
                    && entries@[i].name@ != CURRENT_DIR.spec_bytes() && valid_utf8(
                    entries@[i].name@,
                ) && decode_utf8(entries@[i].name@) == x,
{
    proof {
        lemma_version_csv_names(entries@);
    }
    let mut names: Vec<String> = Vec::new();
    let mut i: usize = 0;
    while i < entries.len()
        invariant
            i <= entries.len(),
            names@.map_values(|t: String| t@) == installed_versions(entries@.take(i as int)),
        decreases entries.len() - i,
    {
        let e = &entries[i];
        let ghost before = names@.map_values(|t: String| t@);
        proof {
            assert(entries@.take(i + 1).drop_last() =~= entries@.take(i as int));
        }
        if e.is_dir_or_symlink && !bytes_equal(&e.name, CURRENT_DIR.as_bytes()) {
            match utf8_text(crate::path::copy_bytes(&e.name)) {
                Some(name) => {
                    names.push(name);
                    assert(names@.map_values(|t: String| t@) =~= before.push(names@.last()@));
                },
                None => {},
            }
        }
        i = i + 1;
    }
    assert(entries@.take(entries.len() as int) =~= entries@);
    let sorted = sort_strings(names);
    let csv = join_strings(&sorted, ",");
    proof {
        reveal_strlit(",");
        assert(","@ =~= seq![',']);
    }
    csv
}

/// How the offline listing shows one installed version: ` > ` before the
/// current one, ` * ` before the others.
pub open spec fn offline_line(version: Seq<char>, current: Seq<char>) -> Seq<char> {
    if version == current {
        seq![' ', '>', ' '] + version
    } else {
        seq![' ', '*', ' '] + version
    }
}

/// A line of the offline listing shows its version after a three-character
/// mark, ` > ` exactly when the version is the current one and ` * `
/// otherwise.
pub proof fn lemma_offline_line_marks(version: Seq<char>, current: Seq<char>)
    ensures
        offline_line(version, current).len() == version.len() + 3,
        offline_line(version, current)[0] == ' ' && offline_line(version, current)[2] == ' ',
        offline_line(version, current).skip(3) == version,
        offline_line(version, current)[1] == '>' <==> version == current,
        offline_line(version, current)[1] == '*' <==> version != current,
{
    assert(offline_line(version, current).skip(3) =~= version);
}

/// The lines of the offline listing for the installed versions in
/// `versions_csv`: one per version, last version first.
pub fn offline_lines(versions_csv: &str, current: &str) -> (lines: Vec<String>)
    ensures
        lines@.len() == list_items(versions_csv@).len(),
        forall|k: int|
            0 <= k < lines@.len() ==> #[trigger] lines@[k]@ == offline_line(
                list_items(versions_csv@)[lines@.len() - 1 - k],
                current@,
            ),
        forall|k: int|
            0 <= k < lines@.len() ==> {
                let version = list_items(versions_csv@)[lines@.len() - 1 - k];
                let line = #[trigger] lines@[k]@;
                &&& line.len() == version.len() + 3
                &&& line[0] == ' ' && line[2] == ' '
                &&& line.skip(3) == version
                &&& (line[1] == '>' <==> version == current@)
                &&& (line[1] == '*' <==> version != current@)
            },
{
    let items = split_list(versions_csv);
    let ghost iv = items@.map_values(|t: String| t@);
    let mut lines: Vec<String> = Vec::new();
    let mut k: usize = items.len();
    while k > 0
        invariant
            k <= items.len(),
            iv == items@.map_values(|t: String| t@),
            iv == list_items(versions_csv@),
            lines@.len() == items.len() - k,
            forall|j: int|
                0 <= j < lines@.len() ==> #[trigger] lines@[j]@ == offline_line(
                    iv[items.len() - 1 - j],
                    current@,
                ),
        decreases k,
    {
        k = k - 1;
        let v = items[k].as_str();
        let mut line = String::new();
        if str_equal(v, current) {
            push_char(&mut line, ' ');
            push_char(&mut line, '>');
            push_char(&mut line, ' ');
        } else {
            push_char(&mut line, ' ');
            push_char(&mut line, '*');
            push_char(&mut line, ' ');
        }
        line.append(v);
        assert(iv[k as int] == items@[k as int]@);
        assert(line@ =~= offline_line(iv[k as int], current@));
        lines.push(line);
    }
    assert forall|k: int| 0 <= k < lines@.len() implies {
        let version = list_items(versions_csv@)[lines@.len() - 1 - k];
        let line = #[trigger] lines@[k]@;
        &&& line.len() == version.len() + 3
        &&& line[0] == ' ' && line[2] == ' '
        &&& line.skip(3) == version
        &&& (line[1] == '>' <==> version == current@)
        &&& (line[1] == '*' <==> version != current@)
    } by {
        lemma_offline_line_marks(list_items(versions_csv@)[lines@.len() - 1 - k], current@);
    }
    lines
}

/// `s` without the `/` characters at its end, as `trim_end_matches('/')`
/// leaves it.
pub open spec fn trim_trailing_slashes(s: Seq<char>) -> Seq<char>
    decreases s.len(),
{
    if s.len() > 0 && s.last() == '/' {
        trim_trailing_slashes(s.drop_last())
    } else {
        s
    }
}

/// Dropping the trailing `/` characters keeps a prefix of `s`, removes only
/// `/` characters, and leaves no `/` at the end.
pub proof fn lemma_trim_trailing_slashes_law(s: Seq<char>)
    ensures
        ({
            let t = trim_trailing_slashes(s);
            &&& t.len() <= s.len()
            &&& t == s.take(t.len() as int)
            &&& forall|k: int| t.len() <= k < s.len() ==> #[trigger] s[k] == '/'
            &&& t.len() == 0 || t.last() != '/'
        }),
    decreases s.len(),
{
    if s.len() > 0 && s.last() == '/' {
        lemma_trim_trailing_slashes_law(s.drop_last());
        let t = trim_trailing_slashes(s);
        assert(s.drop_last().take(t.len() as int) =~= s.take(t.len() as int));
        assert forall|k: int| t.len() <= k < s.len() implies #[trigger] s[k] == '/' by {
            if k < s.len() - 1 {
                assert(s[k] == s.drop_last()[k]);
            }
        }
    } else {
        assert(s.take(s.len() as int) =~= s);
    }
}

fn without_trailing_slashes(s: &str) -> (r: String)
    ensures
        r@ == trim_trailing_slashes(s@),
{
    let chars = chars_of(s);
    let mut n: usize = chars.len();
    assert(chars@.take(n as int) =~= chars@);
    while n > 0 && chars[n - 1] == '/'
        invariant
            n <= chars.len(),
            trim_trailing_slashes(s@) == trim_trailing_slashes(chars@.take(n as int)),
            chars@ == s@,
        decreases n,
    {
        assert(chars@.take(n as int).drop_last() =~= chars@.take(n - 1));
        n = n - 1;
    }
    let mut r = String::new();
    let mut i: usize = 0;
    while i < n
        invariant
            i <= n <= chars.len(),
            r@ == chars@.take(i as int),
        decreases n - i,
    {
        push_char(&mut r, chars[i]);
        i = i + 1;
        assert(r@ =~= chars@.take(i as int));
    }
    r
}

/// The address of the list of all candidates, under the service `api`.
pub fn candidates_list_url(api: &str) -> (url: String)
    ensures
        url@ == trim_trailing_slashes(api@) + "/candidates/list"@,
        exists|n: int|
            0 <= n <= api@.len() && url@ == api@.take(n) + "/candidates/list"@ && (forall|k: int|
                n <= k < api@.len() ==> #[trigger] api@[k] == '/') && (n == 0 || api@[n - 1] != '/'),
{
    proof {
        lemma_trim_trailing_slashes_law(api@);
        let t = trim_trailing_slashes(api@);
        assert(t.len() > 0 ==> t.last() == api@[t.len() - 1]);
    }
    let mut url = without_trailing_slashes(api);
    url.append("/candidates/list");
    url
}

/// The characters that `urlencoding::encode` leaves as they are: ASCII
/// letters and digits, `-`, `.`, `_` and `~`.
pub open spec fn is_unreserved(b: u8) -> bool {
    ||| 48 <= b <= 57
    ||| 65 <= b <= 90
    ||| 97 <= b <= 122
    ||| b == 45
    ||| b == 46
    ||| b == 95
    ||| b == 126
}

/// The upper-case hexadecimal digit for a value below 16.
pub open spec fn hex_digit(d: u8) -> char {
    if d < 10 {
        (48 + d) as char
    } else {
        (55 + d) as char
    }
}

/// The percent-encoding of `bytes`: each unreserved byte as its character,
/// every other byte as `%` and two upper-case hexadecimal digits.
pub open spec fn percent_encode(bytes: Seq<u8>) -> Seq<char>
    decreases bytes.len(),
{
    if bytes.len() == 0 {
        seq![]
    } else {
        let rest = percent_encode(bytes.drop_last());
        let b = bytes.last();
        if is_unreserved(b) {
            rest.push(b as char)
        } else {
            rest + seq!['%', hex_digit(b / 16), hex_digit(b % 16)]
        }
    }
}

/// Calls `urlencoding::encode`, whose source percent-encodes every byte of
/// the UTF-8 form of `s` except ASCII letters, digits, `-`, `.`, `_` and `~`,
/// writing `%` and two upper-case hexadecimal digits.
#[verifier::external_body]
fn url_encode(s: &str) -> (r: String)
    ensures
        r@ == percent_encode(s.spec_bytes()),
{
    urlencoding::encode(s).into_owned()
}

/// The address of the list of versions of `candidate` for `platform`, under
/// the service `api`, telling it the current version and the installed ones.
pub fn versions_list_url(
    api: &str,
    candidate: &str,
    platform: &str,
    current: &str,
    versions_csv: &str,
) -> (url: String)
    ensures
        url@ == trim_trailing_slashes(api@) + "/candidates/"@ + candidate@ + "/"@ + platform@
            + "/versions/list?current="@ + percent_encode(current.spec_bytes()) + "&installed="@
            + percent_encode(versions_csv.spec_bytes()),
        exists|n: int|
            0 <= n <= api@.len() && url@ == api@.take(n) + "/candidates/"@ + candidate@ + "/"@
                + platform@ + "/versions/list?current="@ + percent_encode(current.spec_bytes())
                + "&installed="@ + percent_encode(versions_csv.spec_bytes()) && (forall|k: int|
                n <= k < api@.len() ==> #[trigger] api@[k] == '/') && (n == 0 || api@[n - 1] != '/'),
{
    proof {
        lemma_trim_trailing_slashes_law(api@);
        let t = trim_trailing_slashes(api@);
        assert(t.len() > 0 ==> t.last() == api@[t.len() - 1]);
    }
    let mut url = without_trailing_slashes(api);
    url.append("/candidates/");
    url.append(candidate);
    url.append("/");
    url.append(platform);
    url.append("/versions/list?current=");
    let c = url_encode(current);
    url.append(c.as_str());
    url.append("&installed=");
    let v = url_encode(versions_csv);
    url.append(v.as_str());
    url
}

/// `s` ending in a line break: as it is when it ends in one, else with one
/// added.
pub fn with_trailing_newline(s: &str) -> (r: String)
    ensures
        r@ == (if s@.len() > 0 && s@.last() == '\n' {
            s@
        } else {
            s@.push('\n')
        }),
{
    let chars = chars_of(s);
    let mut r = String::new();
    r.append(s);
    if chars.len() == 0 || chars[chars.len() - 1] != '\n' {
        push_char(&mut r, '\n');
    }
    r
}

/// Whether the candidates service may be used, from the value of
/// `SDKMAN_AVAILABLE`: always, unless it is `false`.
pub fn is_available(value: Option<&str>) -> (r: bool)
    ensures
        r == !(value is Some && value->0@ == "false"@),
{
    match value {
        Some(v) => !str_equal(v, "false"),
        None => true,
    }
}


/// The name that an entry adds to the installed versions: its text when it
/// counts as an installed version, nothing otherwise.
pub open spec fn contribution(e: VersionEntry) -> Multiset<Seq<char>> {
    if is_installed_version(e) {
        Multiset::singleton(decode_utf8(e.name@))
    } else {
        Multiset::empty()
    }
}

proof fn lemma_installed_push(es: Seq<VersionEntry>, e: VersionEntry)
    ensures
        installed_versions(es.push(e)).to_multiset() == installed_versions(es).to_multiset().add(
            contribution(e),
        ),
{
    broadcast use vstd::multiset::group_multiset_axioms;

    assert(es.push(e).drop_last() =~= es);
    if is_installed_version(e) {
        vstd::seq_lib::to_multiset_build(installed_versions(es), decode_utf8(e.name@));
        assert(installed_versions(es).to_multiset().insert(decode_utf8(e.name@))
            =~= installed_versions(es).to_multiset().add(contribution(e)));
    } else {
        assert(installed_versions(es).to_multiset() =~= installed_versions(es).to_multiset().add(
            contribution(e),
        ));
    }
}

proof fn lemma_installed_remove(es: Seq<VersionEntry>, i: int)
    requires
        0 <= i < es.len(),
    ensures
        installed_versions(es).to_multiset() == installed_versions(es.remove(i)).to_multiset().add(
            contribution(es[i]),
        ),
    decreases es.len(),
{
    broadcast use vstd::multiset::group_multiset_axioms;

    let init = es.drop_last();
    let last = es.last();
    assert(es =~= init.push(last));
    lemma_installed_push(init, last);
    if i == es.len() - 1 {
        assert(es.remove(i) =~= init);
    } else {
        lemma_installed_remove(init, i);
        assert(es.remove(i) =~= init.remove(i).push(last));
        lemma_installed_push(init.remove(i), last);
        assert(init[i] == es[i]);
        let a = installed_versions(init.remove(i)).to_multiset();
        assert(a.add(contribution(es[i])).add(contribution(last)) =~= a.add(contribution(last)).add(
            contribution(es[i]),
        ));
    }
}

proof fn lemma_installed_permutation(a: Seq<VersionEntry>, b: Seq<VersionEntry>)
    requires
        a.to_multiset() == b.to_multiset(),
    ensures
        installed_versions(a).to_multiset() == installed_versions(b).to_multiset(),
    decreases a.len(),
{
    broadcast use vstd::multiset::group_multiset_axioms;
    broadcast use vstd::seq_lib::group_to_multiset_ensures;

    if a.len() == 0 {
        assert(b.to_multiset().len() == 0);
        assert(b.len() == 0);
        assert(a =~= b);
    } else {
        let x = a.last();
        let init = a.drop_last();
        assert(a =~= init.push(x));
        assert(a.to_multiset().count(x) > 0);
        assert(b.contains(x));
        let j = choose|j: int| 0 <= j < b.len() && b[j] == x;
        assert(init.to_multiset() =~= b.remove(j).to_multiset()) by {
            assert(a.to_multiset() =~= init.to_multiset().insert(x));
            assert(b.remove(j).to_multiset() =~= b.to_multiset().remove(x));
        }
        lemma_installed_permutation(init, b.remove(j));
        lemma_installed_push(init, x);
        lemma_installed_remove(b, j);
    }
}

/// The installed versions, in ascending order, are sorted and are exactly
/// the names of the qualifying entries; and they do not depend on the order
/// in which the directory lists its entries: entries in any other order give
/// the same list, hence the same `build_version_csv`.
pub proof fn lemma_version_csv_ignores_entry_order(a: Seq<VersionEntry>, b: Seq<VersionEntry>)
    requires
        a.to_multiset() == b.to_multiset(),
    ensures
        sorted_by(installed_versions(a).sort_by(lex_order()), lex_order()),
        installed_versions(a).sort_by(lex_order()).to_multiset() == installed_versions(
            a,
        ).to_multiset(),
        installed_versions(a).sort_by(lex_order()) == installed_versions(b).sort_by(lex_order()),
        join_with(installed_versions(a).sort_by(lex_order()), seq![',']) == join_with(
            installed_versions(b).sort_by(lex_order()),
            seq![','],
        ),
{
    let leq = lex_order();
    crate::text::lemma_lex_total_ordering();
    lemma_installed_permutation(a, b);
    installed_versions(a).lemma_sort_by_ensures(leq);
    installed_versions(b).lemma_sort_by_ensures(leq);
    vstd::seq_lib::lemma_sorted_unique(
        installed_versions(a).sort_by(leq),
        installed_versions(b).sort_by(leq),
        leq,
    );
}


proof fn lemma_installed_members(es: Seq<VersionEntry>, x: Seq<char>)
    requires
        installed_versions(es).contains(x),
    ensures
        exists|i: int|
            0 <= i < es.len() && is_installed_version(#[trigger] es[i]) && decode_utf8(es[i].name@)
                == x,
    decreases es.len(),
{
    let init = es.drop_last();
    let rest = installed_versions(init);
    if rest.contains(x) {
        lemma_installed_members(init, x);
        let i = choose|i: int|
            0 <= i < init.len() && is_installed_version(#[trigger] init[i]) && decode_utf8(
                init[i].name@,
            ) == x;
        assert(es[i] == init[i]);
    } else {
        let k = choose|k: int| 0 <= k < installed_versions(es).len() && installed_versions(es)[k] == x;
        assert(es[es.len() - 1] == es.last());
    }
}

proof fn lemma_installed_distinct(es: Seq<VersionEntry>)
    requires
        forall|i: int, j: int| 0 <= i < j < es.len() ==> (#[trigger] es[i]).name@ != (#[trigger] es[j]).name@,
    ensures
        installed_versions(es).no_duplicates(),
    decreases es.len(),
{
    if es.len() > 0 {
        let init = es.drop_last();
        let rest = installed_versions(init);
        assert forall|i: int, j: int| 0 <= i < j < init.len() implies (#[trigger] init[i]).name@ != (
        #[trigger] init[j]).name@ by {
            assert(init[i] == es[i] && init[j] == es[j]);
        }
        lemma_installed_distinct(init);
        let e = es.last();
        if is_installed_version(e) {
            let x = decode_utf8(e.name@);
            if rest.contains(x) {
                lemma_installed_members(init, x);
                let i = choose|i: int|
                    0 <= i < init.len() && is_installed_version(#[trigger] init[i]) && decode_utf8(
                        init[i].name@,
                    ) == x;
                vstd::utf8::decode_utf8_encode_utf8(init[i].name@);
                vstd::utf8::decode_utf8_encode_utf8(e.name@);
                assert(es[i] == init[i]);
                assert(es[es.len() - 1] == e);
                assert(false);
            }
            let all = installed_versions(es);
            assert(all == rest.push(x));
            assert forall|a: int, b: int| 0 <= a < all.len() && 0 <= b < all.len() && a != b implies all[a]
                != all[b] by {
                if a == all.len() - 1 {
                    assert(all[b] == rest[b]);
                    assert(rest.contains(rest[b]));
                } else if b == all.len() - 1 {
                    assert(all[a] == rest[a]);
                    assert(rest.contains(rest[a]));
                } else {
                    assert(all[a] == rest[a] && all[b] == rest[b]);
                }
            }
        }
    }
}

/// The installed versions among `entries`, in ascending order.
pub open spec fn ascending_versions(entries: Seq<VersionEntry>) -> Seq<Seq<char>> {
    installed_versions(entries).sort_by(lex_order())
}

/// When the directory's entries have distinct names, as a directory's do,
/// the installed versions come out strictly ascending: no name twice.
pub proof fn lemma_version_csv_strictly_ascending(entries: Seq<VersionEntry>)
    requires
        forall|i: int, j: int|
            0 <= i < j < entries.len() ==> (#[trigger] entries[i]).name@ != (
            #[trigger] entries[j]).name@,
    ensures
        forall|i: int, j: int|
            0 <= i < j < ascending_versions(entries).len() ==> lex_le(
                #[trigger] ascending_versions(entries)[i],
                #[trigger] ascending_versions(entries)[j],
            ) && ascending_versions(entries)[i] != ascending_versions(entries)[j],
{
    let leq = lex_order();
    let v = installed_versions(entries);
    crate::text::lemma_lex_total_ordering();
    v.lemma_sort_by_ensures(leq);
    lemma_installed_distinct(entries);
    v.lemma_multiset_has_no_duplicates();
    let sorted = v.sort_by(leq);
    sorted.lemma_multiset_has_no_duplicates_conv();
    assert forall|i: int, j: int| 0 <= i < j < sorted.len() implies lex_le(sorted[i], sorted[j])
        && sorted[i] != sorted[j] by {
        assert(leq(sorted[i], sorted[j]));
    }
}


/// When the directory's entries have distinct names, some of them count as
/// installed versions, and no name holds a comma, the text that
/// `build_version_csv` gives splits at its commas into exactly the installed
/// versions, strictly ascending.
pub proof fn lemma_version_csv_splits_back(entries: Seq<VersionEntry>)
    requires
        forall|i: int, j: int|
            0 <= i < j < entries.len() ==> (#[trigger] entries[i]).name@ != (
            #[trigger] entries[j]).name@,
        installed_versions(entries).len() > 0,
        forall|i: int|
            0 <= i < installed_versions(entries).len() ==> !(#[trigger] installed_versions(
                entries,
            )[i]).contains(','),
    ensures
        crate::text::split(join_with(ascending_versions(entries), seq![',']), ',')
            == ascending_versions(entries),
        forall|i: int, j: int|
            0 <= i < j < ascending_versions(entries).len() ==> lex_le(
                #[trigger] ascending_versions(entries)[i],
                #[trigger] ascending_versions(entries)[j],
            ) && ascending_versions(entries)[i] != ascending_versions(entries)[j],
{
    broadcast use vstd::seq_lib::group_to_multiset_ensures;

    let v = installed_versions(entries);
    let sorted = ascending_versions(entries);
    crate::text::lemma_lex_total_ordering();
    v.lemma_sort_by_ensures(lex_order());
    assert(sorted.len() == v.len()) by {
        assert(sorted.to_multiset().len() == v.to_multiset().len());
    }
    assert forall|i: int| 0 <= i < sorted.len() implies !(#[trigger] sorted[i]).contains(',') by {
        assert(sorted.to_multiset().count(sorted[i]) > 0);
        assert(v.contains(sorted[i]));
        let k = choose|k: int| 0 <= k < v.len() && v[k] == sorted[i];
        assert(!v[k].contains(','));
    }
    crate::text::lemma_split_join(sorted, ',');
    lemma_version_csv_strictly_ascending(entries);
}


proof fn lemma_installed_includes(es: Seq<VersionEntry>, i: int)
    requires
        0 <= i < es.len(),
        is_installed_version(es[i]),
    ensures
        installed_versions(es).contains(decode_utf8(es[i].name@)),
    decreases es.len(),
{
    let init = es.drop_last();
    let all = installed_versions(es);
    if i < es.len() - 1 {
        assert(init[i] == es[i]);
        lemma_installed_includes(init, i);
        let rest = installed_versions(init);
        let j = choose|j: int| 0 <= j < rest.len() && rest[j] == decode_utf8(es[i].name@);
        assert(all[j] == rest[j]);
    } else {
        assert(es[i] == es.last());
        assert(all[all.len() - 1] == decode_utf8(es[i].name@));
    }
}

/// The installed versions, as listed: sorted ascending; every entry that is
/// a directory or a symbolic link, is not named `current`, and has a UTF-8
/// name is among them; and each of them is the name of such an entry.
pub proof fn lemma_version_csv_names(entries: Seq<VersionEntry>)
    ensures
        sorted_by(ascending_versions(entries), lex_order()),
        forall|i: int|
            0 <= i < entries.len() && (#[trigger] entries[i]).is_dir_or_symlink && entries[i].name@
                != CURRENT_DIR.spec_bytes() && valid_utf8(entries[i].name@) ==> ascending_versions(
                entries,
            ).contains(decode_utf8(entries[i].name@)),
        forall|x: Seq<char>|
            #[trigger] ascending_versions(entries).contains(x) ==> exists|i: int|
                0 <= i < entries.len() && (#[trigger] entries[i]).is_dir_or_symlink
                    && entries[i].name@ != CURRENT_DIR.spec_bytes() && valid_utf8(entries[i].name@)
                    && decode_utf8(entries[i].name@) == x,
{
    broadcast use vstd::seq_lib::group_to_multiset_ensures;

    let v = installed_versions(entries);
    let sorted = ascending_versions(entries);
    crate::text::lemma_lex_total_ordering();
    v.lemma_sort_by_ensures(lex_order());
    assert forall|i: int|
        0 <= i < entries.len() && (#[trigger] entries[i]).is_dir_or_symlink && entries[i].name@
            != CURRENT_DIR.spec_bytes() && valid_utf8(entries[i].name@) implies sorted.contains(
        decode_utf8(entries[i].name@),
    ) by {
        lemma_installed_includes(entries, i);
        assert(v.to_multiset().count(decode_utf8(entries[i].name@)) > 0);
    }
    assert forall|x: Seq<char>| #[trigger] sorted.contains(x) implies exists|i: int|
        0 <= i < entries.len() && (#[trigger] entries[i]).is_dir_or_symlink && entries[i].name@
            != CURRENT_DIR.spec_bytes() && valid_utf8(entries[i].name@) && decode_utf8(
            entries[i].name@,
        ) == x by {
        assert(sorted.to_multiset().count(x) > 0);
        assert(v.contains(x));
        lemma_installed_members(entries, x);
    }
}

} // verus!
