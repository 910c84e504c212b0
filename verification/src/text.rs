//! Text handling over the characters of strings: whitespace trimming,
//! comma-separated lists, joining and ordering.
use vstd::prelude::*;
use vstd::relations::{sorted_by, total_ordering};

verus! {

/// The characters of `s`, in order.
pub fn chars_of(s: &str) -> (out: Vec<char>)
    ensures
        out@ == s@,
{
    let mut out: Vec<char> = Vec::new();
    for c in it: s.chars()
        invariant
            out@ == it.seq().take(it.index() as int),
            it.seq() == s@,
    {
        out.push(c);
    }
    out
}


/// Unicode's White_Space property, which `char::is_whitespace` tests.
pub open spec fn is_white_space(c: char) -> bool {
    let u = c as u32;
    ||| 0x9 <= u <= 0xD
    ||| u == 0x20
    ||| u == 0x85
    ||| u == 0xA0
    ||| u == 0x1680
    ||| 0x2000 <= u <= 0x200A
    ||| u == 0x2028
    ||| u == 0x2029
    ||| u == 0x202F
    ||| u == 0x205F
    ||| u == 0x3000
}

/// Calls `char::is_whitespace`, which std documents as true exactly for the
/// characters with Unicode's White_Space property; the contract lists them.
#[verifier::external_body]
fn char_is_whitespace(c: char) -> (r: bool)
    ensures
        r == is_white_space(c),
{
    c.is_whitespace()
}

/// Calls `String::push`, which appends one character.
#[verifier::external_body]
pub(crate) fn push_char(s: &mut String, c: char)
    ensures
        final(s)@ == old(s)@.push(c),
{
    s.push(c)
}

/// `s` without its leading whitespace.
pub open spec fn trim_start(s: Seq<char>) -> Seq<char>
    decreases s.len(),
{
    if s.len() > 0 && is_white_space(s[0]) {
        trim_start(s.drop_first())
    } else {
        s
    }
}

/// `s` without its trailing whitespace.
pub open spec fn trim_end(s: Seq<char>) -> Seq<char>
    decreases s.len(),
{
    if s.len() > 0 && is_white_space(s.last()) {
        trim_end(s.drop_last())
    } else {
        s
    }
}

/// `s` without leading and trailing whitespace, as `str::trim` gives it.
pub open spec fn trim(s: Seq<char>) -> Seq<char> {
    trim_end(trim_start(s))
}

/// A string whose characters are `chars`.
pub fn string_of(chars: &[char]) -> (s: String)
    ensures
        s@ == chars@,
{
    let mut s = String::new();
    let mut i: usize = 0;
    while i < chars.len()
        invariant
            i <= chars.len(),
            s@ == chars@.take(i as int),
        decreases chars.len() - i,
    {
        push_char(&mut s, chars[i]);
        i = i + 1;
        assert(s@ =~= chars@.take(i as int));
    }
    assert(chars@.take(chars.len() as int) =~= chars@);
    s
}

/// The characters of `chars[from..to]` without leading and trailing whitespace.
pub fn trim_range(chars: &[char], from: usize, to: usize) -> (out: Vec<char>)
    requires
        from <= to <= chars.len(),
    ensures
        out@ == trim(chars@.subrange(from as int, to as int)),
{
    let ghost whole = chars@.subrange(from as int, to as int);
    let mut i: usize = from;
    while i < to && char_is_whitespace(chars[i])
        invariant
            from <= i <= to <= chars.len(),
            whole == chars@.subrange(from as int, to as int),
            trim_start(whole) == trim_start(chars@.subrange(i as int, to as int)),
        decreases to - i,
    {
        assert(chars@.subrange(i as int, to as int).drop_first() =~= chars@.subrange(
            i + 1,
            to as int,
        ));
        i = i + 1;
    }
    assert(trim_start(whole) == chars@.subrange(i as int, to as int));
    let mut j: usize = to;
    while j > i && char_is_whitespace(chars[j - 1])
        invariant
            from <= i <= j <= to <= chars.len(),
            trim_start(whole) == chars@.subrange(i as int, to as int),
            trim(whole) == trim_end(chars@.subrange(i as int, j as int)),
        decreases j - i,
    {
        assert(chars@.subrange(i as int, j as int).drop_last() =~= chars@.subrange(
            i as int,
            j - 1,
        ));
        j = j - 1;
    }
    assert(trim(whole) == chars@.subrange(i as int, j as int));
    let mut out: Vec<char> = Vec::new();
    let mut k: usize = i;
    while k < j
        invariant
            i <= k <= j <= chars.len(),
            out@ == chars@.subrange(i as int, k as int),
        decreases j - k,
    {
        out.push(chars[k]);
        k = k + 1;
        assert(out@ =~= chars@.subrange(i as int, k as int));
    }
    out
}

/// `s` without leading and trailing whitespace.
pub fn trim_str(s: &str) -> (out: String)
    ensures
        out@ == trim(s@),
        exists|i: int, j: int|
            0 <= i <= j <= s@.len() && out@ == s@.subrange(i, j) && (forall|k: int|
                0 <= k < i ==> is_white_space(#[trigger] s@[k])) && (forall|k: int|
                j <= k < s@.len() ==> is_white_space(#[trigger] s@[k])) && (i < j ==> !is_white_space(
                s@[i],
            ) && !is_white_space(s@[j - 1])),
{
    proof {
        lemma_trim_law(s@);
    }
    let chars = chars_of(s);
    assert(chars@.subrange(0, chars.len() as int) =~= chars@);
    let t = trim_range(&chars, 0, chars.len());
    string_of(&t)
}

/// The pieces of `s` between occurrences of `sep`, empty ones included, as
/// `str::split` yields them.
pub open spec fn split(s: Seq<char>, sep: char) -> Seq<Seq<char>>
    decreases s.len(),
{
    if s.len() == 0 {
        seq![Seq::<char>::empty()]
    } else {
        let p = split(s.drop_last(), sep);
        if s.last() == sep {
            p.push(Seq::<char>::empty())
        } else {
            p.update(p.len() - 1, p.last().push(s.last()))
        }
    }
}

/// The trimmed pieces that are not empty, in order.
pub open spec fn non_blank_trimmed(pieces: Seq<Seq<char>>) -> Seq<Seq<char>>
    decreases pieces.len(),
{
    if pieces.len() == 0 {
        seq![]
    } else {
        let rest = non_blank_trimmed(pieces.drop_last());
        let t = trim(pieces.last());
        if t.len() == 0 {
            rest
        } else {
            rest.push(t)
        }
    }
}

/// The items of a comma-separated list: each piece between commas, trimmed,
/// with the blank ones left out.
pub open spec fn list_items(s: Seq<char>) -> Seq<Seq<char>> {
    non_blank_trimmed(split(s, ','))
}

/// Splitting always gives at least one piece.
pub proof fn lemma_split_nonempty(s: Seq<char>, sep: char)
    ensures
        split(s, sep).len() >= 1,
    decreases s.len(),
{
    if s.len() > 0 {
        lemma_split_nonempty(s.drop_last(), sep);
    }
}

/// The items of the comma-separated list `s`, trimmed, blank ones left out.
pub fn split_list(s: &str) -> (items: Vec<String>)
    ensures
        items@.map_values(|t: String| t@) == list_items(s@),
{
    let chars = chars_of(s);
    let ghost cs = chars@;
    let mut items: Vec<String> = Vec::new();
    // Start of the piece being read; the pieces before it are done.
    let mut start: usize = 0;
    let mut i: usize = 0;
    let ghost done: Seq<Seq<char>> = Seq::empty();
    assert(cs.take(0) =~= Seq::<char>::empty());
    assert(cs.subrange(0, 0) =~= Seq::<char>::empty());
    assert(split(cs.take(0), ',') =~= done.push(cs.subrange(0, 0)));
    while i < chars.len()
        invariant
            start <= i <= chars.len(),
            cs == chars@,
            split(cs.take(i as int), ',') == done.push(cs.subrange(start as int, i as int)),
            items@.map_values(|t: String| t@) == non_blank_trimmed(done),
        decreases chars.len() - i,
    {
        proof {
            assert(cs.take(i + 1).drop_last() =~= cs.take(i as int));
            lemma_split_nonempty(cs.take(i as int), ',');
        }
        if chars[i] == ',' {
            let t = trim_range(&chars, start, i);
            let ghost before = items@.map_values(|t: String| t@);
            if t.len() > 0 {
                items.push(string_of(&t));
                assert(items@.map_values(|t: String| t@) =~= before.push(items@.last()@));
            }
            proof {
                let piece = cs.subrange(start as int, i as int);
                assert(done.push(piece).drop_last() =~= done);
                done = done.push(piece);
                assert(cs.subrange(i + 1, i + 1) =~= Seq::<char>::empty());
                assert(split(cs.take(i + 1), ',') =~= done.push(cs.subrange(i + 1, i + 1)));
            }
            start = i + 1;
        } else {
            proof {
                assert(cs.subrange(start as int, i + 1) =~= cs.subrange(start as int, i as int).push(
                    cs[i as int],
                ));
                assert(split(cs.take(i + 1), ',') =~= done.push(cs.subrange(start as int, i + 1)));
            }
        }
        i = i + 1;
    }
    let t = trim_range(&chars, start, chars.len());
    let ghost before = items@.map_values(|t: String| t@);
    if t.len() > 0 {
        items.push(string_of(&t));
        assert(items@.map_values(|t: String| t@) =~= before.push(items@.last()@));
    }
    proof {
        let piece = cs.subrange(start as int, chars.len() as int);
        assert(cs.take(chars.len() as int) =~= cs);
        assert(done.push(piece).drop_last() =~= done);
        assert(non_blank_trimmed(done.push(piece)) == items@.map_values(|t: String| t@));
    }
    items
}

/// `items` joined with `sep` between each two.
pub open spec fn join_with(items: Seq<Seq<char>>, sep: Seq<char>) -> Seq<char>
    decreases items.len(),
{
    if items.len() == 0 {
        seq![]
    } else if items.len() == 1 {
        items[0]
    } else {
        join_with(items.drop_last(), sep) + sep + items.last()
    }
}

/// The strings of `items` joined with `sep` between each two.
pub fn join_strings(items: &[String], sep: &str) -> (out: String)
    ensures
        out@ == join_with(items@.map_values(|t: String| t@), sep@),
{
    let ghost iv = items@.map_values(|t: String| t@);
    let mut out = String::new();
    let mut i: usize = 0;
    while i < items.len()
        invariant
            i <= items.len(),
            iv == items@.map_values(|t: String| t@),
            out@ == join_with(iv.take(i as int), sep@),
        decreases items.len() - i,
    {
        proof {
            assert(iv.take(i + 1).drop_last() =~= iv.take(i as int));
        }
        if i > 0 {
            out.append(sep);
        }
        out.append(items[i].as_str());
        if i == 0 {
            assert(out@ =~= join_with(iv.take(1), sep@));
        }
        i = i + 1;
    }
    assert(iv.take(items.len() as int) =~= iv);
    out
}


/// `a` comes no later than `b` when strings are ordered character by
/// character by code point, a prefix first. Since UTF-8 keeps the order of
/// code points, this is the order of `str` and `String`, which compare bytes.
pub open spec fn lex_le(a: Seq<char>, b: Seq<char>) -> bool
    decreases a.len(),
{
    if a.len() == 0 {
        true
    } else if b.len() == 0 {
        false
    } else if a[0] != b[0] {
        (a[0] as u32) < (b[0] as u32)
    } else {
        lex_le(a.drop_first(), b.drop_first())
    }
}

/// The order `lex_le` as a relation.
pub open spec fn lex_order() -> spec_fn(Seq<char>, Seq<char>) -> bool {
    |a: Seq<char>, b: Seq<char>| lex_le(a, b)
}

proof fn lemma_char_u32_injective(x: char, y: char)
    ensures
        (x as u32) == (y as u32) ==> x == y,
{
    broadcast use vstd::utf8::char_u32_cast;
}

proof fn lemma_lex_reflexive(a: Seq<char>)
    ensures
        lex_le(a, a),
    decreases a.len(),
{
    if a.len() > 0 {
        lemma_lex_reflexive(a.drop_first());
    }
}

proof fn lemma_lex_antisymmetric(a: Seq<char>, b: Seq<char>)
    requires
        lex_le(a, b),
        lex_le(b, a),
    ensures
        a == b,
    decreases a.len(),
{
    if a.len() > 0 && b.len() > 0 {
        lemma_char_u32_injective(a[0], b[0]);
        lemma_lex_antisymmetric(a.drop_first(), b.drop_first());
        assert(a =~= seq![a[0]] + a.drop_first());
        assert(b =~= seq![b[0]] + b.drop_first());
    } else {
        assert(a =~= b);
    }
}

proof fn lemma_lex_transitive(a: Seq<char>, b: Seq<char>, c: Seq<char>)
    requires
        lex_le(a, b),
        lex_le(b, c),
    ensures
        lex_le(a, c),
    decreases a.len(),
{
    if a.len() > 0 && b.len() > 0 && c.len() > 0 {
        lemma_char_u32_injective(a[0], b[0]);
        lemma_char_u32_injective(b[0], c[0]);
        lemma_char_u32_injective(a[0], c[0]);
        if a[0] == b[0] && b[0] == c[0] {
            lemma_lex_transitive(a.drop_first(), b.drop_first(), c.drop_first());
        }
    }
}

proof fn lemma_lex_connected(a: Seq<char>, b: Seq<char>)
    ensures
        lex_le(a, b) || lex_le(b, a),
    decreases a.len(),
{
    if a.len() > 0 && b.len() > 0 {
        lemma_char_u32_injective(a[0], b[0]);
        lemma_lex_connected(a.drop_first(), b.drop_first());
    }
}

/// Strings ordered by `lex_le` are totally ordered.
pub proof fn lemma_lex_total_ordering()
    ensures
        total_ordering(lex_order()),
{
    let r = lex_order();
    assert forall|x: Seq<char>| #[trigger] r(x, x) by {
        lemma_lex_reflexive(x);
    }
    assert forall|x: Seq<char>, y: Seq<char>| #[trigger] r(x, y) && #[trigger] r(y, x) implies x
        == y by {
        lemma_lex_antisymmetric(x, y);
    }
    assert forall|x: Seq<char>, y: Seq<char>, z: Seq<char>| #[trigger]
        r(x, y) && #[trigger] r(y, z) implies r(x, z) by {
        lemma_lex_transitive(x, y, z);
    }
    assert forall|x: Seq<char>, y: Seq<char>| #[trigger] r(x, y) || #[trigger] r(y, x) by {
        lemma_lex_connected(x, y);
    }
}

/// Whether `a` comes no later than `b` in `lex_le`.
pub fn chars_le(a: &[char], b: &[char]) -> (r: bool)
    ensures
        r == lex_le(a@, b@),
{
    let mut i: usize = 0;
    assert(a@.skip(0) =~= a@);
    assert(b@.skip(0) =~= b@);
    while i < a.len() && i < b.len() && a[i] == b[i]
        invariant
            i <= a.len(),
            i <= b.len(),
            lex_le(a@, b@) == lex_le(a@.skip(i as int), b@.skip(i as int)),
        decreases a.len() - i,
    {
        assert(a@.skip(i as int).drop_first() =~= a@.skip(i + 1));
        assert(b@.skip(i as int).drop_first() =~= b@.skip(i + 1));
        i = i + 1;
    }
    if i == a.len() {
        true
    } else if i == b.len() {
        false
    } else {
        assert(a@.skip(i as int)[0] == a[i as int]);
        assert(b@.skip(i as int)[0] == b[i as int]);
        (a[i] as u32) < (b[i] as u32)
    }
}

/// The strings of `items` in ascending `lex_le` order, as `slice::sort`
/// leaves a `Vec<String>`.
pub fn sort_strings(items: Vec<String>) -> (out: Vec<String>)
    ensures
        out@.map_values(|t: String| t@) == items@.map_values(|t: String| t@).sort_by(
            lex_order(),
        ),
{
    let ghost iv = items@.map_values(|t: String| t@);
    let ghost leq = lex_order();
    proof {
        lemma_lex_total_ordering();
    }
    let mut out: Vec<String> = Vec::new();
    let mut i: usize = 0;
    assert(iv.take(0) =~= Seq::<Seq<char>>::empty());
    assert(out@.map_values(|t: String| t@) =~= Seq::<Seq<char>>::empty());
    while i < items.len()
        invariant
            i <= items.len(),
            iv == items@.map_values(|t: String| t@),
            leq == lex_order(),
            total_ordering(leq),
            sorted_by(out@.map_values(|t: String| t@), leq),
            out@.map_values(|t: String| t@).to_multiset() == iv.take(i as int).to_multiset(),
        decreases items.len() - i,
    {
        let ghost ov = out@.map_values(|t: String| t@);
        let x = chars_of(items[i].as_str());
        let mut pos: usize = 0;
        while pos < out.len() && chars_le(&chars_of(out[pos].as_str()), &x)
            invariant
                pos <= out.len(),
                ov == out@.map_values(|t: String| t@),
                x@ == iv[i as int],
                i < items.len(),
                iv == items@.map_values(|t: String| t@),
                forall|k: int| 0 <= k < pos ==> lex_le(#[trigger] ov[k], x@),
            decreases out.len() - pos,
        {
            pos = pos + 1;
        }
        proof {
            if pos < out.len() {
                lemma_lex_connected(ov[pos as int], x@);
            }
        }
        let s = items[i].clone();
        out.insert(pos, s);
        proof {
            let nv = out@.map_values(|t: String| t@);
            assert(nv =~= ov.insert(pos as int, x@));
            ov.insert_ensures(pos as int, x@);
            assert forall|a: int, b: int| 0 <= a < b < nv.len() implies #[trigger] leq(
                nv[a],
                nv[b],
            ) by {
                if b < pos {
                } else if a < pos && b == pos {
                } else {
                    // nv[b] is ov[b - 1], which comes no earlier than ov[pos].
                    if b - 1 > pos {
                        assert(leq(ov[pos as int], ov[b - 1]));
                    } else {
                        lemma_lex_reflexive(ov[pos as int]);
                    }
                    assert(lex_le(ov[pos as int], nv[b]));
                    if a < pos {
                        lemma_lex_transitive(nv[a], x@, ov[pos as int]);
                        lemma_lex_transitive(nv[a], ov[pos as int], nv[b]);
                    } else if a == pos {
                        lemma_lex_transitive(x@, ov[pos as int], nv[b]);
                    } else {
                        assert(leq(ov[a - 1], ov[b - 1]));
                    }
                }
            }
            vstd::seq_lib::to_multiset_insert(ov, pos as int, x@);
            assert(iv.take(i + 1) =~= iv.take(i as int).push(x@));
            vstd::seq_lib::to_multiset_build(iv.take(i as int), x@);
        }
        i = i + 1;
    }
    proof {
        assert(iv.take(items.len() as int) =~= iv);
        iv.lemma_sort_by_ensures(leq);
        vstd::seq_lib::lemma_sorted_unique(out@.map_values(|t: String| t@), iv.sort_by(leq), leq);
    }
    out
}


/// Whether two strings hold the same characters.
pub fn str_equal(a: &str, b: &str) -> (r: bool)
    ensures
        r == (a@ == b@),
{
    let x = chars_of(a);
    let y = chars_of(b);
    if x.len() != y.len() {
        return false;
    }
    let mut i: usize = 0;
    while i < x.len()
        invariant
            i <= x.len(),
            x.len() == y.len(),
            x@ == a@,
            y@ == b@,
            x@.take(i as int) == y@.take(i as int),
        decreases x.len() - i,
    {
        if x[i] != y[i] {
            assert(x@[i as int] != y@[i as int]);
            return false;
        }
        assert(x@.take(i + 1) =~= x@.take(i as int).push(x[i as int]));
        assert(y@.take(i + 1) =~= y@.take(i as int).push(y[i as int]));
        i = i + 1;
    }
    assert(x@.take(x.len() as int) =~= x@);
    assert(y@.take(y.len() as int) =~= y@);
    true
}


/// Calls `String::from_utf8`, which std documents to succeed exactly when the
/// bytes are valid UTF-8, with the string they encode.
#[verifier::external_body]
fn string_from_utf8(bytes: Vec<u8>) -> (r: Option<String>)
    ensures
        r is Some <==> vstd::utf8::valid_utf8(bytes@),
        r matches Some(s) ==> s@ == vstd::utf8::decode_utf8(bytes@),
{
    String::from_utf8(bytes).ok()
}

/// The text that the bytes `b` encode in UTF-8, as `OsStr::to_str` gives it on
/// Unix; `None` when they are not valid UTF-8.
pub fn utf8_text(b: Vec<u8>) -> (r: Option<String>)
    ensures
        r is Some <==> vstd::utf8::valid_utf8(b@),
        r matches Some(s) ==> s@ == vstd::utf8::decode_utf8(b@),
{
    string_from_utf8(b)
}


proof fn lemma_trim_start_trimmed(s: Seq<char>)
    ensures
        trim_start(s).len() == 0 || !is_white_space(trim_start(s)[0]),
        trim_start(s) == s.skip(s.len() - trim_start(s).len()),
        trim_start(s).len() <= s.len(),
        forall|k: int| 0 <= k < s.len() - trim_start(s).len() ==> is_white_space(#[trigger] s[k]),
    decreases s.len(),
{
    if s.len() > 0 && is_white_space(s[0]) {
        lemma_trim_start_trimmed(s.drop_first());
        assert forall|k: int| 0 <= k < s.len() - trim_start(s).len() implies is_white_space(
            #[trigger] s[k],
        ) by {
            if k > 0 {
                assert(s[k] == s.drop_first()[k - 1]);
            }
        }
        assert(s.drop_first().skip(s.drop_first().len() - trim_start(s).len()) =~= s.skip(
            s.len() - trim_start(s).len(),
        ));
    } else {
        assert(s.skip(0) =~= s);
    }
}

proof fn lemma_trim_end_shape(s: Seq<char>)
    ensures
        trim_end(s).len() == 0 || !is_white_space(trim_end(s).last()),
        trim_end(s) == s.take(trim_end(s).len() as int),
        trim_end(s).len() <= s.len(),
        forall|k: int| trim_end(s).len() <= k < s.len() ==> is_white_space(#[trigger] s[k]),
    decreases s.len(),
{
    if s.len() > 0 && is_white_space(s.last()) {
        lemma_trim_end_shape(s.drop_last());
        assert forall|k: int| trim_end(s).len() <= k < s.len() implies is_white_space(
            #[trigger] s[k],
        ) by {
            if k < s.len() - 1 {
                assert(s[k] == s.drop_last()[k]);
            }
        }
        assert(s.drop_last().take(trim_end(s).len() as int) =~= s.take(trim_end(s).len() as int));
    } else {
        assert(s.take(s.len() as int) =~= s);
    }
}

proof fn lemma_trim_end_keeps_start(s: Seq<char>)
    requires
        s.len() == 0 || !is_white_space(s[0]),
    ensures
        trim_end(s).len() == 0 || !is_white_space(trim_end(s)[0]),
    decreases s.len(),
{
    if s.len() > 0 && is_white_space(s.last()) {
        lemma_trim_end_keeps_start(s.drop_last());
        if s.len() > 1 {
            assert(s.drop_last()[0] == s[0]);
        }
    }
}

proof fn lemma_trim_end_no_trailing(s: Seq<char>)
    requires
        s.len() == 0 || !is_white_space(s.last()),
    ensures
        trim_end(s) == s,
{
}

proof fn lemma_trim_start_no_leading(s: Seq<char>)
    requires
        s.len() == 0 || !is_white_space(s[0]),
    ensures
        trim_start(s) == s,
{
}

/// Trimming a trimmed string changes nothing.
pub proof fn lemma_trim_idempotent(s: Seq<char>)
    ensures
        trim(trim(s)) == trim(s),
{
    let t = trim(s);
    lemma_trim_start_trimmed(s);
    lemma_trim_end_shape(trim_start(s));
    lemma_trim_end_keeps_start(trim_start(s));
    lemma_trim_start_no_leading(t);
    lemma_trim_end_no_trailing(t);
}

/// Every item of a comma-separated list is non-empty and already trimmed.
pub proof fn lemma_list_items_trimmed(s: Seq<char>)
    ensures
        forall|i: int|
            0 <= i < list_items(s).len() ==> #[trigger] list_items(s)[i].len() > 0 && trim(
                list_items(s)[i],
            ) == list_items(s)[i],
{
    lemma_non_blank_trimmed_items(split(s, ','));
}

proof fn lemma_non_blank_trimmed_items(pieces: Seq<Seq<char>>)
    ensures
        forall|i: int|
            0 <= i < non_blank_trimmed(pieces).len() ==> #[trigger] non_blank_trimmed(pieces)[i].len()
                > 0 && trim(non_blank_trimmed(pieces)[i]) == non_blank_trimmed(pieces)[i],
    decreases pieces.len(),
{
    if pieces.len() > 0 {
        let rest = non_blank_trimmed(pieces.drop_last());
        lemma_non_blank_trimmed_items(pieces.drop_last());
        lemma_trim_idempotent(pieces.last());
        let all = non_blank_trimmed(pieces);
        assert forall|i: int| 0 <= i < all.len() implies #[trigger] all[i].len() > 0 && trim(all[i])
            == all[i] by {
            if i < rest.len() {
                assert(all[i] == rest[i]);
            }
        }
    }
}


/// Splitting text made of two parts joined by the separator gives the pieces
/// of each part, in turn.
pub proof fn lemma_split_concat(a: Seq<char>, b: Seq<char>, sep: char)
    ensures
        split(a + seq![sep] + b, sep) == split(a, sep) + split(b, sep),
    decreases b.len(),
{
    let x = a + seq![sep] + b;
    if b.len() == 0 {
        assert(x.drop_last() =~= a);
        assert(split(x, sep) =~= split(a, sep) + split(b, sep));
    } else {
        let b0 = b.drop_last();
        assert(x.drop_last() =~= a + seq![sep] + b0);
        lemma_split_concat(a, b0, sep);
        lemma_split_nonempty(b0, sep);
        lemma_split_nonempty(a, sep);
        assert(x.last() == b.last());
        assert(split(x, sep) =~= split(a, sep) + split(b, sep));
    }
}

/// Text without the separator is one piece.
pub proof fn lemma_split_without_separator(s: Seq<char>, sep: char)
    requires
        !s.contains(sep),
    ensures
        split(s, sep) == seq![s],
    decreases s.len(),
{
    if s.len() > 0 {
        assert(!s.drop_last().contains(sep)) by {
            if s.drop_last().contains(sep) {
                let i = choose|i: int| 0 <= i < s.drop_last().len() && s.drop_last()[i] == sep;
                assert(s[i] == sep);
            }
        }
        lemma_split_without_separator(s.drop_last(), sep);
        assert(s[s.len() - 1] == s.last());
        assert(s.drop_last().push(s.last()) =~= s);
        assert(split(s, sep) =~= seq![s]);
    } else {
        assert(s =~= Seq::<char>::empty());
    }
}

/// Joining at least one item with a separator that none of them holds, then
/// splitting at it, gives the items back.
pub proof fn lemma_split_join(items: Seq<Seq<char>>, sep: char)
    requires
        items.len() > 0,
        forall|i: int| 0 <= i < items.len() ==> !(#[trigger] items[i]).contains(sep),
    ensures
        split(join_with(items, seq![sep]), sep) == items,
    decreases items.len(),
{
    if items.len() == 1 {
        lemma_split_without_separator(items[0], sep);
        assert(seq![items[0]] =~= items);
    } else {
        let init = items.drop_last();
        assert forall|i: int| 0 <= i < init.len() implies !(#[trigger] init[i]).contains(sep) by {
            assert(init[i] == items[i]);
        }
        lemma_split_join(init, sep);
        assert(items[items.len() - 1] == items.last());
        lemma_split_without_separator(items.last(), sep);
        lemma_split_concat(join_with(init, seq![sep]), items.last(), sep);
        assert(join_with(items, seq![sep]) == join_with(init, seq![sep]) + seq![sep] + items.last());
        assert(init + seq![items.last()] =~= items);
    }
}


/// Trimming removes whitespace from both ends and nothing else: the result
/// is the part of `s` from its first to its last character that is not
/// whitespace, or empty when there is none.
pub proof fn lemma_trim_law(s: Seq<char>)
    ensures
        exists|i: int, j: int|
            0 <= i <= j <= s.len() && trim(s) == s.subrange(i, j) && (forall|k: int|
                0 <= k < i ==> is_white_space(#[trigger] s[k])) && (forall|k: int|
                j <= k < s.len() ==> is_white_space(#[trigger] s[k])) && (i < j ==> !is_white_space(
                s[i],
            ) && !is_white_space(s[j - 1])),
{
    let t = trim_start(s);
    let i = s.len() - t.len();
    lemma_trim_start_trimmed(s);
    lemma_trim_end_shape(t);
    lemma_trim_end_keeps_start(t);
    let u = trim_end(t);
    let j = i + u.len();
    assert(u =~= s.subrange(i, j));
    assert forall|k: int| j <= k < s.len() implies is_white_space(#[trigger] s[k]) by {
        assert(s[k] == t[k - i]);
    }
    if i < j {
        assert(s[i] == u[0]);
        assert(s[j - 1] == u.last());
    }
    assert(trim(s) == s.subrange(i, j));
}


/// No piece of a split holds the separator.
pub proof fn lemma_split_pieces_lack_separator(s: Seq<char>, sep: char)
    ensures
        forall|i: int| 0 <= i < split(s, sep).len() ==> !(#[trigger] split(s, sep)[i]).contains(sep),
    decreases s.len(),
{
    if s.len() > 0 {
        let init = s.drop_last();
        lemma_split_pieces_lack_separator(init, sep);
        lemma_split_nonempty(init, sep);
        let p = split(init, sep);
        let all = split(s, sep);
        assert forall|i: int| 0 <= i < all.len() implies !(#[trigger] all[i]).contains(sep) by {
            if s.last() == sep {
                if i < p.len() {
                    assert(all[i] == p[i]);
                } else {
                    assert(all[i] =~= Seq::<char>::empty());
                }
            } else if i < p.len() - 1 {
                assert(all[i] == p[i]);
            } else {
                assert(all[i] == p.last().push(s.last()));
                assert(!p[p.len() - 1].contains(sep));
                if all[i].contains(sep) {
                    let k = choose|k: int| 0 <= k < all[i].len() && all[i][k] == sep;
                    if k < p.last().len() {
                        assert(p.last()[k] == sep);
                    }
                }
            }
        }
    } else {
        assert forall|i: int| 0 <= i < split(s, sep).len() implies !(#[trigger] split(s, sep)[i]).contains(sep) by {
            assert(split(s, sep)[i] =~= Seq::<char>::empty());
        }
    }
}

proof fn lemma_non_blank_trimmed_lack(pieces: Seq<Seq<char>>, c: char)
    requires
        forall|i: int| 0 <= i < pieces.len() ==> !(#[trigger] pieces[i]).contains(c),
    ensures
        forall|i: int|
            0 <= i < non_blank_trimmed(pieces).len() ==> !(#[trigger] non_blank_trimmed(pieces)[i]).contains(c),
    decreases pieces.len(),
{
    if pieces.len() > 0 {
        let init = pieces.drop_last();
        assert forall|i: int| 0 <= i < init.len() implies !(#[trigger] init[i]).contains(c) by {
            assert(init[i] == pieces[i]);
        }
        lemma_non_blank_trimmed_lack(init, c);
        let last = pieces.last();
        assert(!pieces[pieces.len() - 1].contains(c));
        lemma_trim_law(last);
        let rest = non_blank_trimmed(init);
        let all = non_blank_trimmed(pieces);
        assert forall|i: int| 0 <= i < all.len() implies !(#[trigger] all[i]).contains(c) by {
            if i < rest.len() {
                assert(all[i] == rest[i]);
            } else {
                let t = trim(last);
                assert(all[i] == t);
                if t.contains(c) {
                    let (a, b) = choose|a: int, b: int|
                        0 <= a <= b <= last.len() && trim(last) == last.subrange(a, b) && (forall|k: int|
                            0 <= k < a ==> is_white_space(#[trigger] last[k])) && (forall|k: int|
                            b <= k < last.len() ==> is_white_space(#[trigger] last[k])) && (a < b
                            ==> !is_white_space(last[a]) && !is_white_space(last[b - 1]));
                    let k = choose|k: int| 0 <= k < t.len() && t[k] == c;
                    assert(last[a + k] == c);
                }
            }
        }
    }
}

/// Every item of a comma-separated list is non-empty, has no whitespace at
/// either end, and holds no comma.
pub proof fn lemma_list_items_law(s: Seq<char>)
    ensures
        forall|i: int|
            0 <= i < list_items(s).len() ==> {
                let item = #[trigger] list_items(s)[i];
                &&& item.len() > 0
                &&& !is_white_space(item[0])
                &&& !is_white_space(item.last())
                &&& !item.contains(',')
            },
{
    lemma_list_items_trimmed(s);
    lemma_split_pieces_lack_separator(s, ',');
    lemma_non_blank_trimmed_lack(split(s, ','), ',');
    assert forall|i: int| 0 <= i < list_items(s).len() implies {
        let item = #[trigger] list_items(s)[i];
        &&& item.len() > 0
        &&& !is_white_space(item[0])
        &&& !is_white_space(item.last())
        &&& !item.contains(',')
    } by {
        let item = list_items(s)[i];
        lemma_trim_ends(item);
    }
}

/// A trimmed string that is not empty starts and ends with a character that
/// is not whitespace.
pub proof fn lemma_trim_ends(s: Seq<char>)
    ensures
        trim(s).len() > 0 ==> !is_white_space(trim(s)[0]) && !is_white_space(trim(s).last()),
{
    lemma_trim_start_trimmed(s);
    lemma_trim_end_shape(trim_start(s));
    lemma_trim_end_keeps_start(trim_start(s));
}

} // verus!
