//! A model of how a Unix path splits into components, with executable
//! functions proved against it.
use vstd::prelude::*;
use vstd::string::StringSliceAdditionalSpecFns;

verus! {

/// The byte that separates path segments.
pub const SEPARATOR: u8 = 47;

/// The byte `.`.
pub const DOT: u8 = 46;

/// One component of a path, as a mathematical value.
pub enum ComponentView {
    RootDir,
    CurDir,
    ParentDir,
    Normal(Seq<u8>),
}

/// One component of a path.
pub enum PathComponent {
    RootDir,
    CurDir,
    ParentDir,
    Normal(Vec<u8>),
}

impl View for PathComponent {
    type V = ComponentView;

    open spec fn view(&self) -> ComponentView {
        match self {
            PathComponent::RootDir => ComponentView::RootDir,
            PathComponent::CurDir => ComponentView::CurDir,
            PathComponent::ParentDir => ComponentView::ParentDir,
            PathComponent::Normal(name) => ComponentView::Normal(name@),
        }
    }
}

/// The segments of `p` between separators, empty ones included.
pub open spec fn segments(p: Seq<u8>) -> Seq<Seq<u8>>
    decreases p.len(),
{
    if p.len() == 0 {
        seq![Seq::<u8>::empty()]
    } else {
        let s = segments(p.drop_last());
        if p.last() == SEPARATOR {
            s.push(Seq::<u8>::empty())
        } else {
            s.update(s.len() - 1, s.last().push(p.last()))
        }
    }
}

/// The segment is `.`.
pub open spec fn is_dot(seg: Seq<u8>) -> bool {
    seg.len() == 1 && seg[0] == DOT
}

/// The segment is `..`.
pub open spec fn is_dot_dot(seg: Seq<u8>) -> bool {
    seg.len() == 2 && seg[0] == DOT && seg[1] == DOT
}

/// What one segment in the body of a path contributes: nothing for an empty
/// segment or `.`, `..` as a parent component, anything else as a name.
pub open spec fn segment_components(seg: Seq<u8>) -> Seq<ComponentView> {
    if seg.len() == 0 || is_dot(seg) {
        seq![]
    } else if is_dot_dot(seg) {
        seq![ComponentView::ParentDir]
    } else {
        seq![ComponentView::Normal(seg)]
    }
}

/// The components contributed by a sequence of body segments.
pub open spec fn body_components(segs: Seq<Seq<u8>>) -> Seq<ComponentView>
    decreases segs.len(),
{
    if segs.len() == 0 {
        seq![]
    } else {
        body_components(segs.drop_last()) + segment_components(segs.last())
    }
}

/// The path starts with a separator.
pub open spec fn has_root(p: Seq<u8>) -> bool {
    p.len() > 0 && p[0] == SEPARATOR
}

/// The components of `p`: a root for a leading separator, a current-directory
/// component for a leading `.` segment, then one component per segment that is
/// neither empty nor `.`.
pub open spec fn components(p: Seq<u8>) -> Seq<ComponentView> {
    let segs = segments(p);
    if has_root(p) {
        seq![ComponentView::RootDir] + body_components(segs.drop_first())
    } else if is_dot(segs[0]) {
        seq![ComponentView::CurDir] + body_components(segs.drop_first())
    } else {
        body_components(segs)
    }
}

/// Every path has at least one segment.
pub proof fn lemma_segments_nonempty(p: Seq<u8>)
    ensures
        segments(p).len() >= 1,
    decreases p.len(),
{
    if p.len() > 0 {
        lemma_segments_nonempty(p.drop_last());
    }
}

/// Splits `p` at each separator.
pub fn split_segments(p: &[u8]) -> (segs: Vec<Vec<u8>>)
    ensures
        segs@.map_values(|s: Vec<u8>| s@) == segments(p@),
{
    let mut segs: Vec<Vec<u8>> = Vec::new();
    let mut cur: Vec<u8> = Vec::new();
    let mut i: usize = 0;
    while i < p.len()
        invariant
            i <= p.len(),
            segs@.map_values(|s: Vec<u8>| s@).push(cur@) == segments(p@.take(i as int)),
        decreases p.len() - i,
    {
        let ghost before = segs@.map_values(|s: Vec<u8>| s@);
        proof {
            assert(p@.take(i + 1).drop_last() == p@.take(i as int));
        }
        let b = p[i];
        if b == SEPARATOR {
            segs.push(cur);
            cur = Vec::new();
            assert(segs@.map_values(|s: Vec<u8>| s@) =~= before.push(segs@.last()@));
        } else {
            cur.push(b);
        }
        i = i + 1;
    }
    assert(p@.take(p.len() as int) == p@);
    let ghost before = segs@.map_values(|s: Vec<u8>| s@);
    segs.push(cur);
    assert(segs@.map_values(|s: Vec<u8>| s@) =~= before.push(segs@.last()@));
    segs
}

/// A fresh copy of `bytes`.
pub fn copy_bytes(bytes: &[u8]) -> (out: Vec<u8>)
    ensures
        out@ == bytes@,
{
    let mut out: Vec<u8> = Vec::new();
    let mut i: usize = 0;
    while i < bytes.len()
        invariant
            i <= bytes.len(),
            out@ == bytes@.take(i as int),
        decreases bytes.len() - i,
    {
        out.push(bytes[i]);
        i = i + 1;
        assert(out@ =~= bytes@.take(i as int));
    }
    assert(bytes@.take(bytes.len() as int) =~= bytes@);
    out
}

fn is_dot_segment(seg: &[u8]) -> (r: bool)
    ensures
        r == is_dot(seg@),
{
    seg.len() == 1 && seg[0] == DOT
}

fn segment_component(seg: &[u8]) -> (c: Option<PathComponent>)
    ensures
        segment_components(seg@) == (match c {
            Some(c) => seq![c@],
            None => Seq::<ComponentView>::empty(),
        }),
{
    if seg.len() == 0 || is_dot_segment(seg) {
        None
    } else if seg.len() == 2 && seg[0] == DOT && seg[1] == DOT {
        Some(PathComponent::ParentDir)
    } else {
        Some(PathComponent::Normal(copy_bytes(seg)))
    }
}

/// The components of the path `p`.
pub fn path_components(p: &[u8]) -> (comps: Vec<PathComponent>)
    ensures
        comps@.map_values(|c: PathComponent| c@) == components(p@),
{
    let segs = split_segments(p);
    let ghost sv = segs@.map_values(|s: Vec<u8>| s@);
    proof {
        lemma_segments_nonempty(p@);
    }
    let mut comps: Vec<PathComponent> = Vec::new();
    let mut start: usize = 0;
    if p.len() > 0 && p[0] == SEPARATOR {
        comps.push(PathComponent::RootDir);
        start = 1;
    } else if is_dot_segment(&segs[0]) {
        comps.push(PathComponent::CurDir);
        start = 1;
    }
    let ghost lead = comps@.map_values(|c: PathComponent| c@);
    assert(sv.subrange(start as int, start as int) =~= Seq::<Seq<u8>>::empty());
    let mut k: usize = start;
    while k < segs.len()
        invariant
            start <= k <= segs.len(),
            sv == segs@.map_values(|s: Vec<u8>| s@),
            comps@.map_values(|c: PathComponent| c@) == lead + body_components(
                sv.subrange(start as int, k as int),
            ),
        decreases segs.len() - k,
    {
        let ghost before = comps@.map_values(|c: PathComponent| c@);
        let c = segment_component(&segs[k]);
        proof {
            assert(sv.subrange(start as int, k + 1).drop_last() =~= sv.subrange(
                start as int,
                k as int,
            ));
        }
        match c {
            Some(c) => {
                comps.push(c);
                assert(comps@.map_values(|c: PathComponent| c@) =~= before.push(comps@.last()@));
            },
            None => {},
        }
        k = k + 1;
        assert(comps@.map_values(|c: PathComponent| c@) =~= lead + body_components(
            sv.subrange(start as int, k as int),
        ));
    }
    if start == 1 {
        assert(sv.subrange(1, sv.len() as int) =~= sv.drop_first());
    } else {
        assert(sv.subrange(0, sv.len() as int) =~= sv);
    }
    comps
}

/// `p` is exactly one name: not empty, not `.` or `..`, without a root, and
/// with nothing but separators and `.` segments after the name.
pub open spec fn is_normal_segment(p: Seq<u8>) -> bool {
    components(p).len() == 1 && components(p)[0] is Normal
}

/// The path that `PathBuf::push` makes of `base` and `rel`: `rel` itself when it
/// has a root, else `rel` appended to `base` with one separator between them
/// when `base` is non-empty and does not already end in one.
pub open spec fn join(base: Seq<u8>, rel: Seq<u8>) -> Seq<u8> {
    if has_root(rel) {
        rel
    } else if base.len() > 0 && base.last() != SEPARATOR {
        base + seq![SEPARATOR] + rel
    } else {
        base + rel
    }
}

/// The last component of `p`, when it is a name.
pub open spec fn file_name(p: Seq<u8>) -> Option<Seq<u8>> {
    let c = components(p);
    if c.len() > 0 && c.last() is Normal {
        Some(c.last()->Normal_0)
    } else {
        None
    }
}

/// The components of the parent of `p`: all but the last, when the last one
/// exists and is not the root.
pub open spec fn parent_components(p: Seq<u8>) -> Option<Seq<ComponentView>> {
    let c = components(p);
    if c.len() > 0 && !(c.last() is RootDir) {
        Some(c.drop_last())
    } else {
        None
    }
}

/// The segments of two paths joined by a separator are those of each, in turn.
pub proof fn lemma_segments_concat(a: Seq<u8>, b: Seq<u8>)
    ensures
        segments(a + seq![SEPARATOR] + b) == segments(a) + segments(b),
    decreases b.len(),
{
    let x = a + seq![SEPARATOR] + b;
    if b.len() == 0 {
        assert(x.drop_last() =~= a);
        assert(segments(x) =~= segments(a) + segments(b));
    } else {
        let b0 = b.drop_last();
        assert(x.drop_last() =~= a + seq![SEPARATOR] + b0);
        lemma_segments_concat(a, b0);
        lemma_segments_nonempty(b0);
        lemma_segments_nonempty(a);
        assert(x.last() == b.last());
        assert(segments(x) =~= segments(a) + segments(b));
    }
}

/// One segment contributes its own components.
pub proof fn lemma_body_single(seg: Seq<u8>)
    ensures
        body_components(seq![seg]) == segment_components(seg),
{
    assert(seq![seg].drop_last() =~= Seq::<Seq<u8>>::empty());
    assert(body_components(Seq::<Seq<u8>>::empty()) == Seq::<ComponentView>::empty());
    assert(body_components(seq![seg]) =~= segment_components(seg));
}

/// The components of segments in turn are the components of each part, in turn.
pub proof fn lemma_body_concat(x: Seq<Seq<u8>>, y: Seq<Seq<u8>>)
    ensures
        body_components(x + y) == body_components(x) + body_components(y),
    decreases y.len(),
{
    if y.len() == 0 {
        assert(x + y =~= x);
        assert(body_components(x) + body_components(y) =~= body_components(x));
    } else {
        assert((x + y).drop_last() =~= x + y.drop_last());
        lemma_body_concat(x, y.drop_last());
        assert(body_components(x + y) =~= body_components(x) + body_components(y));
    }
}

/// Components of `base`, then those of the body segments of `rel`, form the
/// components of `base` extended by a separator and `rel`.
proof fn lemma_components_sep_concat(base: Seq<u8>, rel: Seq<u8>)
    requires
        base.len() > 0,
    ensures
        components(base + seq![SEPARATOR] + rel) == components(base) + body_components(
            segments(rel),
        ),
{
    let x = base + seq![SEPARATOR] + rel;
    lemma_segments_concat(base, rel);
    lemma_segments_nonempty(base);
    let sb = segments(base);
    let sr = segments(rel);
    assert(segments(x)[0] == sb[0]);
    assert(has_root(x) == has_root(base));
    if has_root(base) || is_dot(sb[0]) {
        assert(segments(x).drop_first() =~= sb.drop_first() + sr);
        lemma_body_concat(sb.drop_first(), sr);
        assert(components(x) =~= components(base) + body_components(sr));
    } else {
        lemma_body_concat(sb, sr);
    }
}

/// Joining a single name onto a path adds exactly that name as a component.
pub proof fn lemma_join_normal_segment(base: Seq<u8>, rel: Seq<u8>)
    requires
        is_normal_segment(rel),
    ensures
        components(join(base, rel)) == components(base).push(components(rel)[0]),
{
    lemma_segments_nonempty(rel);
    let sr = segments(rel);
    if has_root(rel) {
        assert(components(rel)[0] == ComponentView::RootDir);
    }
    if is_dot(sr[0]) {
        assert(components(rel)[0] == ComponentView::CurDir);
    }
    assert(!has_root(rel) && !is_dot(sr[0]));
    assert(components(rel) == body_components(sr));
    if base.len() == 0 {
        assert(base + rel =~= rel);
        assert(segments(base) =~= seq![Seq::<u8>::empty()]);
        lemma_body_single(Seq::<u8>::empty());
        assert(components(base) =~= Seq::<ComponentView>::empty());
        assert(components(join(base, rel)) =~= components(base).push(components(rel)[0]));
    } else if base.last() != SEPARATOR {
        lemma_components_sep_concat(base, rel);
        assert(components(join(base, rel)) =~= components(base).push(components(rel)[0]));
    } else {
        let b0 = base.drop_last();
        assert(base =~= b0 + seq![SEPARATOR]);
        assert(base + rel =~= b0 + seq![SEPARATOR] + rel);
        lemma_segments_concat(b0, Seq::<u8>::empty());
        assert(b0 + seq![SEPARATOR] + Seq::<u8>::empty() =~= base);
        lemma_segments_concat(b0, rel);
        lemma_segments_nonempty(b0);
        let s0 = segments(b0);
        let empty_tail = seq![Seq::<u8>::empty()];
        assert(segments(Seq::<u8>::empty()) =~= empty_tail);
        assert(segments(base) == s0 + empty_tail);
        lemma_body_single(Seq::<u8>::empty());
        let x = base + rel;
        assert(segments(x) == s0 + sr);
        assert(segments(x)[0] == s0[0]);
        assert(segments(base)[0] == s0[0]);
        assert(x[0] == base[0]);
        if has_root(base) || is_dot(s0[0]) {
            if b0.len() == 0 {
                assert(s0 =~= empty_tail);
            }
            assert(segments(x).drop_first() =~= s0.drop_first() + sr);
            assert(segments(base).drop_first() =~= s0.drop_first() + empty_tail);
            lemma_body_concat(s0.drop_first(), sr);
            lemma_body_concat(s0.drop_first(), empty_tail);
            assert(components(base) =~= components(base).take(1) + body_components(
                s0.drop_first(),
            ));
            assert(components(x) =~= components(base).push(components(rel)[0]));
        } else {
            lemma_body_concat(s0, sr);
            lemma_body_concat(s0, empty_tail);
            assert(components(x) =~= components(base).push(components(rel)[0]));
        }
    }
}

/// Whether `value` is exactly one path name, as `Path::components` splits it.
pub fn is_normal_path_segment(value: &str) -> (r: bool)
    ensures
        r == is_normal_segment(value.spec_bytes()),
{
    let comps = path_components(value.as_bytes());
    if comps.len() == 1 {
        match &comps[0] {
            PathComponent::Normal(_) => true,
            _ => false,
        }
    } else {
        false
    }
}

/// The path `base` joined with `rel`, as `PathBuf::push` forms it.
pub fn join_path(base: &[u8], rel: &[u8]) -> (out: Vec<u8>)
    ensures
        out@ == join(base@, rel@),
{
    if rel.len() > 0 && rel[0] == SEPARATOR {
        return copy_bytes(rel);
    }
    let mut out = copy_bytes(base);
    if base.len() > 0 && base[base.len() - 1] != SEPARATOR {
        out.push(SEPARATOR);
    }
    let mut i: usize = 0;
    let ghost head = out@;
    while i < rel.len()
        invariant
            i <= rel.len(),
            out@ == head + rel@.take(i as int),
        decreases rel.len() - i,
    {
        out.push(rel[i]);
        i = i + 1;
        assert(out@ =~= head + rel@.take(i as int));
    }
    assert(rel@.take(rel.len() as int) =~= rel@);
    assert(out@ =~= join(base@, rel@));
    out
}

/// Whether two byte strings are equal.
pub fn bytes_equal(a: &[u8], b: &[u8]) -> (r: bool)
    ensures
        r == (a@ == b@),
{
    if a.len() != b.len() {
        return false;
    }
    let mut i: usize = 0;
    while i < a.len()
        invariant
            i <= a.len(),
            a.len() == b.len(),
            a@.take(i as int) == b@.take(i as int),
        decreases a.len() - i,
    {
        if a[i] != b[i] {
            return false;
        }
        assert(a@.take(i + 1) =~= a@.take(i as int).push(a[i as int]));
        assert(b@.take(i + 1) =~= b@.take(i as int).push(b[i as int]));
        i = i + 1;
    }
    assert(a@.take(a.len() as int) =~= a@);
    assert(b@.take(b.len() as int) =~= b@);
    true
}

fn component_equal(a: &PathComponent, b: &PathComponent) -> (r: bool)
    ensures
        r == (a@ == b@),
{
    match (a, b) {
        (PathComponent::RootDir, PathComponent::RootDir) => true,
        (PathComponent::CurDir, PathComponent::CurDir) => true,
        (PathComponent::ParentDir, PathComponent::ParentDir) => true,
        (PathComponent::Normal(x), PathComponent::Normal(y)) => bytes_equal(x, y),
        _ => false,
    }
}

/// Whether two component lists are equal, taking the first `n` of `a`.
fn components_prefix_equal(a: &Vec<PathComponent>, n: usize, b: &Vec<PathComponent>) -> (r: bool)
    requires
        n <= a.len(),
    ensures
        r == (a@.take(n as int).map_values(|c: PathComponent| c@) == b@.map_values(
            |c: PathComponent| c@,
        )),
{
    let ghost av = a@.take(n as int).map_values(|c: PathComponent| c@);
    let ghost bv = b@.map_values(|c: PathComponent| c@);
    if n != b.len() {
        assert(av.len() != bv.len());
        return false;
    }
    let mut i: usize = 0;
    while i < n
        invariant
            i <= n <= a.len(),
            n == b.len(),
            av == a@.take(n as int).map_values(|c: PathComponent| c@),
            bv == b@.map_values(|c: PathComponent| c@),
            forall|j: int| 0 <= j < i ==> av[j] == bv[j],
        decreases n - i,
    {
        if !component_equal(&a[i], &b[i]) {
            assert(av[i as int] != bv[i as int]);
            return false;
        }
        i = i + 1;
    }
    assert(av =~= bv);
    true
}

/// Whether the paths `a` and `b` have the same components, which is how
/// `Path` compares for equality.
pub fn same_components(a: &[u8], b: &[u8]) -> (r: bool)
    ensures
        r == (components(a@) == components(b@)),
{
    let ca = path_components(a);
    let cb = path_components(b);
    assert(ca@.take(ca.len() as int) =~= ca@);
    components_prefix_equal(&ca, ca.len(), &cb)
}


/// A byte string without separators has itself as its one segment.
pub proof fn lemma_segments_no_separator(p: Seq<u8>)
    requires
        forall|i: int| 0 <= i < p.len() ==> p[i] != SEPARATOR,
    ensures
        segments(p) == seq![p],
    decreases p.len(),
{
    if p.len() > 0 {
        lemma_segments_no_separator(p.drop_last());
        assert(p.drop_last().push(p.last()) =~= p);
        assert(segments(p) =~= seq![p]);
    } else {
        assert(p =~= Seq::<u8>::empty());
    }
}

/// A non-empty name without separators that is neither `.` nor `..` is a
/// single normal component.
pub proof fn lemma_plain_name_is_normal(p: Seq<u8>)
    requires
        p.len() > 0,
        !is_dot(p),
        !is_dot_dot(p),
        forall|i: int| 0 <= i < p.len() ==> p[i] != SEPARATOR,
    ensures
        is_normal_segment(p),
        components(p) == seq![ComponentView::Normal(p)],
{
    lemma_segments_no_separator(p);
    lemma_body_single(p);
    assert(components(p) =~= seq![ComponentView::Normal(p)]);
}


/// The last component of `p` when it is a name, as `Path::file_name` gives it.
pub fn file_name_of(p: &[u8]) -> (r: Option<Vec<u8>>)
    ensures
        match r {
            Some(n) => file_name(p@) == Some(n@),
            None => file_name(p@) is None,
        },
{
    let comps = path_components(p);
    let ghost cv = comps@.map_values(|c: PathComponent| c@);
    if comps.len() == 0 {
        return None;
    }
    match &comps[comps.len() - 1] {
        PathComponent::Normal(name) => {
            assert(cv.last() == comps@.last()@);
            Some(copy_bytes(name))
        },
        _ => {
            assert(cv.last() == comps@.last()@);
            None
        },
    }
}

/// Whether the parent of `target` has the same components as `dir`, as
/// `target.parent() == Some(dir)` tests for `Path`s.
pub fn parent_is(target: &[u8], dir: &[u8]) -> (r: bool)
    ensures
        r == (parent_components(target@) == Some(components(dir@))),
{
    let comps = path_components(target);
    let ghost cv = comps@.map_values(|c: PathComponent| c@);
    if comps.len() == 0 {
        return false;
    }
    let last_is_root = match &comps[comps.len() - 1] {
        PathComponent::RootDir => true,
        _ => false,
    };
    assert(cv.last() == comps@.last()@);
    if last_is_root {
        return false;
    }
    let dir_comps = path_components(dir);
    let n = comps.len() - 1;
    assert(comps@.take(n as int).map_values(|c: PathComponent| c@) =~= cv.drop_last());
    components_prefix_equal(&comps, n, &dir_comps)
}

} // verus!
