use vstd::prelude::*;
use vstd::string::StrSliceExecFns;
use vstd::string::StringExecFns;

use crate::text::owned_text;

verus! {

/// A path segment in the mathematical model.
pub enum Seg {
    Root,
    Cur,
    Parent,
    Name(Seq<char>),
}

/// A path segment: the root marker, `.`, `..`, or a plain name.
#[derive(Debug, Clone, PartialEq, Eq)]
pub enum Component {
    RootDir,
    CurDir,
    ParentDir,
    Normal(String),
}

impl View for Component {
    type V = Seg;

    open spec fn view(&self) -> Seg {
        match self {
            Component::RootDir => Seg::Root,
            Component::CurDir => Seg::Cur,
            Component::ParentDir => Seg::Parent,
            Component::Normal(s) => Seg::Name(s@),
        }
    }
}

/// The model of a sequence of components.
pub open spec fn segs_of(v: Seq<Component>) -> Seq<Seg> {
    v.map_values(|c: Component| c@)
}

/// A path text starts at the root when its first character is the separator. The
/// segment grammar below is that of Unix paths: `/` is the only separator and there
/// are no drive or share prefixes. Whether a path is absolute is decided by the
/// platform's own rules instead (see `host_absolute`).
pub open spec fn starts_at_root(t: Seq<char>) -> bool {
    t.len() > 0 && t[0] == '/'
}

/// A path text holds a separator, `/` or `\`, somewhere.
pub open spec fn has_separator(t: Seq<char>) -> bool {
    exists|k: int| 0 <= k < t.len() && (t[k] == '/' || t[k] == '\\')
}

/// A relative path that starts with a `.` of its own keeps that `.` as a segment.
pub open spec fn leads_with_cur(t: Seq<char>) -> bool {
    t.len() > 0 && t[0] == '.' && (t.len() == 1 || t[1] == '/')
}

/// The segment that a non-empty piece between separators stands for.
pub open spec fn seg_of(p: Seq<char>) -> Seg {
    if p == seq!['.', '.'] {
        Seg::Parent
    } else {
        Seg::Name(p)
    }
}

/// What a piece between separators contributes: empty pieces and `.` vanish.
pub open spec fn emit(p: Seq<char>) -> Seq<Seg> {
    if p.len() == 0 || p == seq!['.'] {
        seq![]
    } else {
        seq![seg_of(p)]
    }
}

/// The segments of `t` from position `i` on, where the current piece began at `start`.
pub open spec fn segs_scan(t: Seq<char>, i: int, start: int) -> Seq<Seg>
    decreases t.len() - i,
{
    if i < 0 || start < 0 || start > i || i >= t.len() {
        emit(t.subrange(start, t.len() as int))
    } else if t[i] == '/' {
        emit(t.subrange(start, i)) + segs_scan(t, i + 1, i + 1)
    } else {
        segs_scan(t, i + 1, start)
    }
}

/// The segments of a path text, by the Unix grammar.
pub open spec fn components_of(t: Seq<char>) -> Seq<Seg> {
    if starts_at_root(t) {
        seq![Seg::Root] + segs_scan(t, 0, 0)
    } else if leads_with_cur(t) {
        seq![Seg::Cur] + segs_scan(t, 0, 0)
    } else {
        segs_scan(t, 0, 0)
    }
}

/// The text of a single segment.
pub open spec fn seg_text(s: Seg) -> Seq<char> {
    match s {
        Seg::Root => seq!['/'],
        Seg::Cur => seq!['.'],
        Seg::Parent => seq!['.', '.'],
        Seg::Name(n) => n,
    }
}

/// Segment texts joined by single separators.
pub open spec fn join_segs(s: Seq<Seg>) -> Seq<char>
    decreases s.len(),
{
    if s.len() == 0 {
        seq![]
    } else if s.len() == 1 {
        seg_text(s[0])
    } else {
        seg_text(s[0]) + seq!['/'] + join_segs(s.drop_first())
    }
}

/// The text of a sequence of segments; a leading root is the leading separator.
pub open spec fn render(s: Seq<Seg>) -> Seq<char> {
    if s.len() > 0 && s[0] is Root {
        seq!['/'] + join_segs(s.drop_first())
    } else {
        join_segs(s)
    }
}

/// One step of lexical resolution: `.` vanishes, `..` cancels a preceding name,
/// is absorbed by the root, and is otherwise kept.
pub open spec fn resolve(out: Seq<Seg>, s: Seg) -> Seq<Seg> {
    match s {
        Seg::Cur => out,
        Seg::Parent => {
            if out.len() > 0 && out.last() is Name {
                out.drop_last()
            } else if out.len() > 0 && out.last() is Root {
                out
            } else {
                out.push(Seg::Parent)
            }
        },
        _ => out.push(s),
    }
}

/// Lexical resolution of a whole sequence of segments, left to right.
pub open spec fn resolve_all(s: Seq<Seg>) -> Seq<Seg>
    decreases s.len(),
{
    if s.len() == 0 {
        seq![]
    } else {
        resolve(resolve_all(s.drop_last()), s.last())
    }
}

/// The normal form of a path text; a non-empty path that resolves to nothing is `.`.
pub open spec fn normalized(t: Seq<char>) -> Seq<char> {
    let r = resolve_all(components_of(t));
    if r.len() == 0 && t.len() > 0 {
        seq!['.']
    } else {
        render(r)
    }
}

/// A path text is normalized when normalizing leaves it as it is.
pub open spec fn is_normalized_text(t: Seq<char>) -> bool {
    normalized(t) == t
}

/// A name a parser can produce: non-empty, no separator, neither `.` nor `..`.
pub open spec fn valid_name(n: Seq<char>) -> bool {
    &&& n.len() > 0
    &&& forall|k: int| 0 <= k < n.len() ==> n[k] != '/'
    &&& n != seq!['.']
    &&& n != seq!['.', '.']
}

pub open spec fn seg_ok(s: Seg) -> bool {
    match s {
        Seg::Name(n) => valid_name(n),
        _ => true,
    }
}

/// Segments as a parser produces them: the root or `.` only first, names valid.
pub open spec fn parse_shaped(s: Seq<Seg>) -> bool {
    forall|i: int|
        0 <= i < s.len() ==> seg_ok(#[trigger] s[i]) && ((s[i] is Root || s[i] is Cur) ==> i
            == 0)
}

/// Segments in normal form: the root only first, no `.`, `..` only in a leading run
/// that is not under the root, names valid.
pub open spec fn normal_shaped(s: Seq<Seg>) -> bool {
    forall|i: int|
        0 <= i < s.len() ==> {
            &&& seg_ok(#[trigger] s[i])
            &&& (s[i] is Root ==> i == 0)
            &&& !(s[i] is Cur)
            &&& (s[i] is Parent ==> forall|j: int| 0 <= j < i ==> s[j] is Parent)
        }
}

/// Segments with neither a root nor a `.`: `..` or valid names.
pub open spec fn plain_segs(s: Seq<Seg>) -> bool {
    forall|i: int| 0 <= i < s.len() ==> seg_ok(#[trigger] s[i]) && (s[i] is Parent || s[i] is Name)
}


proof fn lemma_scan_shift(p: Seq<char>, s: Seq<char>, i: int, start: int)
    requires
        0 <= start <= i <= s.len(),
    ensures
        segs_scan(p + s, p.len() + i, p.len() + start) == segs_scan(s, i, start),
    decreases s.len() - i,
{
    let t = p + s;
    if i >= s.len() {
        assert(t.subrange(p.len() + start, t.len() as int) =~= s.subrange(start, s.len() as int));
    } else {
        assert(t[p.len() + i] == s[i]);
        if s[i] == '/' {
            assert(t.subrange(p.len() + start, p.len() + i) =~= s.subrange(start, i));
            lemma_scan_shift(p, s, i + 1, i + 1);
        } else {
            lemma_scan_shift(p, s, i + 1, start);
        }
    }
}

proof fn lemma_scan_skip(t: Seq<char>, k: int, m: int, start: int)
    requires
        0 <= start <= k <= m <= t.len(),
        forall|j: int| k <= j < m ==> t[j] != '/',
    ensures
        segs_scan(t, k, start) == segs_scan(t, m, start),
    decreases m - k,
{
    if k < m {
        lemma_scan_skip(t, k + 1, m, start);
    }
}

proof fn lemma_emit_plain(p: Seq<char>)
    requires
        forall|k: int| 0 <= k < p.len() ==> p[k] != '/',
    ensures
        plain_segs(emit(p)),
{
}

proof fn lemma_scan_plain(t: Seq<char>, i: int, start: int)
    requires
        0 <= start <= i <= t.len(),
        forall|k: int| start <= k < i ==> t[k] != '/',
    ensures
        plain_segs(segs_scan(t, i, start)),
    decreases t.len() - i,
{
    if i >= t.len() {
        lemma_emit_plain(t.subrange(start, t.len() as int));
    } else if t[i] == '/' {
        let e = emit(t.subrange(start, i));
        lemma_emit_plain(t.subrange(start, i));
        lemma_scan_plain(t, i + 1, i + 1);
        let r = segs_scan(t, i + 1, i + 1);
        assert forall|j: int| 0 <= j < (e + r).len() implies seg_ok(#[trigger] (e + r)[j]) && (
        (e + r)[j] is Parent || (e + r)[j] is Name) by {
            if j >= e.len() {
                assert((e + r)[j] == r[j - e.len()]);
            }
        }
    } else {
        lemma_scan_plain(t, i + 1, start);
    }
}

proof fn lemma_components_shaped(t: Seq<char>)
    ensures
        parse_shaped(components_of(t)),
{
    lemma_scan_plain(t, 0, 0);
    let r = segs_scan(t, 0, 0);
    if starts_at_root(t) || leads_with_cur(t) {
        let c = components_of(t);
        assert forall|i: int| 0 <= i < c.len() implies seg_ok(#[trigger] c[i]) && ((c[i] is Root
            || c[i] is Cur) ==> i == 0) by {
            if i > 0 {
                assert(c[i] == r[i - 1]);
            }
        }
    }
}

proof fn lemma_resolve_normal(s: Seq<Seg>)
    requires
        parse_shaped(s),
    ensures
        normal_shaped(resolve_all(s)),
    decreases s.len(),
{
    if s.len() > 0 {
        let pre = s.drop_last();
        assert forall|i: int| 0 <= i < pre.len() implies seg_ok(#[trigger] pre[i]) && ((pre[i] is Root
            || pre[i] is Cur) ==> i == 0) by {
            assert(pre[i] == s[i]);
        }
        lemma_resolve_normal(pre);
        let out = resolve_all(pre);
        let c = s.last();
        assert(seg_ok(s[s.len() - 1]));
        let r = resolve(out, c);
        match c {
            Seg::Root => {
                assert(pre.len() == 0);
                assert(r =~= seq![Seg::Root]);
            },
            Seg::Cur => {},
            Seg::Parent => {
                if out.len() > 0 && out.last() is Name {
                    assert forall|i: int| 0 <= i < r.len() implies #[trigger] r[i] == out[i] by {}
                } else if out.len() > 0 && out.last() is Root {
                } else {
                    assert forall|j: int| 0 <= j < out.len() implies out[j] is Parent by {
                        assert(out[out.len() - 1] is Parent);
                    }
                    assert forall|i: int| 0 <= i < out.len() implies #[trigger] r[i] == out[i] by {}
                }
            },
            Seg::Name(_) => {
                assert forall|i: int| 0 <= i < out.len() implies #[trigger] r[i] == out[i] by {}
            },
        }
    }
}

proof fn lemma_normal_fixed(r: Seq<Seg>)
    requires
        normal_shaped(r),
    ensures
        resolve_all(r) == r,
    decreases r.len(),
{
    if r.len() > 0 {
        let pre = r.drop_last();
        assert forall|i: int| 0 <= i < pre.len() implies #[trigger] pre[i] == r[i] by {}
        lemma_normal_fixed(pre);
        let c = r.last();
        assert(!(r[r.len() - 1] is Cur));
        if c is Parent {
            if pre.len() > 0 {
                assert(r[pre.len() - 1] is Parent);
            }
        }
        assert(r =~= pre.push(c));
    }
}

proof fn lemma_plain_text(x: Seg)
    requires
        seg_ok(x),
        x is Parent || x is Name,
    ensures
        seg_text(x).len() > 0,
        forall|k: int| 0 <= k < seg_text(x).len() ==> seg_text(x)[k] != '/',
        emit(seg_text(x)) == seq![x],
        seg_text(x)[0] == '.' ==> seg_text(x).len() >= 2,
{
    let a = seg_text(x);
    if x is Parent {
        assert(a.len() == 2);
        assert(a != seq!['.']);
    } else {
        if a[0] == '.' && a.len() == 1 {
            assert(a =~= seq!['.']);
        }
    }
}

proof fn lemma_scan_join(xs: Seq<Seg>)
    requires
        plain_segs(xs),
    ensures
        segs_scan(join_segs(xs), 0, 0) == xs,
    decreases xs.len(),
{
    if xs.len() == 0 {
        let t = join_segs(xs);
        assert(t.subrange(0, 0) =~= seq![]);
        assert(xs =~= seq![]);
    } else {
        assert(seg_ok(xs[0]));
        let a = seg_text(xs[0]);
        lemma_plain_text(xs[0]);
        if xs.len() == 1 {
            lemma_scan_skip(a, 0, a.len() as int, 0);
            assert(a.subrange(0, a.len() as int) =~= a);
            assert(xs =~= seq![xs[0]]);
        } else {
            let rest = xs.drop_first();
            assert forall|i: int| 0 <= i < rest.len() implies seg_ok(#[trigger] rest[i]) && (
            rest[i] is Parent || rest[i] is Name) by {
                assert(rest[i] == xs[i + 1]);
            }
            let j = join_segs(rest);
            let p = a + seq!['/'];
            let t = p + j;
            assert(join_segs(xs) == t);
            assert forall|k: int| 0 <= k < a.len() implies t[k] != '/' by {
                assert(t[k] == a[k]);
            }
            lemma_scan_skip(t, 0, a.len() as int, 0);
            assert(t[a.len() as int] == '/');
            assert(t.subrange(0, a.len() as int) =~= a);
            lemma_scan_shift(p, j, 0, 0);
            lemma_scan_join(rest);
            assert(xs =~= seq![xs[0]] + rest);
        }
    }
}

proof fn lemma_parse_render(r: Seq<Seg>)
    requires
        normal_shaped(r),
        r.len() > 0,
    ensures
        components_of(render(r)) == r,
        render(r).len() > 0,
{
    if r[0] is Root {
        let rest = r.drop_first();
        assert forall|i: int| 0 <= i < rest.len() implies seg_ok(#[trigger] rest[i]) && (
        rest[i] is Parent || rest[i] is Name) by {
            assert(rest[i] == r[i + 1]);
            if r[i + 1] is Parent {
                assert(r[0] is Parent);
            }
        }
        let j = join_segs(rest);
        let p = seq!['/'];
        let t = p + j;
        assert(render(r) == t);
        assert(t[0] == '/');
        assert(t.subrange(0, 0) =~= seq![]);
        lemma_scan_shift(p, j, 0, 0);
        lemma_scan_join(rest);
        assert(r =~= seq![Seg::Root] + rest);
    } else {
        assert forall|i: int| 0 <= i < r.len() implies seg_ok(#[trigger] r[i]) && (r[i] is Parent
            || r[i] is Name) by {}
        lemma_plain_text(r[0]);
        let a = seg_text(r[0]);
        let t = join_segs(r);
        if r.len() > 1 {
            let p = a + seq!['/'];
            assert(t == p + join_segs(r.drop_first()));
            assert(t[0] == a[0]);
            if a.len() > 1 {
                assert(t[1] == a[1]);
            }
        }
        assert(render(r) == t);
        lemma_scan_join(r);
    }
}

/// Normalizing a normalized path changes nothing.
pub proof fn lemma_normalize_idempotent(t: Seq<char>)
    ensures
        normalized(normalized(t)) == normalized(t),
{
    let c = components_of(t);
    let r = resolve_all(c);
    lemma_components_shaped(t);
    lemma_resolve_normal(c);
    if r.len() == 0 {
        if t.len() > 0 {
            let d = seq!['.'];
            assert(d.subrange(0, 1) =~= d);
            assert(segs_scan(d, 1, 0) == emit(d));
            assert(segs_scan(d, 0, 0) =~= seq![]);
            assert(components_of(d) =~= seq![Seg::Cur]);
            let one = seq![Seg::Cur];
            assert(one.drop_last() =~= Seq::<Seg>::empty());
            assert(resolve_all(one.drop_last()) =~= Seq::<Seg>::empty());
            assert(one.last() == Seg::Cur);
            assert(resolve_all(one) =~= seq![]);
        } else {
            assert(render(r) =~= t);
        }
    } else {
        lemma_parse_render(r);
        lemma_normal_fixed(r);
    }
}

proof fn lemma_join_push(a: Seq<Seg>, x: Seg)
    requires
        a.len() > 0,
    ensures
        join_segs(a.push(x)) == join_segs(a) + seq!['/'] + seg_text(x),
    decreases a.len(),
{
    let b = a.push(x);
    assert(b.drop_first() =~= a.drop_first().push(x));
    if a.len() == 1 {
        assert(b.drop_first() =~= seq![x]);
        assert(b[0] == a[0]);
        assert(join_segs(seq![x]) == seg_text(x));
        assert(join_segs(b) =~= join_segs(a) + seq!['/'] + seg_text(x));
    } else {
        assert(b[0] == a[0]);
        lemma_join_push(a.drop_first(), x);
        assert(join_segs(b) =~= join_segs(a) + seq!['/'] + seg_text(x));
    }
}

/// Appends what the piece `t[start..end]` contributes to `out`.
fn push_piece(out: &mut Vec<Component>, t: &str, start: usize, end: usize)
    requires
        start <= end <= t@.len(),
    ensures
        segs_of(final(out)@) == segs_of(old(out)@) + emit(t@.subrange(start as int, end as int)),
{
    let p = t.substring_char(start, end);
    let n = p.unicode_len();
    if n == 0 {
        assert(segs_of(out@) + emit(p@) =~= segs_of(out@));
    } else if n == 1 && p.get_char(0) == '.' {
        assert(p@ =~= seq!['.']);
        assert(segs_of(out@) + emit(p@) =~= segs_of(out@));
    } else if n == 2 && p.get_char(0) == '.' && p.get_char(1) == '.' {
        assert(p@ =~= seq!['.', '.']);
        out.push(Component::ParentDir);
        assert(segs_of(out@) =~= segs_of(old(out)@) + emit(p@));
    } else {
        assert(p@ != seq!['.']) by {
            if p@ == seq!['.'] {
                assert(p@[0] == '.');
            }
        }
        assert(p@ != seq!['.', '.']) by {
            if p@ == seq!['.', '.'] {
                assert(p@[0] == '.' && p@[1] == '.');
            }
        }
        out.push(Component::Normal(p.to_owned()));
        assert(segs_of(out@) =~= segs_of(old(out)@) + emit(p@));
    }
}

/// Splits a path text into its segments.
pub fn components(t: &str) -> (r: Vec<Component>)
    ensures
        segs_of(r@) == components_of(t@),
{
    let n = t.unicode_len();
    let mut out: Vec<Component> = Vec::new();
    if n > 0 && t.get_char(0) == '/' {
        out.push(Component::RootDir);
    } else if n > 0 && t.get_char(0) == '.' && (n == 1 || t.get_char(1) == '/') {
        out.push(Component::CurDir);
    }
    assert(segs_of(out@) + segs_scan(t@, 0, 0) =~= components_of(t@));
    let mut i: usize = 0;
    let mut start: usize = 0;
    while i < n
        invariant
            n == t@.len(),
            start <= i <= n,
            segs_of(out@) + segs_scan(t@, i as int, start as int) == components_of(t@),
        decreases n - i,
    {
        if t.get_char(i) == '/' {
            let ghost before = segs_of(out@);
            push_piece(&mut out, t, start, i);
            let ghost e = emit(t@.subrange(start as int, i as int));
            let ghost rest = segs_scan(t@, i + 1, i + 1);
            assert(before + (e + rest) =~= (before + e) + rest);
            start = i + 1;
        }
        i = i + 1;
    }
    push_piece(&mut out, t, start, n);
    out
}

/// Whether a component is a plain name.
fn is_name(c: &Component) -> (r: bool)
    ensures
        r == (c@ is Name),
{
    match c {
        Component::Normal(_) => true,
        _ => false,
    }
}

/// Whether a component is the root marker.
fn is_root(c: &Component) -> (r: bool)
    ensures
        r == (c@ is Root),
{
    match c {
        Component::RootDir => true,
        _ => false,
    }
}

/// Resolves `.` and `..` lexically, left to right.
pub fn resolve_components(comps: &Vec<Component>) -> (r: Vec<Component>)
    ensures
        segs_of(r@) == resolve_all(segs_of(comps@)),
{
    let mut out: Vec<Component> = Vec::new();
    let n = comps.len();
    let mut i: usize = 0;
    assert(segs_of(comps@).subrange(0, 0) =~= seq![]);
    while i < n
        invariant
            n == comps.len(),
            i <= n,
            segs_of(out@) == resolve_all(segs_of(comps@).subrange(0, i as int)),
        decreases n - i,
    {
        let ghost pre = segs_of(out@);
        let ghost all = segs_of(comps@);
        assert(all.subrange(0, i + 1).drop_last() =~= all.subrange(0, i as int));
        assert(all.subrange(0, i + 1).last() == comps@[i as int]@);
        match &comps[i] {
            Component::CurDir => {},
            Component::ParentDir => {
                let len = out.len();
                if len > 0 && is_name(&out[len - 1]) {
                    out.pop();
                    assert(segs_of(out@) =~= pre.drop_last());
                } else if len > 0 && is_root(&out[len - 1]) {
                } else {
                    out.push(Component::ParentDir);
                    assert(segs_of(out@) =~= pre.push(Seg::Parent));
                }
            },
            Component::RootDir => {
                out.push(Component::RootDir);
                assert(segs_of(out@) =~= pre.push(Seg::Root));
            },
            Component::Normal(s) => {
                out.push(Component::Normal(s.clone()));
                assert(segs_of(out@) =~= pre.push(Seg::Name(s@)));
            },
        }
        i = i + 1;
    }
    assert(segs_of(comps@).subrange(0, n as int) =~= segs_of(comps@));
    out
}

/// Appends the text of one segment.
fn push_text(s: &mut String, c: &Component)
    ensures
        final(s)@ == old(s)@ + seg_text(c@),
{
    match c {
        Component::RootDir => {
            proof {
                reveal_strlit("/");
            }
            s.append("/");
        },
        Component::CurDir => {
            proof {
                reveal_strlit(".");
            }
            s.append(".");
        },
        Component::ParentDir => {
            proof {
                reveal_strlit("..");
            }
            s.append("..");
        },
        Component::Normal(n) => {
            s.append(n.as_str());
        },
    }
}

/// Writes segments back as a path text.
pub fn render_components(v: &Vec<Component>) -> (r: String)
    ensures
        r@ == render(segs_of(v@)),
{
    let ghost sv = segs_of(v@);
    let mut s = String::new();
    let n = v.len();
    let mut first: usize = 0;
    if n > 0 && is_root(&v[0]) {
        proof {
            reveal_strlit("/");
        }
        s.append("/");
        first = 1;
    }
    let ghost lead = s@;
    assert(sv.subrange(first as int, first as int) =~= seq![]);
    let mut i: usize = first;
    while i < n
        invariant
            n == v.len(),
            first <= i <= n,
            first <= 1,
            sv == segs_of(v@),
            s@ == lead + join_segs(sv.subrange(first as int, i as int)),
        decreases n - i,
    {
        let ghost before = sv.subrange(first as int, i as int);
        let ghost mid = s@;
        if i > first {
            proof {
                reveal_strlit("/");
            }
            s.append("/");
        }
        push_text(&mut s, &v[i]);
        proof {
            let after = sv.subrange(first as int, i + 1);
            assert(after =~= before.push(sv[i as int]));
            if i > first {
                lemma_join_push(before, sv[i as int]);
            } else {
                assert(after =~= seq![sv[i as int]]);
            }
            assert(s@ =~= lead + join_segs(after));
        }
        i = i + 1;
    }
    proof {
        if first == 1 {
            assert(sv.subrange(1, n as int) =~= sv.drop_first());
        } else {
            assert(sv.subrange(0, n as int) =~= sv);
        }
    }
    s
}

/// The normal form of a path text.
pub fn normalize_path(t: &str) -> (r: String)
    ensures
        r@ == normalized(t@),
{
    let comps = components(t);
    let resolved = resolve_components(&comps);
    if resolved.len() == 0 && !t.is_empty() {
        proof {
            reveal_strlit(".");
        }
        String::from_str(".")
    } else {
        render_components(&resolved)
    }
}

/// The last segment, when it is a plain name.
pub open spec fn file_name_of(t: Seq<char>) -> Option<Seq<char>> {
    let c = components_of(t);
    if c.len() > 0 && c.last() is Name {
        Some(c.last()->Name_0)
    } else {
        None
    }
}

/// The position of the last `.` before position `i`, or -1 when there is none.
pub open spec fn last_dot(n: Seq<char>, i: int) -> int
    decreases i,
{
    if i <= 0 {
        -1
    } else if n[i - 1] == '.' {
        i - 1
    } else {
        last_dot(n, i - 1)
    }
}

/// What follows the last `.` of the file name, unless that `.` starts the name.
pub open spec fn extension_of(t: Seq<char>) -> Option<Seq<char>> {
    match file_name_of(t) {
        Some(n) => {
            let k = last_dot(n, n.len() as int);
            if k > 0 {
                Some(n.subrange(k + 1, n.len() as int))
            } else {
                None
            }
        },
        None => None,
    }
}

/// The path without its last segment; none when it has no segment or ends at the root.
pub open spec fn parent_of(t: Seq<char>) -> Option<Seq<char>> {
    let c = components_of(t);
    if c.len() > 0 && !(c.last() is Root) {
        Some(render(c.drop_last()))
    } else {
        None
    }
}

/// The last segment of `t`, when it is a plain name.
pub fn file_name(t: &str) -> (r: Option<String>)
    ensures
        r matches Some(s) ==> file_name_of(t@) == Some(s@),
        r is None ==> file_name_of(t@) is None,
{
    let comps = components(t);
    let n = comps.len();
    assert(n > 0 ==> segs_of(comps@).last() == comps@[n - 1]@);
    if n == 0 {
        None
    } else {
        match &comps[n - 1] {
            Component::Normal(s) => Some(s.clone()),
            _ => None,
        }
    }
}

/// The extension of the file name of `t`.
pub fn extension(t: &str) -> (r: Option<String>)
    ensures
        r matches Some(s) ==> extension_of(t@) == Some(s@),
        r is None ==> extension_of(t@) is None,
{
    match file_name(t) {
        None => None,
        Some(name) => {
            let s = name.as_str();
            let len = s.unicode_len();
            let mut i: usize = len;
            while i > 0 && s.get_char(i - 1) != '.'
                invariant
                    i <= len,
                    len == s@.len(),
                    last_dot(s@, len as int) == last_dot(s@, i as int),
                decreases i,
            {
                i = i - 1;
            }
            if i > 1 {
                Some(owned_text(s.substring_char(i, len)))
            } else {
                None
            }
        },
    }
}

/// The path `t` without its last segment.
pub fn parent(t: &str) -> (r: Option<String>)
    ensures
        r matches Some(s) ==> parent_of(t@) == Some(s@),
        r is None ==> parent_of(t@) is None,
{
    let mut comps = components(t);
    let n = comps.len();
    if n > 0 && !is_root(&comps[n - 1]) {
        assert(segs_of(comps@).last() == comps@[n - 1]@);
        let ghost before = segs_of(comps@);
        comps.pop();
        assert(segs_of(comps@) =~= before.drop_last());
        Some(render_components(&comps))
    } else {
        proof {
            if n > 0 {
                assert(segs_of(comps@).last() == comps@[n - 1]@);
            }
        }
        None
    }
}

/// Whether the segments `a` begin the segments `b`.
pub open spec fn segs_prefix(a: Seq<Seg>, b: Seq<Seg>) -> bool {
    a.len() <= b.len() && b.subrange(0, a.len() as int) == a
}

/// Whether two components are the same segment.
fn same_component(a: &Component, b: &Component) -> (r: bool)
    ensures
        r == (a@ == b@),
{
    match (a, b) {
        (Component::RootDir, Component::RootDir) => true,
        (Component::CurDir, Component::CurDir) => true,
        (Component::ParentDir, Component::ParentDir) => true,
        (Component::Normal(x), Component::Normal(y)) => x.eq(y),
        _ => false,
    }
}

/// Whether the segments of `base` begin the segments of `t`.
pub fn starts_with(t: &str, base: &str) -> (r: bool)
    ensures
        r == segs_prefix(components_of(base@), components_of(t@)),
{
    let tc = components(t);
    let bc = components(base);
    let ghost ts = segs_of(tc@);
    let ghost bs = segs_of(bc@);
    assert(ts.len() == tc.len() && bs.len() == bc.len());
    if bc.len() > tc.len() {
        return false;
    }
    let mut i: usize = 0;
    while i < bc.len()
        invariant
            bc.len() <= tc.len(),
            i <= bc.len(),
            ts == segs_of(tc@),
            bs == segs_of(bc@),
            ts.len() == tc.len(),
            bs.len() == bc.len(),
            ts == components_of(t@),
            bs == components_of(base@),
            forall|k: int| 0 <= k < i ==> ts[k] == bs[k],
        decreases bc.len() - i,
    {
        assert(ts[i as int] == tc@[i as int]@);
        assert(bs[i as int] == bc@[i as int]@);
        if !same_component(&tc[i], &bc[i]) {
            assert(ts.subrange(0, bs.len() as int)[i as int] == ts[i as int]);
            assert(ts.subrange(0, bs.len() as int) != bs);
            return false;
        }
        i = i + 1;
    }
    assert(ts.subrange(0, bs.len() as int) =~= bs);
    true
}

/// The path `rel` appended to `base`, with one separator between them; nothing is
/// put before `rel` when `base` is empty.
pub open spec fn join_text(base: Seq<char>, rel: Seq<char>) -> Seq<char> {
    if rel.len() == 0 {
        base
    } else if base.len() == 0 {
        rel
    } else if base.last() == '/' {
        base + rel
    } else {
        base + seq!['/'] + rel
    }
}

/// The text `rel` appended to `base`, with one separator between them.
pub fn join_texts(base: &str, rel: &str) -> (r: String)
    ensures
        r@ == join_text(base@, rel@),
{
    let mut t = owned_text(base);
    if rel.unicode_len() == 0 {
        return t;
    }
    let m = base.unicode_len();
    if m == 0 {
        return owned_text(rel);
    }
    if base.get_char(m - 1) != '/' {
        proof {
            reveal_strlit("/");
        }
        t.append("/");
    }
    t.append(rel);
    t
}

} // verus!
