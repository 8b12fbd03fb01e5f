//! Unix path syntax over character sequences.
//!
//! A path is cut at every `/`. Empty pieces and pieces that are a lone `.`
//! carry no meaning and are dropped; what is left are the path's names.
//! Together with the path's anchor (a leading `/`, a leading `.`, or nothing)
//! the names are the path's components, and two paths that have the same
//! components name the same file.

use vstd::prelude::*;
use crate::text::{chars_of, lemma_split_is_not_empty, spec_split, text_of};

verus! {

/// What a path starts from.
#[derive(Clone, Copy, Debug, PartialEq, Eq, Structural)]
pub enum Anchor {
    /// The path starts with `/`.
    Root,
    /// The path is `.` or starts with `./`.
    Current,
    /// The path starts with a name, or is empty.
    Free,
}

/// One component of a path.
pub enum Component {
    Root,
    Current,
    Name(Seq<char>),
}

/// Whether a piece between two separators is a name.
pub open spec fn is_name(segment: Seq<char>) -> bool {
    segment.len() > 0 && segment != seq!['.']
}

/// The names of `p`, in order: the pieces between its separators, without
/// the empty ones and the lone dots.
pub open spec fn names(p: Seq<char>) -> Seq<Seq<char>> {
    spec_split(p, '/').filter(|segment: Seq<char>| is_name(segment))
}

/// The names `done`, with `segment` behind them if it is a name.
spec fn close_segment(done: Seq<Seq<char>>, segment: Seq<char>) -> Seq<Seq<char>> {
    if is_name(segment) {
        done.push(segment)
    } else {
        done
    }
}

/// Reading `p` from the left: the names that a separator has closed, and the
/// segment that is still open.
spec fn scan(p: Seq<char>) -> (Seq<Seq<char>>, Seq<char>)
    decreases p.len(),
{
    if p.len() == 0 {
        (Seq::empty(), Seq::empty())
    } else {
        let before = scan(p.drop_last());
        if p.last() == '/' {
            (close_segment(before.0, before.1), Seq::empty())
        } else {
            (before.0, before.1.push(p.last()))
        }
    }
}

/// The names of `p` as a reading from the left finds them.
spec fn scanned(p: Seq<char>) -> Seq<Seq<char>> {
    close_segment(scan(p).0, scan(p).1)
}

proof fn lemma_scan_follows_split(p: Seq<char>)
    ensures
        spec_split(p, '/').len() >= 1,
        scan(p).0 == spec_split(p, '/').drop_last().filter(|segment: Seq<char>| is_name(segment)),
        scan(p).1 == spec_split(p, '/').last(),
    decreases p.len(),
{
    reveal(Seq::filter);
    lemma_split_is_not_empty(p, '/');
    if p.len() == 0 {
        assert(spec_split(p, '/').drop_last() =~= Seq::<Seq<char>>::empty());
    } else {
        let before = spec_split(p.drop_last(), '/');
        lemma_scan_follows_split(p.drop_last());
        if p.last() == '/' {
            assert(spec_split(p, '/').drop_last() =~= before);
        } else {
            assert(spec_split(p, '/').drop_last() =~= before.drop_last());
        }
    }
}

proof fn lemma_names_scanned(p: Seq<char>)
    ensures
        names(p) == scanned(p),
{
    reveal(Seq::filter);
    lemma_scan_follows_split(p);
}

/// The anchor of `p`.
pub open spec fn anchor(p: Seq<char>) -> Anchor {
    if p.len() > 0 && p[0] == '/' {
        Anchor::Root
    } else if p.len() > 0 && p[0] == '.' && (p.len() == 1 || p[1] == '/') {
        Anchor::Current
    } else {
        Anchor::Free
    }
}

/// Whether `p` starts at the root.
pub open spec fn spec_is_absolute(p: Seq<char>) -> bool {
    p.len() > 0 && p[0] == '/'
}

/// Tells whether `p` starts at the root.
pub fn is_absolute(p: &str) -> (absolute: bool)
    ensures
        absolute == spec_is_absolute(p@),
{
    p.unicode_len() > 0 && p.get_char(0) == '/'
}

/// The component that an anchor contributes, if any.
pub open spec fn anchor_components(a: Anchor) -> Seq<Component> {
    match a {
        Anchor::Root => seq![Component::Root],
        Anchor::Current => seq![Component::Current],
        Anchor::Free => Seq::empty(),
    }
}

/// The components of `p`: its anchor, then its names.
pub open spec fn components(p: Seq<char>) -> Seq<Component> {
    anchor_components(anchor(p)) + Seq::new(names(p).len(), |i: int| Component::Name(names(p)[i]))
}

/// Whether the components of `base` are the first components of `p`.
pub open spec fn spec_starts_with(p: Seq<char>, base: Seq<char>) -> bool {
    components(base).is_prefix_of(components(p))
}

/// `base` extended by `rel`: `rel` alone where it starts at the root, else
/// `base`, a separator unless `base` is empty or ends with one, and `rel`.
pub open spec fn spec_join(base: Seq<char>, rel: Seq<char>) -> Seq<char> {
    if rel.len() > 0 && rel[0] == '/' {
        rel
    } else if base.len() == 0 || base.last() == '/' {
        base + rel
    } else {
        base + seq!['/'] + rel
    }
}

/// The text that an anchor is written as.
pub open spec fn anchor_text(a: Anchor) -> Seq<char> {
    match a {
        Anchor::Root => seq!['/'],
        Anchor::Current => seq!['.'],
        Anchor::Free => Seq::empty(),
    }
}

/// `head` extended by each of `names` in turn.
pub open spec fn render(head: Seq<char>, names: Seq<Seq<char>>) -> Seq<char>
    decreases names.len(),
{
    if names.len() == 0 {
        head
    } else {
        spec_join(render(head, names.drop_last()), names.last())
    }
}

/// The one spelling that stands for every path with the components of `p`.
pub open spec fn normal_form(p: Seq<char>) -> Seq<char> {
    render(anchor_text(anchor(p)), names(p))
}

/// The last name of `p`, unless the path is empty, ends at its anchor, or
/// ends in `..`.
pub open spec fn spec_file_name(p: Seq<char>) -> Option<Seq<char>> {
    if names(p).len() > 0 && names(p).last() != seq!['.', '.'] {
        Some(names(p).last())
    } else {
        None
    }
}

/// The index of the last `.` in `name`, or -1 where it has none.
pub open spec fn last_dot(name: Seq<char>) -> int
    decreases name.len(),
{
    if name.len() == 0 {
        -1
    } else if name.last() == '.' {
        name.len() - 1
    } else {
        last_dot(name.drop_last())
    }
}

/// What follows the last `.` of the file name of `p`, where that `.` is not
/// the name's first character.
pub open spec fn spec_extension(p: Seq<char>) -> Option<Seq<char>> {
    match spec_file_name(p) {
        Some(name) => {
            if last_dot(name) > 0 {
                Some(name.subrange(last_dot(name) + 1, name.len() as int))
            } else {
                None
            }
        },
        None => None,
    }
}

/// Whether `p` holds a `.` with no `/` behind it.
pub open spec fn spec_looks_like_file(p: Seq<char>) -> bool {
    exists|i: int|
        0 <= i < p.len() && #[trigger] p[i] == '.' && forall|j: int|
            i < j < p.len() ==> #[trigger] p[j] != '/'
}

/// `p` without its first `n` characters; empty where it has no more than `n`.
pub open spec fn spec_skip(p: Seq<char>, n: int) -> Seq<char> {
    if 0 <= n < p.len() {
        p.subrange(n, p.len() as int)
    } else {
        Seq::empty()
    }
}

/// Whether `spans` cuts `names` out of `p`, one span for each name.
pub open spec fn spans_cut(p: Seq<char>, spans: Seq<(usize, usize)>, names: Seq<Seq<char>>) -> bool {
    &&& spans.len() == names.len()
    &&& forall|k: int|
        0 <= k < spans.len() ==> {
            &&& (#[trigger] spans[k]).0 <= spans[k].1 <= p.len()
            &&& p.subrange(spans[k].0 as int, spans[k].1 as int) == names[k]
        }
}

fn segment_is_name(chars: &Vec<char>, from: usize, to: usize) -> (b: bool)
    requires
        from <= to <= chars.len(),
    ensures
        b == is_name(chars@.subrange(from as int, to as int)),
{
    let ghost segment = chars@.subrange(from as int, to as int);
    if to == from {
        false
    } else if to - from == 1 && chars[from] == '.' {
        assert(segment =~= seq!['.']);
        false
    } else {
        if to - from == 1 {
            assert(segment[0] != '.');
        } else {
            assert(segment.len() != seq!['.'].len());
        }
        true
    }
}

/// Where the names of a path lie in it.
fn name_spans(chars: &Vec<char>) -> (spans: Vec<(usize, usize)>)
    ensures
        spans_cut(chars@, spans@, names(chars@)),
{
    let n = chars.len();
    let mut spans: Vec<(usize, usize)> = Vec::new();
    let mut start: usize = 0;
    let mut i: usize = 0;
    while i < n
        invariant
            n == chars.len(),
            start <= i <= n,
            spans_cut(chars@, spans@, scan(chars@.take(i as int)).0),
            chars@.subrange(start as int, i as int) == scan(chars@.take(i as int)).1,
        decreases n - i,
    {
        let ghost read = chars@.take(i as int);
        let ghost next = chars@.take(i as int + 1);
        assert(next.drop_last() =~= read);
        assert(next.last() == chars@[i as int]);
        if chars[i] == '/' {
            if segment_is_name(chars, start, i) {
                spans.push((start, i));
            }
            start = i + 1;
            assert(chars@.subrange(start as int, i as int + 1) =~= Seq::<char>::empty());
        } else {
            assert(chars@.subrange(start as int, i as int + 1) =~= chars@.subrange(
                start as int,
                i as int,
            ).push(chars@[i as int]));
        }
        i += 1;
    }
    assert(chars@.take(n as int) =~= chars@);
    if segment_is_name(chars, start, n) {
        spans.push((start, n));
    }
    proof {
        lemma_names_scanned(chars@);
    }
    spans
}

fn anchor_of(chars: &Vec<char>) -> (a: Anchor)
    ensures
        a == anchor(chars@),
{
    if chars.len() > 0 && chars[0] == '/' {
        Anchor::Root
    } else if chars.len() > 0 && chars[0] == '.' && (chars.len() == 1 || chars[1] == '/') {
        Anchor::Current
    } else {
        Anchor::Free
    }
}

/// Whether `s` is a name without a separator in it.
pub open spec fn is_plain_name(s: Seq<char>) -> bool {
    is_name(s) && forall|i: int| 0 <= i < s.len() ==> s[i] != '/'
}

proof fn lemma_scan_plain(p: Seq<char>)
    ensures
        forall|k: int| 0 <= k < scan(p).0.len() ==> is_plain_name(#[trigger] scan(p).0[k]),
        forall|i: int| 0 <= i < scan(p).1.len() ==> scan(p).1[i] != '/',
    decreases p.len(),
{
    if p.len() > 0 {
        let before = scan(p.drop_last());
        lemma_scan_plain(p.drop_last());
        if p.last() == '/' {
            assert forall|k: int| 0 <= k < scan(p).0.len() implies is_plain_name(
                #[trigger] scan(p).0[k],
            ) by {
                if k < before.0.len() {
                    assert(is_plain_name(before.0[k]));
                } else {
                    assert(scan(p).0[k] == before.1);
                }
            }
        } else {
            assert forall|i: int| 0 <= i < scan(p).1.len() implies scan(p).1[i] != '/' by {
                if i < before.1.len() {
                    assert(before.1[i] != '/');
                }
            }
        }
    }
}

/// Every name of a path is non-empty, is not `.`, and holds no separator.
pub proof fn lemma_names_are_plain(p: Seq<char>)
    ensures
        forall|k: int| 0 <= k < names(p).len() ==> is_plain_name(#[trigger] names(p)[k]),
{
    lemma_scan_plain(p);
    lemma_names_scanned(p);
}

fn spans_equal(a: &Vec<char>, sa: (usize, usize), b: &Vec<char>, sb: (usize, usize)) -> (same: bool)
    requires
        sa.0 <= sa.1 <= a.len(),
        sb.0 <= sb.1 <= b.len(),
    ensures
        same == (a@.subrange(sa.0 as int, sa.1 as int) == b@.subrange(sb.0 as int, sb.1 as int)),
{
    let ghost left = a@.subrange(sa.0 as int, sa.1 as int);
    let ghost right = b@.subrange(sb.0 as int, sb.1 as int);
    let n = sa.1 - sa.0;
    if sb.1 - sb.0 != n {
        assert(left.len() != right.len());
        return false;
    }
    let mut i: usize = 0;
    while i < n
        invariant
            i <= n,
            n == sa.1 - sa.0,
            n == sb.1 - sb.0,
            sa.1 <= a.len(),
            sb.1 <= b.len(),
            left == a@.subrange(sa.0 as int, sa.1 as int),
            right == b@.subrange(sb.0 as int, sb.1 as int),
            forall|j: int| 0 <= j < i ==> left[j] == right[j],
        decreases n - i,
    {
        if a[sa.0 + i] != b[sb.0 + i] {
            assert(left[i as int] != right[i as int]);
            return false;
        }
        i += 1;
    }
    assert(left =~= right);
    true
}

/// Whether the names cut by `bs` are the first of the names cut by `ps`.
fn names_start_with(
    pc: &Vec<char>,
    ps: &Vec<(usize, usize)>,
    bc: &Vec<char>,
    bs: &Vec<(usize, usize)>,
    Ghost(pn): Ghost<Seq<Seq<char>>>,
    Ghost(bn): Ghost<Seq<Seq<char>>>,
) -> (b: bool)
    requires
        spans_cut(pc@, ps@, pn),
        spans_cut(bc@, bs@, bn),
    ensures
        b == bn.is_prefix_of(pn),
{
    if bs.len() > ps.len() {
        return false;
    }
    let mut k: usize = 0;
    while k < bs.len()
        invariant
            k <= bs.len() <= ps.len(),
            spans_cut(pc@, ps@, pn),
            spans_cut(bc@, bs@, bn),
            forall|j: int| 0 <= j < k ==> bn[j] == pn[j],
        decreases bs.len() - k,
    {
        if !spans_equal(pc, ps[k], bc, bs[k]) {
            assert(bn[k as int] != pn.subrange(0, bn.len() as int)[k as int]);
            return false;
        }
        k += 1;
    }
    assert(bn =~= pn.subrange(0, bn.len() as int));
    true
}

/// Tells whether `base` is a prefix of `p`, counting whole components only.
pub fn starts_with(p: &str, base: &str) -> (b: bool)
    ensures
        b == spec_starts_with(p@, base@),
{
    let pc = chars_of(p);
    let bc = chars_of(base);
    let pa = anchor_of(&pc);
    let ba = anchor_of(&bc);
    let ps = name_spans(&pc);
    let bs = name_spans(&bc);
    let ghost pn = names(p@);
    let ghost bn = names(base@);
    let ghost pm = Seq::new(pn.len(), |i: int| Component::Name(pn[i]));
    let ghost bm = Seq::new(bn.len(), |i: int| Component::Name(bn[i]));
    let ghost pcs = components(p@);
    let ghost bcs = components(base@);
    assert(pcs == anchor_components(pa) + pm);
    assert(bcs == anchor_components(ba) + bm);
    if ba == pa {
        let same = names_start_with(&pc, &ps, &bc, &bs, Ghost(pn), Ghost(bn));
        proof {
            let h = anchor_components(pa).len() as int;
            if same {
                assert(bn =~= pn.subrange(0, bn.len() as int));
                assert(bcs =~= pcs.subrange(0, bcs.len() as int));
            } else if bn.len() <= pn.len() {
                if bcs.is_prefix_of(pcs) {
                    assert forall|j: int| 0 <= j < bn.len() implies bn[j] == pn[j] by {
                        assert(bcs[h + j] == pcs.subrange(0, bcs.len() as int)[h + j]);
                        assert(bm[j] == pm[j]);
                    }
                    assert(bn =~= pn.subrange(0, bn.len() as int));
                }
            }
        }
        same
    } else {
        match ba {
            Anchor::Free => {
                let empty = bs.len() == 0;
                proof {
                    if empty {
                        assert(bcs =~= pcs.subrange(0, 0));
                    } else if bcs.is_prefix_of(pcs) {
                        assert(bcs[0] == pcs.subrange(0, bcs.len() as int)[0]);
                    }
                }
                empty
            },
            _ => {
                proof {
                    if bcs.is_prefix_of(pcs) {
                        assert(bcs[0] == pcs.subrange(0, bcs.len() as int)[0]);
                    }
                }
                false
            },
        }
    }
}

/// Rewrites `p` in its normal form.
pub fn normalize(p: &str) -> (key: Vec<char>)
    ensures
        key@ == normal_form(p@),
{
    let chars = chars_of(p);
    let a = anchor_of(&chars);
    let spans = name_spans(&chars);
    let mut key: Vec<char> = Vec::new();
    match a {
        Anchor::Root => {
            key.push('/');
        },
        Anchor::Current => {
            key.push('.');
        },
        Anchor::Free => {},
    }
    assert(key@ =~= anchor_text(a));
    let ghost all = names(p@);
    proof {
        lemma_names_are_plain(p@);
        assert(all.take(0) =~= Seq::<Seq<char>>::empty());
    }
    let mut k: usize = 0;
    while k < spans.len()
        invariant
            k <= spans.len(),
            chars@ == p@,
            all == names(p@),
            spans_cut(chars@, spans@, all),
            forall|j: int| 0 <= j < all.len() ==> is_plain_name(#[trigger] all[j]),
            key@ == render(anchor_text(a), all.take(k as int)),
        decreases spans.len() - k,
    {
        let from = spans[k].0;
        let to = spans[k].1;
        let ghost before = key@;
        let ghost name = all[k as int];
        assert(is_plain_name(name));
        assert(all.take(k as int + 1).drop_last() =~= all.take(k as int));
        assert(all.take(k as int + 1).last() == name);
        if key.len() > 0 && key[key.len() - 1] != '/' {
            key.push('/');
        }
        let ghost joint = key@;
        let mut j: usize = from;
        while j < to
            invariant
                from <= j <= to <= chars.len(),
                key@ == joint + chars@.subrange(from as int, j as int),
            decreases to - j,
        {
            key.push(chars[j]);
            assert(chars@.subrange(from as int, j as int + 1) =~= chars@.subrange(
                from as int,
                j as int,
            ).push(chars@[j as int]));
            j += 1;
        }
        assert(key@ =~= spec_join(before, name));
        k += 1;
    }
    assert(all.take(k as int) =~= all);
    key
}

/// Extends `base` by `rel`.
pub fn join(base: &str, rel: &str) -> (joined: String)
    ensures
        joined@ == spec_join(base@, rel@),
{
    if rel.unicode_len() > 0 && rel.get_char(0) == '/' {
        return String::from_str(rel);
    }
    let n = base.unicode_len();
    let mut joined = String::from_str(base);
    if n > 0 && base.get_char(n - 1) != '/' {
        proof {
            reveal_strlit("/");
        }
        joined.append("/");
        assert(joined@ =~= base@ + seq!['/']);
    }
    joined.append(rel);
    joined
}

proof fn lemma_last_dot(name: Seq<char>, d: int)
    requires
        -1 <= d < name.len(),
        d >= 0 ==> name[d] == '.',
        forall|j: int| d < j < name.len() ==> name[j] != '.',
    ensures
        last_dot(name) == d,
    decreases name.len(),
{
    if name.len() > 0 && name.last() != '.' {
        lemma_last_dot(name.drop_last(), d);
    }
}

/// The extension of the file that `p` names, without its dot.
pub fn extension(p: &str) -> (ext: Option<String>)
    ensures
        text_of(ext) == spec_extension(p@),
{
    let chars = chars_of(p);
    let spans = name_spans(&chars);
    if spans.len() == 0 {
        return None;
    }
    let from = spans[spans.len() - 1].0;
    let to = spans[spans.len() - 1].1;
    let ghost name = names(p@).last();
    assert(name == chars@.subrange(from as int, to as int));
    assert(spans@[spans.len() - 1].1 <= chars.len());
    if to - from == 2 && chars[from] == '.' && chars[from + 1] == '.' {
        assert(name =~= seq!['.', '.']);
        return None;
    }
    assert(name != seq!['.', '.']) by {
        if name == seq!['.', '.'] {
            assert(name.len() == 2 && name[0] == '.' && name[1] == '.');
        }
    }
    let mut i: usize = to;
    while i > from
        invariant
            from <= i <= to <= chars.len(),
            chars@ == p@,
            spec_file_name(p@) == Some(name),
            name == chars@.subrange(from as int, to as int),
            forall|j: int| i - from <= j < name.len() ==> name[j] != '.',
        decreases i,
    {
        i -= 1;
        if chars[i] == '.' {
            proof {
                lemma_last_dot(name, i - from);
            }
            if i == from {
                return None;
            }
            let found = p.substring_char(i + 1, to);
            assert(found@ =~= name.subrange(last_dot(name) + 1, name.len() as int));
            return Some(String::from_str(found));
        }
    }
    proof {
        lemma_last_dot(name, -1);
    }
    None
}

/// Tells whether the last segment of `p` holds a `.`.
pub fn looks_like_file(p: &str) -> (b: bool)
    ensures
        b == spec_looks_like_file(p@),
{
    let chars = chars_of(p);
    let mut i: usize = chars.len();
    while i > 0
        invariant
            i <= chars.len(),
            chars@ == p@,
            forall|j: int| i <= j < chars.len() ==> chars@[j] != '/' && chars@[j] != '.',
        decreases i,
    {
        i -= 1;
        if chars[i] == '.' {
            assert(p@[i as int] == '.');
            return true;
        }
        if chars[i] == '/' {
            assert(!spec_looks_like_file(p@)) by {
                if spec_looks_like_file(p@) {
                    let w = choose|w: int|
                        0 <= w < p@.len() && #[trigger] p@[w] == '.' && forall|j: int|
                            w < j < p@.len() ==> #[trigger] p@[j] != '/';
                    if w < i {
                        assert(p@[i as int] != '/');
                    }
                }
            }
            return false;
        }
    }
    false
}

/// `p` without its first `n` characters.
pub fn skip_chars(p: &str, n: usize) -> (rest: &str)
    ensures
        rest@ == spec_skip(p@, n as int),
{
    let len = p.unicode_len();
    if n < len {
        p.substring_char(n, len)
    } else {
        let rest = p.substring_char(len, len);
        assert(rest@ =~= Seq::<char>::empty());
        rest
    }
}

proof fn lemma_scan_push(s: Seq<char>, c: char)
    ensures
        c == '/' ==> scan(s.push(c)) == (close_segment(scan(s).0, scan(s).1), Seq::<char>::empty()),
        c != '/' ==> scan(s.push(c)) == (scan(s).0, scan(s).1.push(c)),
{
    assert(s.push(c).drop_last() =~= s);
}

proof fn lemma_scan_append(s: Seq<char>, name: Seq<char>)
    requires
        forall|i: int| 0 <= i < name.len() ==> name[i] != '/',
    ensures
        scan(s + name) == (scan(s).0, scan(s).1 + name),
    decreases name.len(),
{
    if name.len() == 0 {
        assert(s + name =~= s);
        assert(scan(s).1 + name =~= scan(s).1);
    } else {
        let front = name.drop_last();
        lemma_scan_append(s, front);
        lemma_scan_push(s + front, name.last());
        assert((s + front).push(name.last()) =~= s + name);
        assert((scan(s).1 + front).push(name.last()) =~= scan(s).1 + name);
    }
}

/// What reading a rendered path gives, and how the path starts.
spec fn rendered(a: Anchor, ns: Seq<Seq<char>>) -> bool {
    let r = render(anchor_text(a), ns);
    &&& anchor(r) == a
    &&& scanned(r) == ns
    &&& ns.len() > 0 ==> scan(r) == (ns.drop_last(), ns.last()) && r.len() > 0 && r.last() != '/'
    &&& ns.len() > 0 && a == Anchor::Current ==> r.len() >= 2 && r[1] == '/'
    &&& ns.len() > 0 && a == Anchor::Free ==> r.len() >= ns[0].len() && r.subrange(0, ns[0].len() as int)
        == ns[0]
}

proof fn lemma_rendered(a: Anchor, ns: Seq<Seq<char>>)
    requires
        forall|k: int| 0 <= k < ns.len() ==> is_plain_name(#[trigger] ns[k]),
    ensures
        rendered(a, ns),
    decreases ns.len(),
{
    let head = anchor_text(a);
    if ns.len() == 0 {
        assert(render(head, ns) == head);
        match a {
            Anchor::Root => {
                lemma_scan_push(Seq::<char>::empty(), '/');
                assert(Seq::<char>::empty().push('/') =~= head);
                assert(scanned(head) =~= ns);
            },
            Anchor::Current => {
                lemma_scan_push(Seq::<char>::empty(), '.');
                assert(Seq::<char>::empty().push('.') =~= head);
                assert(scan(head).1 =~= seq!['.']);
                assert(scanned(head) =~= ns);
            },
            Anchor::Free => {
                assert(scanned(head) =~= ns);
            },
        }
    } else {
        let front = ns.drop_last();
        let name = ns.last();
        let r = render(head, front);
        let next = render(head, ns);
        assert(is_plain_name(name));
        assert forall|k: int| 0 <= k < front.len() implies is_plain_name(#[trigger] front[k]) by {
            assert(front[k] == ns[k]);
        }
        lemma_rendered(a, front);
        assert(next == spec_join(r, name));
        if r.len() == 0 || r.last() == '/' {
            assert(front.len() == 0);
            assert(next == r + name);
            lemma_scan_append(r, name);
            if a == Anchor::Root {
                lemma_scan_push(Seq::<char>::empty(), '/');
                assert(Seq::<char>::empty().push('/') =~= r);
            }
            assert(scan(r).0 =~= Seq::<Seq<char>>::empty());
            assert(scan(r).1 =~= Seq::<char>::empty());
            assert(scan(r).1 + name =~= name);
        } else {
            assert(next == r + seq!['/'] + name);
            lemma_scan_push(r, '/');
            assert(r.push('/') =~= r + seq!['/']);
            lemma_scan_append(r + seq!['/'], name);
            assert(Seq::<char>::empty() + name =~= name);
            if front.len() == 0 {
                assert(a == Anchor::Current);
                lemma_scan_push(Seq::<char>::empty(), '.');
                assert(Seq::<char>::empty().push('.') =~= r);
                assert(scan(r).1 =~= seq!['.']);
                assert(close_segment(scan(r).0, scan(r).1) =~= Seq::<Seq<char>>::empty());
            } else {
                assert(close_segment(scan(r).0, scan(r).1) =~= front);
            }
        }
        assert(scan(next).0 =~= front);
        assert(scan(next).1 == name);
        assert(scanned(next) =~= ns);
        assert(next.last() == name.last());
        if a == Anchor::Free {
            if front.len() == 0 {
                assert(next =~= name);
                assert(next.subrange(0, name.len() as int) =~= name);
            } else {
                assert(ns[0] == front[0]);
                assert(next.subrange(0, ns[0].len() as int) =~= r.subrange(0, ns[0].len() as int));
            }
            let first = ns[0];
            assert(is_plain_name(first));
            assert(next[0] == first[0]);
            if first[0] == '.' {
                if first.len() == 1 {
                    assert(first =~= seq!['.']);
                } else {
                    assert(next[1] == next.subrange(0, first.len() as int)[1]);
                }
            }
        } else if a == Anchor::Current {
            if front.len() == 0 {
                assert(r =~= seq!['.']);
            }
            assert(next[0] == r[0]);
        } else {
            assert(next[0] == r[0]);
        }
    }
}

/// The normal form of a path has the components of the path: writing a
/// path in its normal form changes its spelling and nothing else.
pub proof fn lemma_normal_form_keeps_components(p: Seq<char>)
    ensures
        anchor(normal_form(p)) == anchor(p),
        names(normal_form(p)) == names(p),
        components(normal_form(p)) == components(p),
        normal_form(normal_form(p)) == normal_form(p),
{
    lemma_names_are_plain(p);
    lemma_rendered(anchor(p), names(p));
    lemma_names_scanned(normal_form(p));
}

/// Two paths have the same normal form exactly where they have the same
/// components.
pub proof fn lemma_normal_form_by_components(p: Seq<char>, q: Seq<char>)
    ensures
        normal_form(p) == normal_form(q) <==> components(p) == components(q),
{
    lemma_normal_form_keeps_components(p);
    lemma_normal_form_keeps_components(q);
    if components(p) == components(q) {
        let pm = Seq::new(names(p).len(), |i: int| Component::Name(names(p)[i]));
        let qm = Seq::new(names(q).len(), |i: int| Component::Name(names(q)[i]));
        let ph = anchor_components(anchor(p));
        let qh = anchor_components(anchor(q));
        assert(components(p) == ph + pm);
        assert(components(q) == qh + qm);
        if anchor(p) != anchor(q) {
            if ph.len() > 0 && qh.len() > 0 {
                assert((ph + pm)[0] == ph[0]);
                assert((qh + qm)[0] == qh[0]);
            } else if ph.len() > 0 {
                assert((ph + pm)[0] == ph[0]);
                if qm.len() > 0 {
                    assert((qh + qm)[0] == qm[0]);
                }
            } else {
                assert((qh + qm)[0] == qh[0]);
                if pm.len() > 0 {
                    assert((ph + pm)[0] == pm[0]);
                }
            }
            assert(false);
        }
        assert(names(p).len() == names(q).len());
        assert forall|i: int| 0 <= i < names(p).len() implies names(p)[i] == names(q)[i] by {
            assert((ph + pm)[ph.len() + i] == pm[i]);
            assert((qh + qm)[qh.len() + i] == qm[i]);
        }
        assert(names(p) =~= names(q));
    }
}

} // verus!
