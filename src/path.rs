use std::cmp::Ordering;
use vstd::prelude::*;
use vstd::string::StrSliceExecFns;
use crate::value_type::{int_cmp, text_cmp};

verus! {

/// One component of a path: its kind (1 for the root, 2 for a leading `.`,
/// 3 for `..`, 4 for a name) and, for a name, its characters.
#[derive(Debug, PartialEq, Eq, Hash)]
pub struct PathPart {
    pub kind: u8,
    pub name: Vec<char>,
}

pub open spec fn parts_view(v: Seq<PathPart>) -> Seq<(nat, Seq<char>)> {
    Seq::new(v.len(), |i: int| (v[i].kind as nat, v[i].name@))
}

/// The components that one `/`-separated segment contributes: the first
/// segment gives the root when empty and followed by `/`, and the current
/// directory when it is `.`; later, empty and `.` segments give nothing,
/// `..` the parent, and anything else a name.
pub open spec fn segment_parts(seg: Seq<char>, first: bool, by_slash: bool) -> Seq<(nat, Seq<char>)> {
    if first && seg.len() == 0 {
        if by_slash { seq![(1nat, Seq::<char>::empty())] } else { Seq::empty() }
    } else if first && seg == seq!['.'] {
        seq![(2nat, Seq::<char>::empty())]
    } else if seg.len() == 0 || seg == seq!['.'] {
        Seq::empty()
    } else if seg == seq!['.', '.'] {
        seq![(3nat, Seq::<char>::empty())]
    } else {
        seq![(4nat, seg)]
    }
}

/// Reading a path from the left: the components of the segments finished so
/// far, the segment being read, and whether it is the first one.
pub open spec fn scan_path(p: Seq<char>) -> (Seq<(nat, Seq<char>)>, Seq<char>, bool)
    decreases p.len(),
{
    if p.len() == 0 {
        (Seq::empty(), Seq::empty(), true)
    } else {
        let (parts, cur, first) = scan_path(p.drop_last());
        if p.last() == '/' {
            (parts + segment_parts(cur, first, true), Seq::empty(), false)
        } else {
            (parts, cur.push(p.last()), first)
        }
    }
}

/// The components of a path, as a Unix path splits into them.
pub open spec fn path_components(p: Seq<char>) -> Seq<(nat, Seq<char>)> {
    let (parts, cur, first) = scan_path(p);
    parts + segment_parts(cur, first, false)
}

/// Order of two components: by kind, then names by code point.
pub open spec fn part_cmp(a: (nat, Seq<char>), b: (nat, Seq<char>)) -> Ordering {
    let c = int_cmp(a.0 as int, b.0 as int);
    if c == Ordering::Equal { text_cmp(a.1, b.1) } else { c }
}

/// Lexicographic order of two lists of components from position `i` on.
pub open spec fn parts_cmp(x: Seq<(nat, Seq<char>)>, y: Seq<(nat, Seq<char>)>, i: int) -> Ordering
    decreases x.len() - i,
{
    if i < 0 || i >= x.len() {
        if i >= 0 && i < y.len() { Ordering::Less } else { Ordering::Equal }
    } else if i >= y.len() {
        Ordering::Greater
    } else {
        let c = part_cmp(x[i], y[i]);
        if c == Ordering::Equal { parts_cmp(x, y, i + 1) } else { c }
    }
}

/// The order of two paths: component by component.
pub open spec fn path_cmp(a: Seq<char>, b: Seq<char>) -> Ordering {
    parts_cmp(path_components(a), path_components(b), 0)
}

fn push_segment(seg: Vec<char>, first: bool, by_slash: bool, out: &mut Vec<PathPart>)
    ensures
        parts_view(final(out)@) == parts_view(old(out)@) + segment_parts(seg@, first, by_slash),
{
    let is_dot = seg.len() == 1 && seg[0] == '.';
    let is_dotdot = seg.len() == 2 && seg[0] == '.' && seg[1] == '.';
    if is_dot {
        assert(seg@ =~= seq!['.']);
    } else {
        assert(seg@ != seq!['.']) by {
            if seg@ == seq!['.'] {
                assert(seg@.len() == 1 && seg@[0] == '.');
            }
        };
    }
    if is_dotdot {
        assert(seg@ =~= seq!['.', '.']);
    } else {
        assert(seg@ != seq!['.', '.']) by {
            if seg@ == seq!['.', '.'] {
                assert(seg@.len() == 2 && seg@[0] == '.' && seg@[1] == '.');
            }
        };
    }
    let kind: u8 = if first && seg.len() == 0 {
        if by_slash { 1 } else { 0 }
    } else if first && is_dot {
        2
    } else if seg.len() == 0 || is_dot {
        0
    } else if is_dotdot {
        3
    } else {
        4
    };
    if kind == 4 {
        out.push(PathPart { kind, name: seg });
        assert(parts_view(out@) =~= parts_view(old(out)@) + segment_parts(seg@, first, by_slash));
    } else if kind != 0 {
        out.push(PathPart { kind, name: Vec::new() });
        assert(parts_view(out@) =~= parts_view(old(out)@) + segment_parts(seg@, first, by_slash));
    } else {
        assert(parts_view(out@) =~= parts_view(old(out)@) + segment_parts(seg@, first, by_slash));
    }
}

/// Splits a path into its components.
pub fn components(p: &str) -> (r: Vec<PathPart>)
    ensures
        parts_view(r@) == path_components(p@),
{
    let n = p.unicode_len();
    let mut out: Vec<PathPart> = Vec::new();
    let mut cur: Vec<char> = Vec::new();
    let mut first = true;
    let mut i: usize = 0;
    while i < n
        invariant
            n == p@.len(),
            i <= n,
            scan_path(p@.subrange(0, i as int)) == (parts_view(out@), cur@, first),
        decreases n - i,
    {
        let c = p.get_char(i);
        assert(p@.subrange(0, i + 1).drop_last() =~= p@.subrange(0, i as int));
        assert(p@.subrange(0, i + 1).last() == c);
        if c == '/' {
            let seg = cur;
            cur = Vec::new();
            push_segment(seg, first, true, &mut out);
            first = false;
            assert(cur@ =~= Seq::<char>::empty());
        } else {
            cur.push(c);
        }
        i = i + 1;
    }
    assert(p@.subrange(0, n as int) =~= p@);
    push_segment(cur, first, false, &mut out);
    out
}

fn compare_chars(a: &Vec<char>, b: &Vec<char>) -> (r: Ordering)
    ensures
        r == text_cmp(a@, b@),
{
    let la = a.len();
    let lb = b.len();
    let mut i: usize = 0;
    assert(a@.subrange(0, la as int) =~= a@);
    assert(b@.subrange(0, lb as int) =~= b@);
    while i < la && i < lb
        invariant
            la == a@.len(),
            lb == b@.len(),
            i <= la,
            i <= lb,
            text_cmp(a@, b@) == text_cmp(a@.subrange(i as int, la as int), b@.subrange(i as int, lb as int)),
        decreases la - i,
    {
        let ghost sa = a@.subrange(i as int, la as int);
        let ghost sb = b@.subrange(i as int, lb as int);
        assert(sa.drop_first() =~= a@.subrange(i + 1, la as int));
        assert(sb.drop_first() =~= b@.subrange(i + 1, lb as int));
        if (a[i] as u32) < (b[i] as u32) {
            return Ordering::Less;
        } else if (a[i] as u32) > (b[i] as u32) {
            return Ordering::Greater;
        }
        i = i + 1;
    }
    if i < la {
        Ordering::Greater
    } else if i < lb {
        Ordering::Less
    } else {
        Ordering::Equal
    }
}

fn compare_parts(x: &Vec<PathPart>, y: &Vec<PathPart>, i: usize) -> (r: Ordering)
    requires
        i <= x@.len(),
    ensures
        r == parts_cmp(parts_view(x@), parts_view(y@), i as int),
    decreases x@.len() - i,
{
    if i >= x.len() {
        if i < y.len() { Ordering::Less } else { Ordering::Equal }
    } else if i >= y.len() {
        Ordering::Greater
    } else {
        let c = if x[i].kind < y[i].kind {
            Ordering::Less
        } else if x[i].kind > y[i].kind {
            Ordering::Greater
        } else {
            compare_chars(&x[i].name, &y[i].name)
        };
        match c {
            Ordering::Equal => compare_parts(x, y, i + 1),
            _ => c,
        }
    }
}

/// Orders two paths component by component.
pub fn compare_paths(a: &str, b: &str) -> (r: Ordering)
    ensures
        r == path_cmp(a@, b@),
{
    let x = components(a);
    let y = components(b);
    compare_parts(&x, &y, 0)
}

}
