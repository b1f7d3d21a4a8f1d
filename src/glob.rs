use vstd::prelude::*;
use vstd::string::StrSliceExecFns;

verus! {

/// A shell glob: `*` stands for any run of characters, `?` for any single
/// character, every other character for itself.
#[derive(Clone, Debug)]
pub struct Glob {
    pub pattern: String,
}

/// Whether the glob pattern `p` matches the whole of `t`.
pub open spec fn glob_match(p: Seq<char>, t: Seq<char>) -> bool
    decreases p.len() + t.len(),
{
    if p.len() == 0 {
        t.len() == 0
    } else if p[0] == '*' {
        glob_match(p.drop_first(), t) || (t.len() > 0 && glob_match(p, t.drop_first()))
    } else if t.len() == 0 {
        false
    } else {
        (p[0] == '?' || p[0] == t[0]) && glob_match(p.drop_first(), t.drop_first())
    }
}

fn match_from(p: &str, t: &str, pl: usize, tl: usize, i: usize, j: usize) -> (r: bool)
    requires
        pl == p@.len(),
        tl == t@.len(),
        i <= pl,
        j <= tl,
    ensures
        r == glob_match(p@.subrange(i as int, pl as int), t@.subrange(j as int, tl as int)),
    decreases (pl - i) + (tl - j),
{
    let ghost ps = p@.subrange(i as int, pl as int);
    let ghost ts = t@.subrange(j as int, tl as int);
    if i == pl {
        return j == tl;
    }
    assert(ps.drop_first() =~= p@.subrange(i + 1, pl as int));
    if j < tl {
        assert(ts.drop_first() =~= t@.subrange(j + 1, tl as int));
    }
    let c = p.get_char(i);
    if c == '*' {
        if match_from(p, t, pl, tl, i + 1, j) {
            true
        } else if j < tl {
            match_from(p, t, pl, tl, i, j + 1)
        } else {
            false
        }
    } else if j == tl {
        false
    } else {
        (c == '?' || c == t.get_char(j)) && match_from(p, t, pl, tl, i + 1, j + 1)
    }
}

impl Glob {
    pub fn new(pattern: &str) -> (r: Glob)
        ensures
            r.pattern@ == pattern@,
    {
        Glob { pattern: pattern.to_string() }
    }

    /// Whether this glob matches the whole of `text`.
    pub fn matches(&self, text: &str) -> (r: bool)
        ensures
            r == glob_match(self.pattern@, text@),
    {
        let p = self.pattern.as_str();
        let pl = p.unicode_len();
        let tl = text.unicode_len();
        let r = match_from(p, text, pl, tl, 0, 0);
        assert(p@.subrange(0, pl as int) =~= p@);
        assert(text@.subrange(0, tl as int) =~= text@);
        r
    }
}

}
