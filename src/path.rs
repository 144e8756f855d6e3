use vstd::prelude::*;
use vstd::string::*;

verus! {

/// The path of the entry `key` inside the directory `base`.
pub open spec fn join(base: Seq<char>, key: Seq<char>) -> Seq<char> {
    base + seq!['/'] + key
}

/// The index of the last `c` in `p[lo..hi]`, or -1 when there is none.
pub open spec fn last_index(p: Seq<char>, c: char, lo: int, hi: int) -> int
    decreases hi - lo,
{
    if hi <= lo {
        -1
    } else if p[hi - 1] == c {
        hi - 1
    } else {
        last_index(p, c, lo, hi - 1)
    }
}

/// Where the last component of `p` starts.
pub open spec fn name_start(p: Seq<char>) -> int {
    last_index(p, '/', 0, p.len() as int) + 1
}

/// Where the stem of the last component ends: at its last dot, unless that dot
/// opens the component (a hidden name such as `.meta`), else at the end.
pub open spec fn stem_end(p: Seq<char>) -> int {
    let d = last_index(p, '.', name_start(p) + 1, p.len() as int);
    if d >= 0 { d } else { p.len() as int }
}

/// `p` with the extension of its last component replaced by `ext`.
pub open spec fn with_ext(p: Seq<char>, ext: Seq<char>) -> Seq<char> {
    p.subrange(0, stem_end(p)) + if ext.len() == 0 { Seq::empty() } else { seq!['.'] + ext }
}

proof fn lemma_last_index_bounds(p: Seq<char>, c: char, lo: int, hi: int)
    requires
        0 <= lo,
        hi <= p.len(),
    ensures
        last_index(p, c, lo, hi) == -1 || (lo <= last_index(p, c, lo, hi) < hi && p[last_index(
            p,
            c,
            lo,
            hi,
        )] == c),
    decreases hi - lo,
{
    if hi > lo && p[hi - 1] != c {
        lemma_last_index_bounds(p, c, lo, hi - 1);
    }
}

/// The index of the last `c` in `s[lo..hi]`, or -1.
fn find_last(s: &str, c: char, lo: usize, hi: usize) -> (r: i64)
    requires
        hi <= s@.len(),
        s@.len() < 0x7fff_ffff_ffff_ffff,
    ensures
        r as int == last_index(s@, c, lo as int, hi as int),
{
    let mut i: usize = hi;
    while i > lo
        invariant
            i <= hi <= s@.len() < 0x7fff_ffff_ffff_ffff,
            last_index(s@, c, lo as int, hi as int) == last_index(s@, c, lo as int, i as int),
        decreases i,
    {
        if s.get_char(i - 1) == c {
            return (i - 1) as i64;
        }
        i = i - 1;
    }
    -1
}

/// The path of the entry `key` inside the directory `base`.
pub fn join_path(base: &str, key: &str) -> (r: String)
    ensures
        r@ == join(base@, key@),
{
    let mut r = base.to_string();
    proof {
        reveal_strlit("/");
    }
    r.append("/");
    r.append(key);
    r
}

/// `path` with the extension of its last component replaced by `ext` (none
/// when `ext` is empty); a name without an extension gains one.
pub fn with_extension(path: &str, ext: &str) -> (r: String)
    requires
        path@.len() < 0x7fff_ffff_ffff_ffff,
    ensures
        r@ == with_ext(path@, ext@),
{
    let len = path.unicode_len();
    let slash = find_last(path, '/', 0, len);
    proof {
        lemma_last_index_bounds(path@, '/', 0, len as int);
    }
    let start = (slash + 1) as usize;
    let from = if start < len {
        start + 1
    } else {
        len
    };
    let dot = find_last(path, '.', from, len);
    proof {
        lemma_last_index_bounds(path@, '.', from as int, len as int);
        assert(last_index(path@, '.', from as int, len as int) == last_index(
            path@,
            '.',
            start + 1,
            len as int,
        ));
    }
    let end: usize = if dot >= 0 {
        dot as usize
    } else {
        len
    };
    let mut r = path.substring_char(0, end).to_string();
    if ext.unicode_len() > 0 {
        proof {
            reveal_strlit(".");
        }
        r.append(".");
        r.append(ext);
    }
    assert(r@ =~= with_ext(path@, ext@));
    r
}

} // verus!
