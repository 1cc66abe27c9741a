use vstd::prelude::*;

verus! {

/// Position `i` of `p` begins a segment: it is the start, or follows a `/`.
pub open spec fn segment_starts(p: Seq<char>, i: int) -> bool {
    i == 0 || (0 < i <= p.len() && p[i - 1] == '/')
}

/// Position `j` of `p` ends a segment: it is the end, or holds a `/`.
pub open spec fn segment_ends(p: Seq<char>, j: int) -> bool {
    j == p.len() || (0 <= j < p.len() && p[j] == '/')
}

/// The segment that begins at `i` is empty, `.` or `..`.
pub open spec fn bad_segment_at(p: Seq<char>, i: int) -> bool {
    ||| segment_ends(p, i)
    ||| (i < p.len() && p[i] == '.' && segment_ends(p, i + 1))
    ||| (i + 1 < p.len() && p[i] == '.' && p[i + 1] == '.' && segment_ends(p, i + 2))
}

/// A well-formed storage path: `/`-separated segments, none of them empty, `.`
/// or `..`, and no NUL character. So it is non-empty, relative, and stays below
/// whatever root or bucket it is placed in.
pub open spec fn valid_path(p: Seq<char>) -> bool {
    &&& forall|i: int| 0 <= i <= p.len() && segment_starts(p, i) ==> !bad_segment_at(p, i)
    &&& forall|i: int| 0 <= i < p.len() ==> p[i] != '\0'
}

fn starts_segment(path: &str, n: usize, i: usize) -> (r: bool)
    requires
        n == path@.len(),
        i <= n,
    ensures
        r == segment_starts(path@, i as int),
{
    i == 0 || path.get_char(i - 1) == '/'
}

fn ends_segment(path: &str, n: usize, j: usize) -> (r: bool)
    requires
        n == path@.len(),
        j <= n,
    ensures
        r == segment_ends(path@, j as int),
{
    j == n || path.get_char(j) == '/'
}

fn bad_segment(path: &str, n: usize, i: usize) -> (r: bool)
    requires
        n == path@.len(),
        i <= n,
    ensures
        r == bad_segment_at(path@, i as int),
{
    if ends_segment(path, n, i) {
        return true;
    }
    if path.get_char(i) != '.' {
        return false;
    }
    if ends_segment(path, n, i + 1) {
        return true;
    }
    i + 1 < n && path.get_char(i + 1) == '.' && ends_segment(path, n, i + 2)
}

/// Decides [`valid_path`].
pub fn is_valid_path(path: &str) -> (r: bool)
    ensures
        r == valid_path(path@),
{
    let n = path.unicode_len();
    let mut i: usize = 0;
    while i < n
        invariant
            n == path@.len(),
            i <= n,
            forall|k: int| 0 <= k < i && segment_starts(path@, k) ==> !bad_segment_at(path@, k),
            forall|k: int| 0 <= k < i ==> path@[k] != '\0',
        decreases n - i,
    {
        if starts_segment(path, n, i) && bad_segment(path, n, i) {
            return false;
        }
        if path.get_char(i) == '\0' {
            return false;
        }
        i = i + 1;
    }
    !(starts_segment(path, n, n) && bad_segment(path, n, n))
}

} // verus!
