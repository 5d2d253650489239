//! Resolution of a raw image path against the book's source root and the
//! directory of the chapter the reference appears in.
//!
//! Paths are plain byte strings with `/` as the separator. `parent_dir` is
//! textual: everything before the last `/`, or empty when there is none.
//! `join_path` follows the usual relative-path join rules: an absolute right
//! side replaces the left side, an empty left side yields the right side, and
//! otherwise the two are joined with a single separator.
use vstd::prelude::*;

verus! {

/// Index of the last occurrence of `b` in `s`, if any.
pub open spec fn rfind_byte(s: Seq<u8>, b: u8) -> Option<int>
    decreases s.len(),
{
    if s.len() == 0 {
        None
    } else if s[s.len() - 1] == b {
        Some(s.len() - 1)
    } else {
        rfind_byte(s.drop_last(), b)
    }
}

/// The directory part of a chapter file path: the bytes before the last `/`,
/// or empty when the path has no separator.
pub open spec fn parent_dir_spec(p: Seq<u8>) -> Seq<u8> {
    match rfind_byte(p, 47u8) {
        Some(j) => p.subrange(0, j),
        None => Seq::empty(),
    }
}

/// Join of two relative paths: `b` if it is absolute or `a` is empty,
/// otherwise `a` and `b` separated by exactly one `/`.
pub open spec fn join_path_spec(a: Seq<u8>, b: Seq<u8>) -> Seq<u8> {
    if b.len() > 0 && b[0] == 47u8 {
        b
    } else if a.len() == 0 {
        b
    } else if a[a.len() - 1] == 47u8 {
        a + b
    } else {
        a + seq![47u8] + b
    }
}

/// The file path of a chapter, or empty for a chapter without one.
pub open spec fn chapter_file_spec(p: Option<Seq<u8>>) -> Seq<u8> {
    match p {
        Some(s) => s,
        None => Seq::empty(),
    }
}

/// Where on disk a raw image path points: the source root, then the
/// chapter's directory, then the raw path, joined in that order.
pub open spec fn resolved_path_spec(src: Seq<u8>, chapter_path: Option<Seq<u8>>, url: Seq<u8>) -> Seq<
    u8,
> {
    join_path_spec(src, join_path_spec(parent_dir_spec(chapter_file_spec(chapter_path)), url))
}

/// Copies `v[start..end]` into a fresh vector.
pub fn copy_range(v: &Vec<u8>, start: usize, end: usize) -> (r: Vec<u8>)
    requires
        start <= end <= v.len(),
    ensures
        r@ == v@.subrange(start as int, end as int),
{
    let mut r: Vec<u8> = Vec::new();
    let mut i: usize = start;
    while i < end
        invariant
            start <= i <= end <= v.len(),
            r@ == v@.subrange(start as int, i as int),
        decreases end - i,
    {
        r.push(v[i]);
        assert(r@ =~= v@.subrange(start as int, i as int + 1));
        i = i + 1;
    }
    r
}

/// A fresh copy of `v` with the same bytes.
pub fn clone_bytes(v: &Vec<u8>) -> (r: Vec<u8>)
    ensures
        r@ == v@,
{
    let r = copy_range(v, 0, v.len());
    assert(r@ =~= v@);
    r
}

/// The directory of the file at `p`: the bytes before the last `/`, or empty.
pub fn parent_dir(p: &Vec<u8>) -> (r: Vec<u8>)
    ensures
        r@ == parent_dir_spec(p@),
{
    let mut j: usize = p.len();
    while j > 0
        invariant
            j <= p.len(),
            forall|k: int| j <= k < p@.len() ==> p@[k] != 47u8,
        decreases j,
    {
        if p[j - 1] == 47u8 {
            proof {
                lemma_rfind_byte_some(p@, 47u8, j - 1);
            }
            return copy_range(p, 0, j - 1);
        }
        j = j - 1;
    }
    proof {
        lemma_rfind_byte_none(p@, 47u8);
    }
    let r: Vec<u8> = Vec::new();
    assert(r@ =~= parent_dir_spec(p@));
    r
}

/// When `s[j] == b` and nothing after `j` is `b`, the last occurrence is `j`.
proof fn lemma_rfind_byte_some(s: Seq<u8>, b: u8, j: int)
    requires
        0 <= j < s.len(),
        s[j] == b,
        forall|k: int| j < k < s.len() ==> s[k] != b,
    ensures
        rfind_byte(s, b) == Some(j),
    decreases s.len(),
{
    if j < s.len() - 1 {
        assert(forall|k: int| 0 <= k < s.len() - 1 ==> s.drop_last()[k] == s[k]);
        lemma_rfind_byte_some(s.drop_last(), b, j);
    }
}

/// When no byte of `s` is `b`, there is no last occurrence.
proof fn lemma_rfind_byte_none(s: Seq<u8>, b: u8)
    requires
        forall|k: int| 0 <= k < s.len() ==> s[k] != b,
    ensures
        rfind_byte(s, b) == None::<int>,
    decreases s.len(),
{
    if s.len() > 0 {
        assert(forall|k: int| 0 <= k < s.len() - 1 ==> s.drop_last()[k] == s[k]);
        lemma_rfind_byte_none(s.drop_last(), b);
    }
}

/// Joins two paths with a single separator, letting an absolute right side
/// replace the left side.
pub fn join_path(a: &Vec<u8>, b: &Vec<u8>) -> (r: Vec<u8>)
    ensures
        r@ == join_path_spec(a@, b@),
{
    if b.len() > 0 && b[0] == 47u8 {
        copy_range(b, 0, b.len())
    } else if a.len() == 0 {
        let r = copy_range(b, 0, b.len());
        assert(r@ =~= join_path_spec(a@, b@));
        r
    } else {
        let mut r = copy_range(a, 0, a.len());
        if a[a.len() - 1] != 47u8 {
            r.push(47u8);
        }
        let mut i: usize = 0;
        while i < b.len()
            invariant
                i <= b.len(),
                a@.len() > 0,
                !(b@.len() > 0 && b@[0] == 47u8),
                r@ == (if a@[a@.len() - 1] == 47u8 {
                    a@
                } else {
                    a@ + seq![47u8]
                }) + b@.subrange(0, i as int),
            decreases b.len() - i,
        {
            r.push(b[i]);
            assert(b@.subrange(0, i as int).push(b@[i as int]) =~= b@.subrange(0, i as int + 1));
            i = i + 1;
        }
        assert(b@.subrange(0, b@.len() as int) =~= b@);
        assert(r@ =~= join_path_spec(a@, b@));
        r
    }
}

/// The resolved filesystem location of a raw image path found in the chapter
/// at `chapter_path`, under the book source root `src`.
pub fn resolved_path(src: &Vec<u8>, chapter_path: &Option<Vec<u8>>, url: &Vec<u8>) -> (r: Vec<u8>)
    ensures
        r@ == resolved_path_spec(src@, opt_path_view(chapter_path), url@),
{
    let dir = match chapter_path {
        Some(p) => parent_dir(p),
        None => Vec::new(),
    };
    assert(dir@ == parent_dir_spec(chapter_file_spec(opt_path_view(chapter_path))));
    let rel = join_path(&dir, url);
    join_path(src, &rel)
}

/// The view of an optional chapter path.
pub open spec fn opt_path_view(p: &Option<Vec<u8>>) -> Option<Seq<u8>> {
    match p {
        Some(v) => Some(v@),
        None => None,
    }
}

} // verus!
