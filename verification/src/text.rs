//! Line-oriented view of a chapter body: a byte string is split at `\n` into
//! a sequence of lines, processed line by line, and joined back with `\n`.
//! Splitting and joining are exact inverses, so untouched lines come back
//! byte-identical.
use vstd::prelude::*;

verus! {

/// The smallest index `j >= from` with `s[j] == b`, if any.
pub open spec fn find_from(s: Seq<u8>, from: int, b: u8) -> Option<int>
    decreases s.len() - from,
{
    if from < 0 || from >= s.len() {
        None
    } else if s[from] == b {
        Some(from)
    } else {
        find_from(s, from + 1, b)
    }
}

/// `find_from` returns the first occurrence of `b` at or after `from`.
pub proof fn lemma_find_from(s: Seq<u8>, from: int, b: u8)
    requires
        0 <= from <= s.len(),
    ensures
        match find_from(s, from, b) {
            Some(j) => from <= j < s.len() && s[j] == b && (forall|k: int|
                from <= k < j ==> s[k] != b),
            None => forall|k: int| from <= k < s.len() ==> s[k] != b,
        },
    decreases s.len() - from,
{
    if from < s.len() && s[from] != b {
        lemma_find_from(s, from + 1, b);
    }
}

/// When `s[j] == b` and no byte in `[from, j)` is `b`, the first occurrence
/// at or after `from` is `j`.
pub proof fn lemma_find_from_some(s: Seq<u8>, from: int, b: u8, j: int)
    requires
        0 <= from <= j < s.len(),
        s[j] == b,
        forall|k: int| from <= k < j ==> s[k] != b,
    ensures
        find_from(s, from, b) == Some(j),
    decreases j - from,
{
    if from < j {
        lemma_find_from_some(s, from + 1, b, j);
    }
}

/// When no byte at or after `from` is `b`, there is no occurrence.
pub proof fn lemma_find_from_none(s: Seq<u8>, from: int, b: u8)
    requires
        0 <= from <= s.len(),
        forall|k: int| from <= k < s.len() ==> s[k] != b,
    ensures
        find_from(s, from, b) == None::<int>,
    decreases s.len() - from,
{
    if from < s.len() {
        lemma_find_from_none(s, from + 1, b);
    }
}

/// The lines of `s` from position `pos` on: maximal `\n`-free runs, with the
/// line breaks removed. A trailing `\n` yields a final empty line.
pub open spec fn lines_from(s: Seq<u8>, pos: int) -> Seq<Seq<u8>>
    decreases s.len() - pos,
    via lines_from_decreases
{
    if !(0 <= pos <= s.len()) {
        Seq::empty()
    } else {
        match find_from(s, pos, 10u8) {
            Some(j) => seq![s.subrange(pos, j)] + lines_from(s, j + 1),
            None => seq![s.subrange(pos, s.len() as int)],
        }
    }
}

#[via_fn]
proof fn lines_from_decreases(s: Seq<u8>, pos: int) {
    if 0 <= pos <= s.len() {
        lemma_find_from(s, pos, 10u8);
    }
}

/// The lines of a chapter body.
pub open spec fn lines_of(s: Seq<u8>) -> Seq<Seq<u8>> {
    lines_from(s, 0)
}

/// The lines joined back together, separated by `\n`.
pub open spec fn join_lines(ls: Seq<Seq<u8>>) -> Seq<u8>
    decreases ls.len(),
{
    if ls.len() == 0 {
        Seq::empty()
    } else if ls.len() == 1 {
        ls[0]
    } else {
        ls[0] + seq![10u8] + join_lines(ls.drop_first())
    }
}

/// There is always at least one line, and no line holds a `\n`.
pub proof fn lemma_lines_from_wf(s: Seq<u8>, pos: int)
    requires
        0 <= pos <= s.len(),
    ensures
        lines_from(s, pos).len() >= 1,
        forall|i: int, k: int|
            #![trigger lines_from(s, pos)[i][k]]
            0 <= i < lines_from(s, pos).len() && 0 <= k < lines_from(s, pos)[i].len()
                ==> lines_from(s, pos)[i][k] != 10u8,
    decreases s.len() - pos,
{
    lemma_find_from(s, pos, 10u8);
    match find_from(s, pos, 10u8) {
        Some(j) => {
            lemma_lines_from_wf(s, j + 1);
            let ls = lines_from(s, pos);
            let tail = lines_from(s, j + 1);
            assert(ls[0] == s.subrange(pos, j));
            assert(forall|i: int| 1 <= i < ls.len() ==> ls[i] == tail[i - 1]);
        },
        None => {},
    }
}

/// Joining the lines of `s` gives back `s` itself.
pub proof fn lemma_join_lines_of(s: Seq<u8>, pos: int)
    requires
        0 <= pos <= s.len(),
    ensures
        join_lines(lines_from(s, pos)) == s.subrange(pos, s.len() as int),
    decreases s.len() - pos,
{
    lemma_find_from(s, pos, 10u8);
    match find_from(s, pos, 10u8) {
        Some(j) => {
            lemma_join_lines_of(s, j + 1);
            lemma_lines_from_wf(s, j + 1);
            let ls = lines_from(s, pos);
            let tail = lines_from(s, j + 1);
            assert(ls.drop_first() =~= tail);
            assert(join_lines(ls) == s.subrange(pos, j) + seq![10u8] + s.subrange(
                j + 1,
                s.len() as int,
            ));
            assert(s.subrange(pos, j) + seq![10u8] + s.subrange(j + 1, s.len() as int) =~= s
                .subrange(pos, s.len() as int));
        },
        None => {},
    }
}

/// Appending one more line to a non-empty sequence of lines appends a `\n`
/// and that line to the joined text.
pub proof fn lemma_join_push(ls: Seq<Seq<u8>>, x: Seq<u8>)
    requires
        ls.len() >= 1,
    ensures
        join_lines(ls.push(x)) == join_lines(ls) + seq![10u8] + x,
    decreases ls.len(),
{
    if ls.len() == 1 {
        assert(ls.push(x).drop_first() =~= seq![x]);
        assert(join_lines(seq![x]) == x);
        assert(join_lines(ls.push(x)) == ls[0] + seq![10u8] + x);
    } else {
        lemma_join_push(ls.drop_first(), x);
        assert(ls.push(x).drop_first() =~= ls.drop_first().push(x));
        assert(join_lines(ls.push(x)) == ls[0] + seq![10u8] + join_lines(ls.drop_first().push(x)));
        assert(join_lines(ls) == ls[0] + seq![10u8] + join_lines(ls.drop_first()));
        assert(ls[0] + seq![10u8] + (join_lines(ls.drop_first()) + seq![10u8] + x) =~= (ls[0]
            + seq![10u8] + join_lines(ls.drop_first())) + seq![10u8] + x);
    }
}

/// Splitting joined lines gives the lines back, as long as none of them
/// holds a `\n` and there is at least one.
pub proof fn lemma_lines_of_join(ls: Seq<Seq<u8>>)
    requires
        ls.len() >= 1,
        forall|i: int, k: int|
            #![trigger ls[i][k]]
            0 <= i < ls.len() && 0 <= k < ls[i].len() ==> ls[i][k] != 10u8,
    ensures
        lines_of(join_lines(ls)) == ls,
    decreases ls.len(),
{
    let s = join_lines(ls);
    if ls.len() == 1 {
        lemma_find_from_none(s, 0, 10u8);
        assert(lines_of(s) =~= seq![s.subrange(0, s.len() as int)]);
        assert(s.subrange(0, s.len() as int) =~= ls[0]);
        assert(lines_of(s) =~= ls);
    } else {
        let head = ls[0];
        let rest = join_lines(ls.drop_first());
        assert(s == head + seq![10u8] + rest);
        assert(s.len() == head.len() + 1 + rest.len());
        assert(forall|k: int| 0 <= k < head.len() ==> s[k] == head[k]);
        assert(s[head.len() as int] == 10u8);
        lemma_find_from_some(s, 0, 10u8, head.len() as int);
        assert(s.subrange(0, head.len() as int) =~= head);
        lemma_lines_of_join(ls.drop_first());
        // The text after the first line break is exactly the joined tail,
        // and splitting from there splits that tail.
        assert(s.subrange(head.len() as int + 1, s.len() as int) =~= rest);
        lemma_lines_from_shift(s, head.len() as int + 1);
        assert(lines_from(s, head.len() as int + 1) == lines_of(rest));
        assert(lines_of(s) =~= seq![head] + lines_of(rest));
        assert(seq![head] + ls.drop_first() =~= ls);
    }
}

/// Splitting `s` from `pos` is the same as splitting the suffix of `s` that
/// starts at `pos`.
pub proof fn lemma_lines_from_shift(s: Seq<u8>, pos: int)
    requires
        0 <= pos <= s.len(),
    ensures
        lines_from(s, pos) == lines_of(s.subrange(pos, s.len() as int)),
    decreases s.len() - pos,
{
    let t = s.subrange(pos, s.len() as int);
    lemma_find_from(s, pos, 10u8);
    lemma_find_from(t, 0, 10u8);
    match find_from(s, pos, 10u8) {
        Some(j) => {
            lemma_find_from_some(t, 0, 10u8, j - pos);
            lemma_lines_from_shift(s, j + 1);
            assert(t.subrange(0, j - pos) =~= s.subrange(pos, j));
            assert(t.subrange(j - pos + 1, t.len() as int) =~= s.subrange(j + 1, s.len() as int));
            lemma_lines_from_shift(t, j - pos + 1);
            assert(lines_of(t) =~= seq![t.subrange(0, j - pos)] + lines_from(t, j - pos + 1));
            assert(lines_from(s, pos) =~= seq![s.subrange(pos, j)] + lines_from(s, j + 1));
        },
        None => {
            lemma_find_from_none(t, 0, 10u8);
            assert(t.subrange(0, t.len() as int) =~= s.subrange(pos, s.len() as int));
        },
    }
}

/// Finds the first `b` in `v` at or after `from`.
pub fn find_byte(v: &Vec<u8>, from: usize, b: u8) -> (r: Option<usize>)
    requires
        from <= v.len(),
    ensures
        match r {
            Some(j) => find_from(v@, from as int, b) == Some(j as int) && from <= j < v@.len(),
            None => find_from(v@, from as int, b) == None::<int>,
        },
{
    let mut i: usize = from;
    while i < v.len()
        invariant
            from <= i <= v.len(),
            forall|k: int| from <= k < i ==> v@[k] != b,
        decreases v.len() - i,
    {
        if v[i] == b {
            proof {
                lemma_find_from_some(v@, from as int, b, i as int);
            }
            return Some(i);
        }
        i = i + 1;
    }
    proof {
        lemma_find_from_none(v@, from as int, b);
    }
    None
}

/// The byte strings held by a sequence of vectors.
pub open spec fn views_of(vs: Seq<Vec<u8>>) -> Seq<Seq<u8>> {
    vs.map_values(|v: Vec<u8>| v@)
}

/// Splits a chapter body into its lines.
pub fn split_lines(content: &Vec<u8>) -> (r: Vec<Vec<u8>>)
    ensures
        views_of(r@) == lines_of(content@),
        r@.len() >= 1,
{
    let mut r: Vec<Vec<u8>> = Vec::new();
    let mut pos: usize = 0;
    proof {
        assert(lines_of(content@) =~= views_of(r@) + lines_from(content@, 0));
    }
    loop
        invariant
            pos <= content.len(),
            lines_of(content@) == views_of(r@) + lines_from(content@, pos as int),
        decreases content.len() - pos,
    {
        let ghost old_views = views_of(r@);
        match find_byte(content, pos, 10u8) {
            Some(j) => {
                let line = crate::paths::copy_range(content, pos, j);
                r.push(line);
                proof {
                    assert(views_of(r@) =~= old_views.push(line@));
                    assert(old_views.push(line@) + lines_from(content@, j + 1) =~= old_views
                        + lines_from(content@, pos as int));
                }
                pos = j + 1;
            },
            None => {
                let line = crate::paths::copy_range(content, pos, content.len());
                r.push(line);
                proof {
                    assert(views_of(r@) =~= old_views.push(line@));
                    assert(old_views.push(line@) =~= old_views + lines_from(content@, pos as int));
                    assert(views_of(r@) =~= lines_of(content@));
                }
                return r;
            },
        }
    }
}

} // verus!
