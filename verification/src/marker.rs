//! The image-marker pattern. A line is an image marker when, after optional
//! leading whitespace, it consists of exactly `![alt](url)` and nothing else:
//! `alt` runs to the first `]`, which must be followed by `(`, and `url` runs
//! to the first `)`, which must end the line. A line that carries any other
//! text around the marker, or a second marker, does not match, so inline
//! images in prose or table rows are left alone. The leading whitespace is
//! part of the match and is dropped by a replacement.
use vstd::prelude::*;

use crate::text::find_from;

verus! {

/// Whitespace that may stand before a marker on its line.
pub open spec fn is_ws(b: u8) -> bool {
    b == 32u8 || b == 9u8 || b == 13u8 || b == 11u8 || b == 12u8
}

/// The first index at or after `i` whose byte is not whitespace, or the end
/// of the line.
pub open spec fn skip_ws(line: Seq<u8>, i: int) -> int
    decreases line.len() - i,
{
    if 0 <= i < line.len() && is_ws(line[i]) {
        skip_ws(line, i + 1)
    } else {
        i
    }
}

/// `skip_ws` lands on the first non-whitespace byte at or after `i`.
pub proof fn lemma_skip_ws(line: Seq<u8>, i: int)
    requires
        0 <= i <= line.len(),
    ensures
        i <= skip_ws(line, i) <= line.len(),
        forall|k: int| i <= k < skip_ws(line, i) ==> is_ws(line[k]),
        skip_ws(line, i) < line.len() ==> !is_ws(line[skip_ws(line, i)]),
    decreases line.len() - i,
{
    if 0 <= i < line.len() && is_ws(line[i]) {
        lemma_skip_ws(line, i + 1);
    }
}

/// When everything in `[i, j)` is whitespace and `j` is the end or holds a
/// non-whitespace byte, `skip_ws` lands exactly on `j`.
pub proof fn lemma_skip_ws_exact(line: Seq<u8>, i: int, j: int)
    requires
        0 <= i <= j <= line.len(),
        forall|k: int| i <= k < j ==> is_ws(line[k]),
        j < line.len() ==> !is_ws(line[j]),
    ensures
        skip_ws(line, i) == j,
    decreases j - i,
{
    if i < j {
        lemma_skip_ws_exact(line, i + 1, j);
    }
}

/// The alt text and raw path of a line that is exactly one image marker, or
/// `None` for every other line.
pub open spec fn parse_marker(line: Seq<u8>) -> Option<(Seq<u8>, Seq<u8>)> {
    let i = skip_ws(line, 0);
    if i + 1 < line.len() && line[i] == 33u8 && line[i + 1] == 91u8 {
        match find_from(line, i + 2, 93u8) {
            Some(j) => if j + 1 < line.len() && line[j + 1] == 40u8 {
                match find_from(line, j + 2, 41u8) {
                    Some(k) => if k == line.len() - 1 {
                        Some((line.subrange(i + 2, j), line.subrange(j + 2, k)))
                    } else {
                        None
                    },
                    None => None,
                }
            } else {
                None
            },
            None => None,
        }
    } else {
        None
    }
}

/// Whether a line is exactly one image marker.
pub open spec fn is_marker(line: Seq<u8>) -> bool {
    parse_marker(line) is Some
}

/// The alt text and raw path of a marker line, copied out, or `None` when
/// the line is not a marker.
pub fn parse_marker_line(line: &Vec<u8>) -> (r: Option<(Vec<u8>, Vec<u8>)>)
    ensures
        match r {
            Some(p) => parse_marker(line@) == Some((p.0@, p.1@)),
            None => parse_marker(line@) == None::<(Seq<u8>, Seq<u8>)>,
        },
{
    let mut i: usize = 0;
    while i < line.len() && (line[i] == 32u8 || line[i] == 9u8 || line[i] == 13u8 || line[i]
        == 11u8 || line[i] == 12u8)
        invariant
            i <= line.len(),
            forall|k: int| 0 <= k < i ==> is_ws(line@[k]),
        decreases line.len() - i,
    {
        i = i + 1;
    }
    proof {
        lemma_skip_ws_exact(line@, 0, i as int);
    }
    if i >= line.len() || line[i] != 33u8 {
        return None;
    }
    if i + 1 >= line.len() || line[i + 1] != 91u8 {
        return None;
    }
    let j = match crate::text::find_byte(line, i + 2, 93u8) {
        Some(j) => j,
        None => {
            return None;
        },
    };
    if !(j + 1 < line.len() && line[j + 1] == 40u8) {
        return None;
    }
    let k = match crate::text::find_byte(line, j + 2, 41u8) {
        Some(k) => k,
        None => {
            return None;
        },
    };
    if k != line.len() - 1 {
        return None;
    }
    let alt = crate::paths::copy_range(line, i + 2, j);
    let url = crate::paths::copy_range(line, j + 2, k);
    Some((alt, url))
}


/// The alt text and path of a marker line are substrings of the line, so a
/// line without a line break yields an alt text and path without one.
pub proof fn lemma_parse_no_newline(line: Seq<u8>, alt: Seq<u8>, url: Seq<u8>)
    requires
        parse_marker(line) == Some((alt, url)),
        forall|k: int| 0 <= k < line.len() ==> line[k] != 10u8,
    ensures
        forall|q: int| 0 <= q < alt.len() ==> alt[q] != 10u8,
        forall|q: int| 0 <= q < url.len() ==> url[q] != 10u8,
{
    let i = skip_ws(line, 0);
    lemma_skip_ws(line, 0);
    if i + 1 < line.len() && line[i] == 33u8 && line[i + 1] == 91u8 {
        crate::text::lemma_find_from(line, i + 2, 93u8);
        match crate::text::find_from(line, i + 2, 93u8) {
            Some(j) => {
                if j + 1 < line.len() && line[j + 1] == 40u8 {
                    crate::text::lemma_find_from(line, j + 2, 41u8);
                    match crate::text::find_from(line, j + 2, 41u8) {
                        Some(k) => {
                            assert(alt == line.subrange(i + 2, j));
                            assert(url == line.subrange(j + 2, k));
                            assert forall|q: int| 0 <= q < alt.len() implies alt[q] != 10u8 by {
                                assert(alt[q] == line[i + 2 + q]);
                            }
                            assert forall|q: int| 0 <= q < url.len() implies url[q] != 10u8 by {
                                assert(url[q] == line[j + 2 + q]);
                            }
                        },
                        None => {},
                    }
                }
            },
            None => {},
        }
    }
}

} // verus!
