//! The guarantees of one pass, stated once and proved for every input: a
//! body without markers comes back byte-identical; a resolved marker becomes
//! a tag carrying the same path, alt text and measured dimensions; a failed
//! probe leaves its line untouched and yields exactly one warning; the first
//! resolved image of a chapter — and only it — gets the eager hint; and a
//! fully resolved output holds no marker any more, so a second pass leaves
//! it unchanged.
use vstd::prelude::*;

use crate::marker::is_marker;
use crate::marker::parse_marker;
use crate::paths::chapter_file_spec;
use crate::paths::resolved_path_spec;
use crate::render::chapter_warnings;
use crate::render::is_hit;
use crate::render::line_dim;
use crate::render::lemma_counts_bounded;
use crate::render::marker_count;
use crate::render::n_hits_upto;
use crate::render::n_markers_upto;
use crate::render::out_line;
use crate::render::out_lines;
use crate::render::render_content;
use crate::render::warnings_upto;
use crate::render::WarningV;
use crate::tag::tag_spec;
use crate::text::lines_of;

verus! {

/// Marker counts grow along the text, and pass a line that is a marker.
pub proof fn lemma_markers_monotone(lines: Seq<Seq<u8>>, i: int, j: int)
    requires
        0 <= i <= j,
    ensures
        n_markers_upto(lines, i) <= n_markers_upto(lines, j),
        i < j && is_marker(lines[i]) ==> n_markers_upto(lines, i) < n_markers_upto(lines, j),
    decreases j - i,
{
    if i < j {
        lemma_markers_monotone(lines, i + 1, j);
    }
}

/// When no line among the first `n` is a marker, the count is zero, and the
/// other way round.
pub proof fn lemma_no_markers_in_prefix(lines: Seq<Seq<u8>>, n: int)
    requires
        n >= 0,
        n_markers_upto(lines, n) == 0,
    ensures
        forall|i: int| 0 <= i < n ==> !is_marker(lines[i]),
    decreases n,
{
    if n > 0 {
        lemma_counts_bounded(lines, Seq::empty(), n - 1);
        lemma_no_markers_in_prefix(lines, n - 1);
    }
}

/// When no line among the first `n` is a marker, the count is zero.
pub proof fn lemma_count_zero(lines: Seq<Seq<u8>>, n: int)
    requires
        n >= 0,
        forall|i: int| 0 <= i < n ==> !is_marker(lines[i]),
    ensures
        n_markers_upto(lines, n) == 0,
    decreases n,
{
    if n > 0 {
        lemma_count_zero(lines, n - 1);
    }
}

/// A chapter body without image markers is returned byte-identical,
/// whatever the probe outcomes were.
pub proof fn lemma_no_markers_unchanged(content: Seq<u8>, dims: Seq<Option<(u32, u32)>>)
    requires
        marker_count(content) == 0,
    ensures
        render_content(content, dims) == content,
{
    let ls = lines_of(content);
    crate::text::lemma_lines_from_wf(content, 0);
    lemma_no_markers_in_prefix(ls, ls.len() as int);
    let outs = out_lines(ls, dims);
    assert(outs =~= ls);
    crate::text::lemma_join_lines_of(content, 0);
    assert(content.subrange(0, content.len() as int) =~= content);
}

/// The chapter's warnings are also empty when it has no markers.
pub proof fn lemma_no_markers_no_warnings(
    src: Seq<u8>,
    chapter_path: Option<Seq<u8>>,
    content: Seq<u8>,
    dims: Seq<Option<(u32, u32)>>,
)
    requires
        marker_count(content) == 0,
    ensures
        chapter_warnings(src, chapter_path, content, dims) == Seq::<WarningV>::empty(),
{
    let ls = lines_of(content);
    lemma_no_markers_in_prefix(ls, ls.len() as int);
    lemma_warnings_empty(ls, dims, src, chapter_path, ls.len() as int);
}

/// No marker lines, no warnings.
proof fn lemma_warnings_empty(
    lines: Seq<Seq<u8>>,
    dims: Seq<Option<(u32, u32)>>,
    src: Seq<u8>,
    chapter_path: Option<Seq<u8>>,
    n: int,
)
    requires
        n >= 0,
        forall|i: int| 0 <= i < n ==> !is_marker(lines[i]),
    ensures
        warnings_upto(lines, dims, src, chapter_path, n) == Seq::<WarningV>::empty(),
    decreases n,
{
    if n > 0 {
        lemma_warnings_empty(lines, dims, src, chapter_path, n - 1);
    }
}

/// A marker line whose probe returned dimensions is replaced by the tag that
/// carries the same raw path, the same alt text and exactly those
/// dimensions; the hint is eager precisely when no earlier line's probe had
/// succeeded, failed probes not counting.
pub proof fn lemma_resolved_marker_replaced(
    lines: Seq<Seq<u8>>,
    dims: Seq<Option<(u32, u32)>>,
    i: int,
    alt: Seq<u8>,
    url: Seq<u8>,
    w: u32,
    h: u32,
)
    requires
        0 <= i < lines.len(),
        parse_marker(lines[i]) == Some((alt, url)),
        line_dim(lines, dims, i) == Some((w, h)),
    ensures
        out_line(lines, dims, i) == tag_spec(url, alt, w, h, n_hits_upto(lines, dims, i) == 0),
        (n_hits_upto(lines, dims, i) == 0) <==> (forall|j: int|
            0 <= j < i ==> !is_hit(lines, dims, j)),
{
    lemma_first_hit(lines, dims, i);
}

/// The running success count is zero exactly when no earlier line's probe
/// succeeded.
pub proof fn lemma_first_hit(lines: Seq<Seq<u8>>, dims: Seq<Option<(u32, u32)>>, i: int)
    requires
        i >= 0,
    ensures
        (n_hits_upto(lines, dims, i) == 0) <==> (forall|j: int|
            0 <= j < i ==> !is_hit(lines, dims, j)),
    decreases i,
{
    if i > 0 {
        lemma_first_hit(lines, dims, i - 1);
        lemma_counts_bounded(lines, dims, i - 1);
    }
}

/// A marker line whose probe failed is left byte-identical, and contributes
/// exactly one warning, which names the resolved path of its raw path and
/// the chapter file.
pub proof fn lemma_failed_probe(
    lines: Seq<Seq<u8>>,
    dims: Seq<Option<(u32, u32)>>,
    src: Seq<u8>,
    chapter_path: Option<Seq<u8>>,
    i: int,
    alt: Seq<u8>,
    url: Seq<u8>,
)
    requires
        0 <= i < lines.len(),
        parse_marker(lines[i]) == Some((alt, url)),
        line_dim(lines, dims, i) is None,
    ensures
        out_line(lines, dims, i) == lines[i],
        warnings_upto(lines, dims, src, chapter_path, i + 1) == warnings_upto(
            lines,
            dims,
            src,
            chapter_path,
            i,
        ).push(
            WarningV {
                path: resolved_path_spec(src, chapter_path, url),
                origin: chapter_file_spec(chapter_path),
            },
        ),
{
}

/// After a pass in which every probe succeeded, no line is a marker any
/// more — a tag is not a marker — so a second pass returns the output
/// byte-identical: the transform never rewrites its own tags.
pub proof fn lemma_second_pass_identity(
    content: Seq<u8>,
    dims: Seq<Option<(u32, u32)>>,
    dims2: Seq<Option<(u32, u32)>>,
)
    requires
        dims.len() == marker_count(content),
        forall|k: int| 0 <= k < dims.len() ==> dims[k] is Some,
    ensures
        marker_count(render_content(content, dims)) == 0,
        render_content(render_content(content, dims), dims2) == render_content(content, dims),
{
    let ls = lines_of(content);
    crate::text::lemma_lines_from_wf(content, 0);
    let outs = out_lines(ls, dims);
    assert forall|i: int| 0 <= i < outs.len() implies !is_marker(outs[i]) && (forall|k: int|
        0 <= k < outs[i].len() ==> outs[i][k] != 10u8) by {
        assert(forall|k: int| 0 <= k < ls[i].len() ==> ls[i][k] != 10u8);
        match parse_marker(ls[i]) {
            Some(m) => {
                lemma_markers_monotone(ls, i, ls.len() as int);
                lemma_counts_bounded(ls, dims, i);
                let k = n_markers_upto(ls, i);
                assert(0 <= k < dims.len());
                assert(line_dim(ls, dims, i) == dims[k]);
                let eager = n_hits_upto(ls, dims, i) == 0;
                match dims[k] {
                    Some(d) => {
                        assert(outs[i] == tag_spec(m.1, m.0, d.0, d.1, eager));
                        crate::marker::lemma_parse_no_newline(ls[i], m.0, m.1);
                        crate::tag::lemma_tag_no_newline(m.1, m.0, d.0, d.1, eager);
                        crate::tag::lemma_tag_not_marker(m.1, m.0, d.0, d.1, eager);
                    },
                    None => {
                        assert(false);
                    },
                }
            },
            None => {
                assert(outs[i] == ls[i]);
            },
        }
    }
    let rendered = render_content(content, dims);
    crate::text::lemma_lines_of_join(outs);
    assert(lines_of(rendered) == outs);
    lemma_count_zero(outs, outs.len() as int);
    lemma_no_markers_unchanged(rendered, dims2);
}

} // verus!
