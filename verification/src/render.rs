//! One pass over a chapter body. Every line that is exactly one image marker
//! consumes the next probe outcome, in textual order. A successful probe
//! replaces the line with an image tag; the first success in the chapter
//! gets the eager hint, every later one the lazy hint, and a failed probe
//! leaves its line byte-identical and yields one warning naming the resolved
//! path and the chapter file. All other lines pass through unchanged.
use vstd::prelude::*;

use crate::marker::is_marker;
use crate::marker::parse_marker;
use crate::paths::chapter_file_spec;
use crate::paths::opt_path_view;
use crate::paths::resolved_path_spec;
use crate::tag::tag_spec;
use crate::text::join_lines;
use crate::text::lines_of;
use crate::text::views_of;

verus! {

/// How many of the first `i` lines are image markers.
pub open spec fn n_markers_upto(lines: Seq<Seq<u8>>, i: int) -> int
    decreases i,
{
    if i <= 0 {
        0
    } else {
        n_markers_upto(lines, i - 1) + if is_marker(lines[i - 1]) {
            1int
        } else {
            0int
        }
    }
}

/// How many image markers a chapter body holds.
pub open spec fn marker_count(content: Seq<u8>) -> int {
    n_markers_upto(lines_of(content), lines_of(content).len() as int)
}

/// The probe outcome that line `i` consumes: the next unconsumed entry of
/// `dims` when the line is a marker, nothing otherwise.
pub open spec fn line_dim(lines: Seq<Seq<u8>>, dims: Seq<Option<(u32, u32)>>, i: int) -> Option<
    (u32, u32),
> {
    if is_marker(lines[i]) {
        let k = n_markers_upto(lines, i);
        if 0 <= k < dims.len() {
            dims[k]
        } else {
            None
        }
    } else {
        None
    }
}

/// Whether line `i` is a marker whose probe succeeded.
pub open spec fn is_hit(lines: Seq<Seq<u8>>, dims: Seq<Option<(u32, u32)>>, i: int) -> bool {
    line_dim(lines, dims, i) is Some
}

/// How many of the first `i` lines are markers whose probe succeeded. A
/// failed probe does not consume an ordinal.
pub open spec fn n_hits_upto(lines: Seq<Seq<u8>>, dims: Seq<Option<(u32, u32)>>, i: int) -> int
    decreases i,
{
    if i <= 0 {
        0
    } else {
        n_hits_upto(lines, dims, i - 1) + if is_hit(lines, dims, i - 1) {
            1int
        } else {
            0int
        }
    }
}

/// What line `i` becomes: an image tag when it is a marker whose probe
/// succeeded — eager for the chapter's first success — and the line itself
/// otherwise.
pub open spec fn out_line(lines: Seq<Seq<u8>>, dims: Seq<Option<(u32, u32)>>, i: int) -> Seq<u8> {
    match parse_marker(lines[i]) {
        Some(m) => match line_dim(lines, dims, i) {
            Some(d) => tag_spec(m.1, m.0, d.0, d.1, n_hits_upto(lines, dims, i) == 0),
            None => lines[i],
        },
        None => lines[i],
    }
}

/// Every line of the chapter after the pass.
pub open spec fn out_lines(lines: Seq<Seq<u8>>, dims: Seq<Option<(u32, u32)>>) -> Seq<Seq<u8>> {
    Seq::new(lines.len(), |i: int| out_line(lines, dims, i))
}

/// The whole chapter body after the pass, for the probe outcomes `dims`.
pub open spec fn render_content(content: Seq<u8>, dims: Seq<Option<(u32, u32)>>) -> Seq<u8> {
    join_lines(out_lines(lines_of(content), dims))
}

/// A diagnostic for one image reference whose file could not be probed:
/// the resolved path that was tried, and the chapter file it occurred in.
pub struct Warning {
    /// The resolved filesystem path that could not be opened or decoded.
    pub path: Vec<u8>,
    /// The file path of the chapter holding the reference, empty if none.
    pub origin: Vec<u8>,
}

/// The mathematical value of a warning.
pub ghost struct WarningV {
    /// The resolved path that was tried.
    pub path: Seq<u8>,
    /// The chapter file the reference stood in.
    pub origin: Seq<u8>,
}

impl View for Warning {
    type V = WarningV;

    open spec fn view(&self) -> WarningV {
        WarningV { path: self.path@, origin: self.origin@ }
    }
}

/// The values of a list of warnings.
pub open spec fn warn_views(ws: Seq<Warning>) -> Seq<WarningV> {
    ws.map_values(|w: Warning| w@)
}

/// The warnings from the first `i` lines: one per marker whose probe failed,
/// in textual order.
pub open spec fn warnings_upto(
    lines: Seq<Seq<u8>>,
    dims: Seq<Option<(u32, u32)>>,
    src: Seq<u8>,
    chapter_path: Option<Seq<u8>>,
    i: int,
) -> Seq<WarningV>
    decreases i,
{
    if i <= 0 {
        Seq::empty()
    } else {
        let prev = warnings_upto(lines, dims, src, chapter_path, i - 1);
        match parse_marker(lines[i - 1]) {
            Some(m) => if line_dim(lines, dims, i - 1) is None {
                prev.push(
                    WarningV {
                        path: resolved_path_spec(src, chapter_path, m.1),
                        origin: chapter_file_spec(chapter_path),
                    },
                )
            } else {
                prev
            },
            None => prev,
        }
    }
}

/// All warnings of one chapter, for the probe outcomes `dims`.
pub open spec fn chapter_warnings(
    src: Seq<u8>,
    chapter_path: Option<Seq<u8>>,
    content: Seq<u8>,
    dims: Seq<Option<(u32, u32)>>,
) -> Seq<WarningV> {
    warnings_upto(lines_of(content), dims, src, chapter_path, lines_of(content).len() as int)
}

/// Counts never outrun the number of lines seen.
pub proof fn lemma_counts_bounded(lines: Seq<Seq<u8>>, dims: Seq<Option<(u32, u32)>>, i: int)
    requires
        i >= 0,
    ensures
        0 <= n_markers_upto(lines, i) <= i,
        0 <= n_hits_upto(lines, dims, i) <= i,
    decreases i,
{
    if i > 0 {
        lemma_counts_bounded(lines, dims, i - 1);
    }
}

/// Rewrites one chapter body against the given probe outcomes: `dims[k]` is
/// the outcome for the `k`-th marker line. Returns the new body and the
/// warnings, one per marker whose outcome is `None`.
pub fn render_chapter(
    src: &Vec<u8>,
    chapter_path: &Option<Vec<u8>>,
    content: &Vec<u8>,
    dims: &Vec<Option<(u32, u32)>>,
) -> (r: (Vec<u8>, Vec<Warning>))
    ensures
        r.0@ == render_content(content@, dims@),
        warn_views(r.1@) == chapter_warnings(src@, opt_path_view(chapter_path), content@, dims@),
{
    let origin: Vec<u8> = match chapter_path {
        Some(p) => crate::paths::copy_range(p, 0, p.len()),
        None => Vec::new(),
    };
    proof {
        assert(origin@ =~= chapter_file_spec(opt_path_view(chapter_path)));
    }
    let lines = crate::text::split_lines(content);
    let ghost gl = lines_of(content@);
    let ghost gd = dims@;
    let ghost gcp = opt_path_view(chapter_path);
    let ghost outs = out_lines(gl, gd);
    let mut out: Vec<u8> = Vec::new();
    let mut warns: Vec<Warning> = Vec::new();
    let mut i: usize = 0;
    let mut k: usize = 0;
    let mut succ: usize = 0;
    proof {
        assert(gl.len() == lines@.len());
        assert(out@ =~= join_lines(outs.take(0)));
        assert(warn_views(warns@) =~= warnings_upto(gl, gd, src@, gcp, 0));
    }
    while i < lines.len()
        invariant
            views_of(lines@) == gl,
            gl.len() == lines@.len(),
            gd == dims@,
            gcp == opt_path_view(chapter_path),
            outs == out_lines(gl, gd),
            origin@ == chapter_file_spec(gcp),
            i <= lines.len(),
            k <= i,
            succ <= i,
            k as int == n_markers_upto(gl, i as int),
            succ as int == n_hits_upto(gl, gd, i as int),
            out@ == join_lines(outs.take(i as int)),
            warn_views(warns@) == warnings_upto(gl, gd, src@, gcp, i as int),
        decreases lines.len() - i,
    {
        if i > 0 {
            out.push(10u8);
        }
        let line: &Vec<u8> = &lines[i];
        proof {
            assert(gl[i as int] == line@);
        }
        match crate::marker::parse_marker_line(line) {
            Some(m) => {
                let (alt, url) = m;
                let mut handled = false;
                if k < dims.len() {
                    if let Some(d) = dims[k] {
                        let (w, h) = d;
                        let count: u32 = if succ == 0 {
                            1
                        } else {
                            2
                        };
                        let tag = crate::tag::format_img_tag(&url, &alt, w, h, count);
                        crate::tag::push_bytes(&mut out, &tag);
                        proof {
                            assert(line_dim(gl, gd, i as int) == Some((w, h)));
                            assert(outs[i as int] == tag@);
                        }
                        succ = succ + 1;
                        handled = true;
                    }
                }
                if !handled {
                    crate::tag::push_bytes(&mut out, line);
                    let resolved = crate::paths::resolved_path(src, chapter_path, &url);
                    let origin_copy = crate::paths::copy_range(&origin, 0, origin.len());
                    let ghost old_wv = warn_views(warns@);
                    warns.push(Warning { path: resolved, origin: origin_copy });
                    proof {
                        assert(line_dim(gl, gd, i as int) is None);
                        assert(outs[i as int] == line@);
                        assert(origin_copy@ =~= origin@);
                        assert(warn_views(warns@) =~= old_wv.push(
                            WarningV {
                                path: resolved_path_spec(src@, gcp, url@),
                                origin: chapter_file_spec(gcp),
                            },
                        ));
                    }
                }
                k = k + 1;
            },
            None => {
                crate::tag::push_bytes(&mut out, line);
                proof {
                    assert(outs[i as int] == line@);
                }
            },
        }
        proof {
            lemma_counts_bounded(gl, gd, i as int + 1);
            assert(outs.take(i as int + 1) =~= outs.take(i as int).push(outs[i as int]));
            if i > 0 {
                crate::text::lemma_join_push(outs.take(i as int), outs[i as int]);
                assert(out@ =~= join_lines(outs.take(i as int)) + seq![10u8] + outs[i as int]);
            } else {
                assert(outs.take(1) =~= seq![outs[0]]);
                assert(join_lines(seq![outs[0]]) == outs[0]);
                assert(out@ =~= outs[0]);
            }
        }
        i = i + 1;
    }
    proof {
        assert(outs.take(gl.len() as int) =~= outs);
        assert(out@ == render_content(content@, dims@));
    }
    (out, warns)
}


/// One full pass over one chapter body: finds the marker lines, probes each
/// referenced image on disk, and rewrites the body. Whatever the probes
/// returned, the result is the rewrite of the body under one sequence of
/// probe outcomes, one outcome per marker, with the warnings of that same
/// sequence. A body without markers comes back byte-identical, without
/// warnings.
pub fn transform_chapter(src: &Vec<u8>, chapter_path: &Option<Vec<u8>>, content: &Vec<u8>) -> (r: (
    Vec<u8>,
    Vec<Warning>,
))
    ensures
        exists|dims: Seq<Option<(u32, u32)>>|
            #![auto]
            dims.len() == marker_count(content@) && r.0@ == render_content(content@, dims)
                && warn_views(r.1@) == chapter_warnings(
                src@,
                opt_path_view(chapter_path),
                content@,
                dims,
            ),
        marker_count(content@) == 0 ==> r.0@ == content@ && r.1@.len() == 0,
{
    let lines = crate::text::split_lines(content);
    let ghost gl = lines_of(content@);
    let mut dims: Vec<Option<(u32, u32)>> = Vec::new();
    let mut i: usize = 0;
    while i < lines.len()
        invariant
            views_of(lines@) == gl,
            gl.len() == lines@.len(),
            i <= lines.len(),
            dims@.len() == n_markers_upto(gl, i as int),
        decreases lines.len() - i,
    {
        let line: &Vec<u8> = &lines[i];
        proof {
            assert(gl[i as int] == line@);
        }
        match crate::marker::parse_marker_line(line) {
            Some(m) => {
                let resolved = crate::paths::resolved_path(src, chapter_path, &m.1);
                let d = crate::probe::probe_image(&resolved);
                dims.push(d);
            },
            None => {},
        }
        i = i + 1;
    }
    let (out, warns) = render_chapter(src, chapter_path, content, &dims);
    proof {
        assert(dims@.len() == marker_count(content@));
        assert(out@ == render_content(content@, dims@) && warn_views(warns@) == chapter_warnings(
            src@,
            opt_path_view(chapter_path),
            content@,
            dims@,
        ));
        if marker_count(content@) == 0 {
            crate::laws::lemma_no_markers_unchanged(content@, dims@);
            crate::laws::lemma_no_markers_no_warnings(
                src@,
                opt_path_view(chapter_path),
                content@,
                dims@,
            );
            assert(warn_views(warns@).len() == warns@.len());
        }
    }
    (out, warns)
}

} // verus!
