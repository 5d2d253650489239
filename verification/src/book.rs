//! The book tree the host hands over: an ordered hierarchy of chapters,
//! separators and part titles. One pass visits every chapter, including
//! nested ones, rewrites its body in place, and collects the warnings of the
//! whole tree in visiting order: a chapter's own warnings first, then those
//! of its nested items, item by item. Each chapter's image paths are
//! resolved against its own file's directory, never a parent's or a
//! sibling's.
use vstd::prelude::*;

use crate::paths::opt_path_view;
use crate::render::chapter_warnings;
use crate::render::marker_count;
use crate::render::render_content;
use crate::render::warn_views;
use crate::render::Warning;
use crate::render::WarningV;

verus! {

/// One titled unit of content, with its own file path and nested items.
pub struct Chapter {
    /// The chapter's title.
    pub name: Vec<u8>,
    /// The chapter's text body.
    pub content: Vec<u8>,
    /// The chapter's source file path, relative to the book source root;
    /// root-level chapters may lack one.
    pub path: Option<Vec<u8>>,
    /// The items nested under this chapter.
    pub sub_items: Vec<BookItem>,
}

/// One item of the book tree.
pub enum BookItem {
    /// A chapter with text of its own.
    Chapter(Chapter),
    /// A separator between chapters; the pass ignores it.
    Separator,
    /// A part title; the pass ignores it.
    PartTitle(Vec<u8>),
}

/// The ordered tree of items the host manages.
pub struct Book {
    /// The top-level items, in reading order.
    pub sections: Vec<BookItem>,
}

/// How a transformed chapter relates to the original, with the warnings `w`
/// it produced: title and path kept, the body rewritten under one sequence
/// of probe outcomes, the warnings of that same sequence first, then the
/// warnings of the nested items, which are transformed in turn.
pub open spec fn chapter_transformed(src: Seq<u8>, a: Chapter, b: Chapter, w: Seq<WarningV>) -> bool
    decreases a,
{
    &&& b.name@ == a.name@
    &&& opt_path_view(&b.path) == opt_path_view(&a.path)
    &&& exists|dims: Seq<Option<(u32, u32)>>, wsub: Seq<WarningV>|
        #![auto]
        {
            &&& dims.len() == marker_count(a.content@)
            &&& b.content@ == render_content(a.content@, dims)
            &&& w == chapter_warnings(src, opt_path_view(&a.path), a.content@, dims) + wsub
            &&& items_transformed(src, a.sub_items@, b.sub_items@, wsub)
        }
}

/// How a transformed item relates to the original, with its warnings:
/// chapters are transformed, separators and part titles pass through
/// unchanged and warn of nothing.
pub open spec fn item_transformed(src: Seq<u8>, a: BookItem, b: BookItem, w: Seq<WarningV>) -> bool
    decreases a,
{
    match a {
        BookItem::Chapter(c) => match b {
            BookItem::Chapter(d) => chapter_transformed(src, c, d, w),
            _ => false,
        },
        BookItem::Separator => b is Separator && w == Seq::<WarningV>::empty(),
        BookItem::PartTitle(t) => match b {
            BookItem::PartTitle(u) => u@ == t@ && w == Seq::<WarningV>::empty(),
            _ => false,
        },
    }
}

/// How a transformed item list relates to the original, with its warnings:
/// item by item, in order, each item's warnings before the next item's.
pub open spec fn items_transformed(
    src: Seq<u8>,
    a: Seq<BookItem>,
    b: Seq<BookItem>,
    w: Seq<WarningV>,
) -> bool
    decreases a,
{
    if a.len() == 0 {
        b.len() == 0 && w == Seq::<WarningV>::empty()
    } else {
        &&& b.len() == a.len()
        &&& exists|w1: Seq<WarningV>, w2: Seq<WarningV>|
            #![auto]
            {
                &&& w == w1 + w2
                &&& item_transformed(src, a[0], b[0], w1)
                &&& items_transformed(src, a.drop_first(), b.drop_first(), w2)
            }
    }
}

/// How a transformed book relates to the original, with all its warnings.
pub open spec fn book_transformed(src: Seq<u8>, a: Book, b: Book, w: Seq<WarningV>) -> bool {
    items_transformed(src, a.sections@, b.sections@, w)
}

/// The warning values appended to `ws` from position `n` on.
pub open spec fn warn_views_from(ws: Seq<Warning>, n: int) -> Seq<WarningV> {
    warn_views(ws.skip(n))
}

/// The views of concatenated warnings are the concatenated views.
proof fn lemma_warn_views_add(x: Seq<Warning>, y: Seq<Warning>)
    ensures
        warn_views(x + y) == warn_views(x) + warn_views(y),
{
    assert(warn_views(x + y) =~= warn_views(x) + warn_views(y));
}

/// Transforms one item, appending its warnings.
fn measure_item(src: &Vec<u8>, item: &BookItem, warns: &mut Vec<Warning>) -> (r: BookItem)
    ensures
        old(warns)@.len() <= final(warns)@.len(),
        final(warns)@.take(old(warns)@.len() as int) == old(warns)@,
        item_transformed(src@, *item, r, warn_views_from(final(warns)@, old(warns)@.len() as int)),
    decreases *item,
{
    let ghost n0 = warns@.len() as int;
    match item {
        BookItem::Chapter(c) => {
            let ghost gpath = opt_path_view(&c.path);
            let (content, mut ws) = crate::render::transform_chapter(src, &c.path, &c.content);
            let ghost gws = ws@;
            let ghost gcontent = content@;
            warns.append(&mut ws);
            let name = crate::paths::clone_bytes(&c.name);
            let path: Option<Vec<u8>> = match &c.path {
                Some(p) => Some(crate::paths::clone_bytes(p)),
                None => None,
            };
            let ghost mid = warns@.len() as int;
            let sub_items = measure_items(src, &c.sub_items, 0, warns);
            let ghost gsubs = sub_items@;
            let d = Chapter { name, content, path, sub_items };
            proof {
                assert(opt_path_view(&d.path) == opt_path_view(&c.path));
                let tdims = choose|dims: Seq<Option<(u32, u32)>>|
                    #![auto]
                    dims.len() == marker_count(c.content@) && gcontent == render_content(
                        c.content@,
                        dims,
                    ) && warn_views(gws) == chapter_warnings(src@, gpath, c.content@, dims);
                let wsub = warn_views_from(warns@, mid);
                assert(c.sub_items@.skip(0) =~= c.sub_items@);
                assert(items_transformed(src@, c.sub_items@, gsubs, wsub));
                assert(mid == n0 + gws.len());
                assert(warns@.take(mid) == old(warns)@ + gws);
                assert forall|j: int| 0 <= j < gws.len() implies warns@[n0 + j] == gws[j] by {
                    assert(warns@.take(mid)[n0 + j] == warns@[n0 + j]);
                    assert((old(warns)@ + gws)[n0 + j] == gws[j]);
                }
                assert(warns@.skip(n0) =~= gws + warns@.skip(mid));
                lemma_warn_views_add(gws, warns@.skip(mid));
                assert(warn_views_from(warns@, n0) == chapter_warnings(
                    src@,
                    gpath,
                    c.content@,
                    tdims,
                ) + wsub);
                assert(chapter_transformed(src@, *c, d, warn_views_from(warns@, n0)));
                assert(warns@.take(n0) =~= old(warns)@);
            }
            BookItem::Chapter(d)
        },
        BookItem::Separator => {
            proof {
                assert(warns@.skip(n0) =~= Seq::<Warning>::empty());
                assert(warn_views_from(warns@, n0) =~= Seq::<WarningV>::empty());
                assert(warns@.take(n0) =~= old(warns)@);
            }
            BookItem::Separator
        },
        BookItem::PartTitle(t) => {
            proof {
                assert(warns@.skip(n0) =~= Seq::<Warning>::empty());
                assert(warn_views_from(warns@, n0) =~= Seq::<WarningV>::empty());
                assert(warns@.take(n0) =~= old(warns)@);
            }
            BookItem::PartTitle(crate::paths::clone_bytes(t))
        },
    }
}

/// Transforms the items from position `from` on, appending their warnings.
fn measure_items(src: &Vec<u8>, items: &Vec<BookItem>, from: usize, warns: &mut Vec<Warning>) -> (r:
    Vec<BookItem>)
    requires
        from <= items.len(),
    ensures
        old(warns)@.len() <= final(warns)@.len(),
        final(warns)@.take(old(warns)@.len() as int) == old(warns)@,
        items_transformed(
            src@,
            items@.skip(from as int),
            r@,
            warn_views_from(final(warns)@, old(warns)@.len() as int),
        ),
    decreases *items, items@.len() - from,
{
    let ghost n0 = warns@.len() as int;
    if from == items.len() {
        let r: Vec<BookItem> = Vec::new();
        proof {
            assert(items@.skip(from as int) =~= Seq::<BookItem>::empty());
            assert(warns@.skip(n0) =~= Seq::<Warning>::empty());
            assert(warn_views_from(warns@, n0) =~= Seq::<WarningV>::empty());
            assert(warns@.take(n0) =~= old(warns)@);
        }
        r
    } else {
        let first = measure_item(src, &items[from], warns);
        let ghost w1 = warn_views_from(warns@, n0);
        let ghost wfirst = warns@.skip(n0);
        let ghost mid = warns@.len() as int;
        let mut rest = measure_items(src, items, from + 1, warns);
        let ghost w2 = warn_views_from(warns@, mid);
        let ghost grest = rest@;
        let mut r: Vec<BookItem> = Vec::new();
        r.push(first);
        r.append(&mut rest);
        proof {
            let a = items@.skip(from as int);
            assert(a[0] == items@[from as int]);
            assert(a.drop_first() =~= items@.skip(from as int + 1));
            assert(r@ =~= seq![first] + grest);
            assert(r@[0] == first);
            assert(r@.drop_first() =~= grest);
            // The middle call only appends, so the first item's stretch of
            // the warning list is unchanged.
            assert(warns@.take(mid).skip(n0) =~= wfirst);
            assert(warn_views(wfirst) == w1);
            assert(warns@.skip(n0) =~= wfirst + warns@.skip(mid));
            lemma_warn_views_add(wfirst, warns@.skip(mid));
            assert(warn_views_from(warns@, n0) == w1 + w2);
            assert(items_transformed(src@, a, r@, warn_views_from(warns@, n0)));
            assert(warns@.take(n0) =~= old(warns)@);
        }
        r
    }
}

/// One transformation pass over a whole book: every chapter's body is
/// rewritten in reading order, titles, paths and tree shape are kept, and
/// the warnings of all chapters come back together, in visiting order.
pub fn measure(src: &Vec<u8>, book: Book) -> (r: (Book, Vec<Warning>))
    ensures
        book_transformed(src@, book, r.0, warn_views(r.1@)),
{
    let mut warns: Vec<Warning> = Vec::new();
    let sections = measure_items(src, &book.sections, 0, &mut warns);
    proof {
        assert(book.sections@.skip(0) =~= book.sections@);
        assert(warns@.skip(0) =~= warns@);
    }
    (Book { sections }, warns)
}

} // verus!
