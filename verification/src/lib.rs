//! Build-time transformer for documentation books: scans chapter text for
//! markdown image markers that stand alone on a line, probes the referenced
//! image file for its pixel dimensions, and rewrites the marker into an HTML
//! `<img>` tag annotated with explicit width, height and a loading hint.
use vstd::prelude::*;

pub mod book;
pub mod laws;
pub mod marker;
pub mod paths;
mod probe;
pub mod render;
pub mod tag;
pub mod text;

verus! {

/// The one renderer name that is not supported, reserved for negative
/// testing: `not-supported`.
pub open spec fn unsupported_renderer() -> Seq<u8> {
    seq![110u8, 111u8, 116u8, 45u8, 115u8, 117u8, 112u8, 112u8, 111u8, 114u8, 116u8, 101u8, 100u8]
}

/// Whether two byte strings hold the same bytes.
fn bytes_eq(a: &Vec<u8>, b: &Vec<u8>) -> (r: bool)
    ensures
        r == (a@ == b@),
{
    if a.len() != b.len() {
        return false;
    }
    let mut i: usize = 0;
    while i < a.len()
        invariant
            i <= a.len(),
            a@.len() == b@.len(),
            forall|k: int| 0 <= k < i ==> a@[k] == b@[k],
        decreases a.len() - i,
    {
        if a[i] != b[i] {
            return false;
        }
        i = i + 1;
    }
    proof {
        assert(a@ =~= b@);
    }
    true
}

/// The preprocessor itself: one stateless transformation pass per call.
pub struct Tailor;

impl Tailor {
    /// A fresh preprocessor instance.
    pub fn new() -> Tailor {
        Tailor
    }

    /// The preprocessor's name under the host's plugin protocol.
    pub fn name(&self) -> (r: &'static str)
        ensures
            r@ == "tailor-preprocessor"@,
    {
        "tailor-preprocessor"
    }

    /// Whether the named output renderer is supported. The transform is
    /// renderer-agnostic, so every renderer is, except the literal sentinel
    /// name reserved for negative testing.
    pub fn supports_renderer(&self, renderer: &Vec<u8>) -> (r: bool)
        ensures
            r == (renderer@ != unsupported_renderer()),
    {
        let mut s: Vec<u8> = Vec::new();
        s.push(110u8);
        s.push(111u8);
        s.push(116u8);
        s.push(45u8);
        s.push(115u8);
        s.push(117u8);
        s.push(112u8);
        s.push(112u8);
        s.push(111u8);
        s.push(114u8);
        s.push(116u8);
        s.push(101u8);
        s.push(100u8);
        proof {
            assert(s@ =~= unsupported_renderer());
        }
        let eq = bytes_eq(renderer, &s);
        !eq
    }

    /// One preprocessing pass: rewrites every chapter of the book against
    /// the source root `src` and hands the book back with the warnings.
    pub fn run(&self, src: &Vec<u8>, book: book::Book) -> (r: (book::Book, Vec<render::Warning>))
        ensures
            book::book_transformed(src@, book, r.0, render::warn_views(r.1@)),
    {
        book::measure(src, book)
    }
}

} // verus!
