use mdbook_tailor::book::measure;
use mdbook_tailor::book::Book;
use mdbook_tailor::book::BookItem;
use mdbook_tailor::book::Chapter;
use mdbook_tailor::paths::join_path;
use mdbook_tailor::paths::parent_dir;
use mdbook_tailor::paths::resolved_path;
use mdbook_tailor::tag::format_img_tag;
use mdbook_tailor::Tailor;

fn b(s: &str) -> Vec<u8> {
    s.as_bytes().to_vec()
}

fn s(v: Vec<u8>) -> String {
    String::from_utf8(v).unwrap()
}

#[test]
fn test_resolved_path_joins_root_dir_and_url() {
    let r = resolved_path(&b("src"), &Some(b("guide/intro.md")), &b("images/diagram.png"));
    assert_eq!(s(r), "src/guide/images/diagram.png");
}

#[test]
fn test_resolved_path_keeps_parent_segments_literal() {
    let r = resolved_path(&b("src"), &Some(b("a/ch.md")), &b("../shared/pic.png"));
    assert_eq!(s(r), "src/a/../shared/pic.png");
}

#[test]
fn test_resolved_path_without_chapter_path() {
    let r = resolved_path(&b("src"), &None, &b("pic.png"));
    assert_eq!(s(r), "src/pic.png");
}

#[test]
fn test_resolved_path_absolute_url_wins() {
    let r = resolved_path(&b("src"), &Some(b("guide/intro.md")), &b("/abs/pic.png"));
    assert_eq!(s(r), "/abs/pic.png");
}

#[test]
fn test_parent_dir_and_join_path() {
    assert_eq!(s(parent_dir(&b("guide/intro.md"))), "guide");
    assert_eq!(s(parent_dir(&b("intro.md"))), "");
    assert_eq!(s(join_path(&b(""), &b("x.png"))), "x.png");
    assert_eq!(s(join_path(&b("src/"), &b("x.png"))), "src/x.png");
}

#[test]
fn test_format_img_tag_eager_and_lazy() {
    let eager = format_img_tag(&b("p.png"), &b("A"), 640, 480, 1);
    assert_eq!(
        s(eager),
        "<img src=\"p.png\" alt=\"A\" width=\"640\" height=\"480\" decoding=\"async\">"
    );
    let lazy = format_img_tag(&b("p.png"), &b("A"), 7, 9, 2);
    assert_eq!(
        s(lazy),
        "<img src=\"p.png\" alt=\"A\" width=\"7\" height=\"9\" loading=\"lazy\">"
    );
}

#[test]
fn test_supports_renderer() {
    let t = Tailor::new();
    assert!(t.supports_renderer(&b("html")));
    assert!(t.supports_renderer(&b("epub")));
    assert!(!t.supports_renderer(&b("not-supported")));
    assert_eq!(t.name(), "tailor-preprocessor");
}

#[test]
fn test_measure() {
    // A small book: a chapter with a dangling image reference and a nested
    // chapter without any, behind a separator. The tree shape, titles and
    // paths come back unchanged; the dangling reference stays as it was and
    // yields the one warning.
    let nested = Chapter {
        name: b("Nested"),
        content: b("no images here\n"),
        path: Some(b("test/nested.md")),
        sub_items: vec![],
    };
    let book = Book {
        sections: vec![
            BookItem::Chapter(Chapter {
                name: b("Test Chapter"),
                content: b("# Test Chapter\n![gone](missing_mdbook_tailor.png)\n"),
                path: Some(b("test.md")),
                sub_items: vec![BookItem::Chapter(nested)],
            }),
            BookItem::Separator,
        ],
    };
    let (out, warns) = measure(&b("/tmp"), book);
    assert_eq!(out.sections.len(), 2);
    match &out.sections[0] {
        BookItem::Chapter(c) => {
            assert_eq!(s(c.name.clone()), "Test Chapter");
            assert_eq!(
                s(c.content.clone()),
                "# Test Chapter\n![gone](missing_mdbook_tailor.png)\n"
            );
            assert_eq!(s(c.path.clone().unwrap()), "test.md");
            assert_eq!(c.sub_items.len(), 1);
            match &c.sub_items[0] {
                BookItem::Chapter(n) => {
                    assert_eq!(s(n.name.clone()), "Nested");
                    assert_eq!(s(n.content.clone()), "no images here\n");
                },
                _ => panic!("nested item is not a chapter"),
            }
        },
        _ => panic!("first item is not a chapter"),
    }
    assert!(matches!(&out.sections[1], BookItem::Separator));
    assert_eq!(warns.len(), 1);
    assert_eq!(s(warns[0].path.clone()), "/tmp/missing_mdbook_tailor.png");
    assert_eq!(s(warns[0].origin.clone()), "test.md");
}

#[test]
fn test_run_measures_book_images() {
    let img = image::ImageBuffer::from_pixel(320, 200, image::Rgb([1u8, 2u8, 3u8]));
    img.save("/tmp/mdbook_tailor_run_320x200.png").unwrap();
    let book = Book {
        sections: vec![BookItem::Chapter(Chapter {
            name: b("Ch"),
            content: b("![pic](mdbook_tailor_run_320x200.png)"),
            path: Some(b("ch.md")),
            sub_items: vec![],
        })],
    };
    let t = Tailor::new();
    let (out, warns) = t.run(&b("/tmp"), book);
    match &out.sections[0] {
        BookItem::Chapter(c) => {
            assert_eq!(
                s(c.content.clone()),
                "<img src=\"mdbook_tailor_run_320x200.png\" alt=\"pic\" width=\"320\" height=\"200\" decoding=\"async\">"
            );
        },
        _ => panic!("not a chapter"),
    }
    assert_eq!(warns.len(), 0);
}
