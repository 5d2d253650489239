use mdbook_tailor::render::render_chapter;
use mdbook_tailor::render::transform_chapter;

fn b(s: &str) -> Vec<u8> {
    s.as_bytes().to_vec()
}

fn s(v: Vec<u8>) -> String {
    String::from_utf8(v).unwrap()
}

#[test]
fn test_no_markers_unchanged() {
    let content = b("# Title\n\nplain prose, no images here.\n");
    let (out, warns) = render_chapter(&b("src"), &Some(b("guide/intro.md")), &content, &vec![]);
    assert_eq!(out, content);
    assert_eq!(warns.len(), 0);
}

#[test]
fn test_marker_replaced_with_dimensions() {
    let content = b("![Diagram](images/diagram.png)");
    let dims = vec![Some((640u32, 480u32))];
    let (out, warns) = render_chapter(&b("src"), &Some(b("guide/intro.md")), &content, &dims);
    assert_eq!(
        s(out),
        "<img src=\"images/diagram.png\" alt=\"Diagram\" width=\"640\" height=\"480\" decoding=\"async\">"
    );
    assert_eq!(warns.len(), 0);
}

#[test]
fn test_missing_file_line_unchanged_one_warning() {
    let content = b("![Diagram](images/diagram.png)");
    let dims = vec![None];
    let (out, warns) = render_chapter(&b("src"), &Some(b("guide/intro.md")), &content, &dims);
    assert_eq!(out, content);
    assert_eq!(warns.len(), 1);
    assert_eq!(s(warns[0].path.clone()), "src/guide/images/diagram.png");
    assert_eq!(s(warns[0].origin.clone()), "guide/intro.md");
}

#[test]
fn test_two_images_eager_then_lazy() {
    let content = b("![a](one.png)\nsome text\n![b](two.png)");
    let dims = vec![Some((10u32, 20u32)), Some((30u32, 40u32))];
    let (out, warns) = render_chapter(&b("src"), &Some(b("ch.md")), &content, &dims);
    assert_eq!(
        s(out),
        "<img src=\"one.png\" alt=\"a\" width=\"10\" height=\"20\" decoding=\"async\">\n\
         some text\n\
         <img src=\"two.png\" alt=\"b\" width=\"30\" height=\"40\" loading=\"lazy\">"
    );
    assert_eq!(warns.len(), 0);
}

#[test]
fn test_failed_probe_does_not_consume_ordinal() {
    // The first marker fails, so the second resolved one is still the
    // chapter's first success and gets the eager hint.
    let content = b("![a](one.png)\n![b](two.png)");
    let dims = vec![None, Some((30u32, 40u32))];
    let (out, warns) = render_chapter(&b("src"), &Some(b("ch.md")), &content, &dims);
    assert_eq!(
        s(out),
        "![a](one.png)\n<img src=\"two.png\" alt=\"b\" width=\"30\" height=\"40\" decoding=\"async\">"
    );
    assert_eq!(warns.len(), 1);
    assert_eq!(s(warns[0].path.clone()), "src/one.png");
}

#[test]
fn test_second_pass_leaves_tags_alone() {
    let content = b("![a](one.png)\nprose");
    let dims = vec![Some((5u32, 6u32))];
    let (once, _) = render_chapter(&b("src"), &None, &content, &dims);
    // Every probe succeeded, so no marker is left; a second pass must be the
    // identity, whatever its probes would have returned.
    let (twice, warns) = render_chapter(&b("src"), &None, &once, &dims);
    assert_eq!(twice, once);
    assert_eq!(warns.len(), 0);
}

#[test]
fn test_inline_image_not_matched() {
    let content = b("see ![a](x.png) in prose\n| ![b](y.png) | cell |");
    let (out, warns) = render_chapter(&b("src"), &None, &content, &vec![Some((1u32, 1u32))]);
    assert_eq!(out, content);
    assert_eq!(warns.len(), 0);
}

#[test]
fn test_second_marker_on_same_line_not_replaced() {
    // Two markers on one line: the line is not a lone marker, so nothing on
    // it is rewritten.
    let content = b("![a](x.png)![b](y.png)");
    let (out, warns) = render_chapter(&b("src"), &None, &content, &vec![Some((1u32, 1u32))]);
    assert_eq!(out, content);
    assert_eq!(warns.len(), 0);
}

#[test]
fn test_indented_marker_matches_and_drops_indent() {
    let content = b("  ![a](x.png)");
    let dims = vec![Some((7u32, 8u32))];
    let (out, _) = render_chapter(&b("src"), &None, &content, &dims);
    assert_eq!(
        s(out),
        "<img src=\"x.png\" alt=\"a\" width=\"7\" height=\"8\" decoding=\"async\">"
    );
}

#[test]
fn test_crlf_line_not_matched() {
    let content = b("![a](x.png)\r\n");
    let (out, warns) = render_chapter(&b("src"), &None, &content, &vec![Some((1u32, 1u32))]);
    assert_eq!(out, content);
    assert_eq!(warns.len(), 0);
}

#[test]
fn test_empty_alt_and_trailing_newline_kept() {
    let content = b("![](x.png)\n");
    let dims = vec![Some((1u32, 2u32))];
    let (out, _) = render_chapter(&b("src"), &None, &content, &dims);
    assert_eq!(
        s(out),
        "<img src=\"x.png\" alt=\"\" width=\"1\" height=\"2\" decoding=\"async\">\n"
    );
}

#[test]
fn test_transform_missing_file_warns() {
    let content = b("![gone](no_such_mdbook_tailor_image.png)\ntext");
    let (out, warns) = transform_chapter(&b("/tmp"), &Some(b("intro.md")), &content);
    assert_eq!(out, content);
    assert_eq!(warns.len(), 1);
    assert_eq!(s(warns[0].path.clone()), "/tmp/no_such_mdbook_tailor_image.png");
    assert_eq!(s(warns[0].origin.clone()), "intro.md");
}

#[test]
fn test_transform_real_image_measured() {
    let img = image::ImageBuffer::from_pixel(640, 480, image::Rgb([12u8, 34u8, 56u8]));
    img.save("/tmp/mdbook_tailor_test_640x480.png").unwrap();
    let content = b("![Diagram](mdbook_tailor_test_640x480.png)");
    let (out, warns) = transform_chapter(&b("/tmp"), &Some(b("intro.md")), &content);
    assert_eq!(
        s(out),
        "<img src=\"mdbook_tailor_test_640x480.png\" alt=\"Diagram\" width=\"640\" height=\"480\" decoding=\"async\">"
    );
    assert_eq!(warns.len(), 0);
}

#[test]
fn test_transform_vector_path_is_a_probe_failure() {
    // A vector-format reference the probe cannot decode: the line stays as
    // it was and one warning names the resolved path.
    let content = b("![v](mdbook_tailor_test_vector.svg)");
    let (out, warns) = transform_chapter(&b("/tmp"), &None, &content);
    assert_eq!(out, content);
    assert_eq!(warns.len(), 1);
    assert_eq!(s(warns[0].path.clone()), "/tmp/mdbook_tailor_test_vector.svg");
}
