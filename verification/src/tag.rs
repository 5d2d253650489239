//! The replacement markup: an HTML `<img>` tag that carries the raw path
//! verbatim as `src`, the alt text, the measured pixel width and height, and
//! a loading hint — `decoding="async"` for the first resolved image of a
//! chapter, `loading="lazy"` for every later one.
use vstd::prelude::*;

verus! {

/// The decimal digits of `n`, most significant first.
pub open spec fn dec_digits(n: nat) -> Seq<u8>
    decreases n,
{
    if n < 10 {
        seq![(48 + n) as u8]
    } else {
        dec_digits(n / 10) + seq![(48 + n % 10) as u8]
    }
}

/// `<img src="`
pub open spec fn tag_src_open() -> Seq<u8> {
    seq![60u8, 105u8, 109u8, 103u8, 32u8, 115u8, 114u8, 99u8, 61u8, 34u8]
}

/// `" alt="`
pub open spec fn tag_alt_mid() -> Seq<u8> {
    seq![34u8, 32u8, 97u8, 108u8, 116u8, 61u8, 34u8]
}

/// `" width="`
pub open spec fn tag_width_mid() -> Seq<u8> {
    seq![34u8, 32u8, 119u8, 105u8, 100u8, 116u8, 104u8, 61u8, 34u8]
}

/// `" height="`
pub open spec fn tag_height_mid() -> Seq<u8> {
    seq![34u8, 32u8, 104u8, 101u8, 105u8, 103u8, 104u8, 116u8, 61u8, 34u8]
}

/// `decoding="async"`
pub open spec fn hint_eager() -> Seq<u8> {
    seq![
        100u8,
        101u8,
        99u8,
        111u8,
        100u8,
        105u8,
        110u8,
        103u8,
        61u8,
        34u8,
        97u8,
        115u8,
        121u8,
        110u8,
        99u8,
        34u8,
    ]
}

/// `loading="lazy"`
pub open spec fn hint_lazy() -> Seq<u8> {
    seq![108u8, 111u8, 97u8, 100u8, 105u8, 110u8, 103u8, 61u8, 34u8, 108u8, 97u8, 122u8, 121u8, 34u8]
}

/// The whole tag for one resolved image. `eager` picks the loading hint of a
/// chapter's first resolved image.
pub open spec fn tag_spec(url: Seq<u8>, alt: Seq<u8>, width: u32, height: u32, eager: bool) -> Seq<
    u8,
> {
    tag_src_open() + url + tag_alt_mid() + alt + tag_width_mid() + dec_digits(width as nat)
        + tag_height_mid() + dec_digits(height as nat) + seq![34u8, 32u8] + (if eager {
        hint_eager()
    } else {
        hint_lazy()
    }) + seq![62u8]
}

/// Appends the decimal digits of `n` to `out`.
pub fn push_decimal(out: &mut Vec<u8>, n: u32)
    ensures
        final(out)@ == old(out)@ + dec_digits(n as nat),
    decreases n,
{
    if n < 10 {
        out.push(48 + (n as u8));
        assert(out@ =~= old(out)@ + dec_digits(n as nat));
    } else {
        push_decimal(out, n / 10);
        out.push(48 + ((n % 10) as u8));
        assert(out@ =~= old(out)@ + dec_digits(n as nat));
    }
}

/// Appends the bytes of `s` to `out`.
pub fn push_bytes(out: &mut Vec<u8>, s: &Vec<u8>)
    ensures
        final(out)@ == old(out)@ + s@,
{
    let mut i: usize = 0;
    while i < s.len()
        invariant
            i <= s.len(),
            out@ == old(out)@ + s@.subrange(0, i as int),
        decreases s.len() - i,
    {
        out.push(s[i]);
        assert(out@ =~= old(out)@ + s@.subrange(0, i as int + 1));
        i = i + 1;
    }
    assert(s@.subrange(0, s@.len() as int) =~= s@);
}

/// Appends `<img src="`.
fn push_src_open(out: &mut Vec<u8>)
    ensures
        final(out)@ == old(out)@ + tag_src_open(),
{
    out.push(60u8);
    out.push(105u8);
    out.push(109u8);
    out.push(103u8);
    out.push(32u8);
    out.push(115u8);
    out.push(114u8);
    out.push(99u8);
    out.push(61u8);
    out.push(34u8);
    assert(out@ =~= old(out)@ + tag_src_open());
}

/// Appends `" alt="`.
fn push_alt_mid(out: &mut Vec<u8>)
    ensures
        final(out)@ == old(out)@ + tag_alt_mid(),
{
    out.push(34u8);
    out.push(32u8);
    out.push(97u8);
    out.push(108u8);
    out.push(116u8);
    out.push(61u8);
    out.push(34u8);
    assert(out@ =~= old(out)@ + tag_alt_mid());
}

/// Appends `" width="`.
fn push_width_mid(out: &mut Vec<u8>)
    ensures
        final(out)@ == old(out)@ + tag_width_mid(),
{
    out.push(34u8);
    out.push(32u8);
    out.push(119u8);
    out.push(105u8);
    out.push(100u8);
    out.push(116u8);
    out.push(104u8);
    out.push(61u8);
    out.push(34u8);
    assert(out@ =~= old(out)@ + tag_width_mid());
}

/// Appends `" height="`.
fn push_height_mid(out: &mut Vec<u8>)
    ensures
        final(out)@ == old(out)@ + tag_height_mid(),
{
    out.push(34u8);
    out.push(32u8);
    out.push(104u8);
    out.push(101u8);
    out.push(105u8);
    out.push(103u8);
    out.push(104u8);
    out.push(116u8);
    out.push(61u8);
    out.push(34u8);
    assert(out@ =~= old(out)@ + tag_height_mid());
}

/// Appends `" `.
fn push_quote_space(out: &mut Vec<u8>)
    ensures
        final(out)@ == old(out)@ + seq![34u8, 32u8],
{
    out.push(34u8);
    out.push(32u8);
    assert(out@ =~= old(out)@ + seq![34u8, 32u8]);
}

/// Appends `decoding="async"`.
fn push_hint_eager(out: &mut Vec<u8>)
    ensures
        final(out)@ == old(out)@ + hint_eager(),
{
    out.push(100u8);
    out.push(101u8);
    out.push(99u8);
    out.push(111u8);
    out.push(100u8);
    out.push(105u8);
    out.push(110u8);
    out.push(103u8);
    out.push(61u8);
    out.push(34u8);
    out.push(97u8);
    out.push(115u8);
    out.push(121u8);
    out.push(110u8);
    out.push(99u8);
    out.push(34u8);
    assert(out@ =~= old(out)@ + hint_eager());
}

/// Appends `loading="lazy"`.
fn push_hint_lazy(out: &mut Vec<u8>)
    ensures
        final(out)@ == old(out)@ + hint_lazy(),
{
    out.push(108u8);
    out.push(111u8);
    out.push(97u8);
    out.push(100u8);
    out.push(105u8);
    out.push(110u8);
    out.push(103u8);
    out.push(61u8);
    out.push(34u8);
    out.push(108u8);
    out.push(97u8);
    out.push(122u8);
    out.push(121u8);
    out.push(34u8);
    assert(out@ =~= old(out)@ + hint_lazy());
}

/// The image tag for one match. `count` is the 1-based ordinal of the match
/// among the chapter's resolved images; the first gets the eager decoding
/// hint, every later one the lazy loading hint.
pub fn format_img_tag(url: &Vec<u8>, alt: &Vec<u8>, width: u32, height: u32, count: u32) -> (r: Vec<
    u8,
>)
    ensures
        r@ == tag_spec(url@, alt@, width, height, count <= 1),
{
    let mut r: Vec<u8> = Vec::new();
    push_src_open(&mut r);
    assert(r@ =~= tag_src_open());
    push_bytes(&mut r, url);
    push_alt_mid(&mut r);
    push_bytes(&mut r, alt);
    push_width_mid(&mut r);
    push_decimal(&mut r, width);
    push_height_mid(&mut r);
    push_decimal(&mut r, height);
    push_quote_space(&mut r);
    if count <= 1 {
        push_hint_eager(&mut r);
    } else {
        push_hint_lazy(&mut r);
    }
    r.push(62u8);
    assert(r@ =~= tag_spec(url@, alt@, width, height, count <= 1));
    r
}

/// A tag never holds a line break: its pieces are fixed bytes, digits, and
/// the alt text and path taken from a single line.
pub proof fn lemma_tag_no_newline(url: Seq<u8>, alt: Seq<u8>, width: u32, height: u32, eager: bool)
    requires
        forall|k: int| 0 <= k < url.len() ==> url[k] != 10u8,
        forall|k: int| 0 <= k < alt.len() ==> alt[k] != 10u8,
    ensures
        forall|k: int|
            0 <= k < tag_spec(url, alt, width, height, eager).len() ==> tag_spec(
                url,
                alt,
                width,
                height,
                eager,
            )[k] != 10u8,
{
    lemma_dec_digits_no_newline(width as nat);
    lemma_dec_digits_no_newline(height as nat);
}

/// Decimal digits are never a line break.
pub proof fn lemma_dec_digits_no_newline(n: nat)
    ensures
        forall|k: int| 0 <= k < dec_digits(n).len() ==> dec_digits(n)[k] != 10u8,
        dec_digits(n).len() >= 1,
    decreases n,
{
    if n >= 10 {
        lemma_dec_digits_no_newline(n / 10);
    }
}

/// A tag begins with `<`, which no marker line does, so a transformed line
/// can never match again as a marker.
pub proof fn lemma_tag_not_marker(url: Seq<u8>, alt: Seq<u8>, width: u32, height: u32, eager: bool)
    ensures
        !crate::marker::is_marker(tag_spec(url, alt, width, height, eager)),
{
    let t = tag_spec(url, alt, width, height, eager);
    assert(t.len() > 0);
    assert(t[0] == 60u8);
    assert(!crate::marker::is_ws(t[0]));
    crate::marker::lemma_skip_ws_exact(t, 0, 0);
}

} // verus!
