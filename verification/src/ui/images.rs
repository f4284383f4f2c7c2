//! Images in the preview: drawn as half-block mosaics that work in any
//! terminal, or sent through the kitty graphics protocol where the terminal
//! speaks it.
use vstd::prelude::*;

use crate::config::theme::Color;
use crate::paths::{opt_string_view, opt_view};
use crate::editor::{decimal, push_decimal};
use crate::text::{eq_ignore_ascii_case, eq_ignore_ascii_case_spec};
use crate::ui::styled::{line_view, Span, SpanV, Style};

use base64::Engine;

verus! {

/// What `image::imageops::resize` with the Triangle filter gives for the
/// RGBA pixels `pixels` of a `w`×`h` image, scaled to `nw`×`nh`: none when
/// the pixels do not fill the image.
pub uninterp spec fn resized_rgba(pixels: Seq<u8>, w: u32, h: u32, nw: u32, nh: u32) -> Option<Seq<u8>>;

/// `image::RgbaImage::from_raw` and `image::imageops::resize` (Triangle
/// filter). Stated: it fails exactly when the pixels are fewer than the
/// image needs, and the result holds `nw`×`nh` RGBA pixels; the resampling
/// itself is named, not stated.
#[verifier::external_body]
fn resize_rgba(pixels: &Vec<u8>, w: u32, h: u32, nw: u32, nh: u32) -> (r: Option<Vec<u8>>)
    requires
        nw as int * nh as int * 4 <= usize::MAX,
        w as int * nh as int * 16 <= usize::MAX,
    ensures
        match r {
            Some(v) => resized_rgba(pixels@, w, h, nw, nh) == Some(v@) && v@.len() == nw as int * nh as int * 4,
            None => resized_rgba(pixels@, w, h, nw, nh) is None,
        },
        r is None <==> pixels@.len() < w as int * h as int * 4,
{
    let img = image::RgbaImage::from_raw(w, h, pixels.clone())?;
    Some(image::imageops::resize(&img, nw, nh, image::imageops::FilterType::Triangle).into_raw())
}

/// The color of the RGBA pixel at `(x, y)` of an image `w` pixels wide.
pub open spec fn pixel_color(px: Seq<u8>, w: int, x: int, y: int) -> Color {
    let i = 4 * (y * w + x);
    Color::Rgb(px[i], px[i + 1], px[i + 2])
}

/// The half-block mosaic of an image already scaled to `cols`×`2·rows`
/// pixels: each cell is `▀`, its upper half the pixel above, its lower half
/// the pixel below.
pub open spec fn mosaic_spec(px: Seq<u8>, cols: int, rows: int) -> Seq<Seq<SpanV>> {
    Seq::new(
        rows as nat,
        |r: int|
            Seq::new(
                cols as nat,
                |c: int|
                    SpanV {
                        text: seq!['▀'],
                        style: Style {
                            fg: Some(pixel_color(px, cols, c, 2 * r)),
                            bg: Some(pixel_color(px, cols, c, 2 * r + 1)),
                            mods: crate::ui::styled::no_mods(),
                        },
                    },
            ),
    )
}

/// The mosaic shows every pixel row of the image exactly once, in order:
/// the mosaic has `rows` rows of `cols` cells, and pixel `(x, y)` is the
/// upper half (foreground) of cell `(y / 2, x)` when `y` is even, its lower
/// half (background) when `y` is odd; its color is the pixel's red, green
/// and blue bytes.
pub proof fn lemma_mosaic_covers_pixels(px: Seq<u8>, cols: int, rows: int)
    requires
        cols >= 0,
        rows >= 0,
        px.len() == cols * 2 * rows * 4,
    ensures
        mosaic_spec(px, cols, rows).len() == rows,
        forall|r: int| 0 <= r < rows ==> (#[trigger] mosaic_spec(px, cols, rows)[r]).len() == cols,
        forall|x: int, y: int|
            0 <= x < cols && 0 <= y < 2 * rows ==> {
                let i = 4 * (y * cols + x);
                let cell = #[trigger] mosaic_spec(px, cols, rows)[y / 2][x];
                &&& cell.text == seq!['▀']
                &&& (if y % 2 == 0 {
                    cell.style.fg
                } else {
                    cell.style.bg
                }) == Some(Color::Rgb(px[i], px[i + 1], px[i + 2]))
            },
{
    assert forall|x: int, y: int| 0 <= x < cols && 0 <= y < 2 * rows implies {
        let i = 4 * (y * cols + x);
        let cell = #[trigger] mosaic_spec(px, cols, rows)[y / 2][x];
        &&& cell.text == seq!['▀']
        &&& (if y % 2 == 0 {
            cell.style.fg
        } else {
            cell.style.bg
        }) == Some(Color::Rgb(px[i], px[i + 1], px[i + 2]))
    } by {
        let r = y / 2;
        assert(0 <= r < rows);
        if y % 2 == 0 {
            assert(y == 2 * r);
        } else {
            assert(y == 2 * r + 1);
        }
    }
}

/// The mosaic of the scaled pixels `px` (`cols`×`2·rows`, RGBA).
pub fn mosaic_from_pixels(px: &Vec<u8>, cols: u16, rows: u16) -> (r: Vec<Vec<Span>>)
    requires
        px@.len() == cols as int * 2 * rows as int * 4,
    ensures
        crate::ui::styled::lines_view(r@) == mosaic_spec(px@, cols as int, rows as int),
{
    let ghost want = mosaic_spec(px@, cols as int, rows as int);
    let w = cols as usize;
    let n = px.len();
    let mut lines: Vec<Vec<Span>> = Vec::new();
    let mut row: u16 = 0;
    let mut top_base: usize = 0;
    while row < rows
        invariant
            row <= rows,
            w == cols as usize,
            n == px@.len(),
            px@.len() == cols as int * 2 * rows as int * 4,
            top_base as int == 8 * (row as int * w as int),
            want == mosaic_spec(px@, cols as int, rows as int),
            crate::ui::styled::lines_view(lines@) == want.take(row as int),
        decreases rows - row,
    {
        proof {
            assert(8 * (row as int * w as int) + 8 * w as int <= px@.len()) by (nonlinear_arith)
                requires
                    row < rows,
                    px@.len() == w as int * 2 * rows as int * 4,
            ;
        }
        let mut spans: Vec<Span> = Vec::new();
        let mut col: u16 = 0;
        while col < cols
            invariant
                col <= cols,
                row < rows,
                w == cols as usize,
                n == px@.len(),
                px@.len() == cols as int * 2 * rows as int * 4,
                top_base as int == 8 * (row as int * w as int),
                top_base + 8 * w <= px@.len(),
                want == mosaic_spec(px@, cols as int, rows as int),
                line_view(spans@) == want[row as int].take(col as int),
            decreases cols - col,
        {
            let top = top_base + 4 * (col as usize);
            let bot = top_base + 4 * w + 4 * (col as usize);
            proof {
                assert(top as int == 4 * ((2 * row as int) * w as int + col as int)) by (nonlinear_arith)
                    requires
                        top as int == 8 * (row as int * w as int) + 4 * col as int,
                ;
                assert(bot as int == 4 * ((2 * row as int + 1) * w as int + col as int)) by (nonlinear_arith)
                    requires
                        bot as int == 8 * (row as int * w as int) + 4 * w as int + 4 * col as int,
                ;
            }
            let fg = Color::Rgb(px[top], px[top + 1], px[top + 2]);
            let bg = Color::Rgb(px[bot], px[bot + 1], px[bot + 2]);
            let mut t = String::new();
            crate::text::string_push(&mut t, '▀');
            assert(t@ =~= seq!['▀']);
            let sp = Span { text: t, style: Style::fg(fg).on(bg) };
            let ghost g = line_view(spans@);
            spans.push(sp);
            assert(line_view(spans@) =~= g.push(crate::ui::styled::span_view(sp)));
            assert(want[row as int].take(col + 1) =~= want[row as int].take(col as int).push(want[row as int][col as int]));
            col = col + 1;
        }
        assert(want[row as int].take(cols as int) =~= want[row as int]);
        proof {
            crate::ui::markdown::lemma_lines_push(lines@, spans);
        }
        lines.push(spans);
        assert(want.take(row + 1) =~= want.take(row as int).push(want[row as int]));
        top_base = top_base + 8 * w;
        assert(top_base as int == 8 * ((row as int + 1) * w as int)) by (nonlinear_arith)
            requires
                top_base as int == 8 * (row as int * w as int) + 8 * w as int,
        ;
        row = row + 1;
    }
    assert(want.take(rows as int) =~= want);
    lines
}

/// At least one column and one row.
pub open spec fn at_least_one(n: u16) -> u16 {
    if n > 0 {
        n
    } else {
        1
    }
}

/// The scaled image of a mosaic fits in memory: `cols`×`2·rows` RGBA
/// pixels, and the scaler's intermediate `w`×`2·rows` image of four floats
/// a pixel.
pub open spec fn mosaic_fits(w: u32, cols: u16, rows: u16) -> bool {
    &&& at_least_one(cols) as int * (2 * at_least_one(rows) as int) * 4 <= usize::MAX
    &&& w as int * (2 * at_least_one(rows) as int) * 16 <= usize::MAX
}

/// The mosaic of the `w`×`h` RGBA image `pixels` in `cols`×`rows` cells (at
/// least one of each): the image is scaled to one pixel per column and two
/// per row first. None when the pixels do not fill the image.
pub fn mosaic_lines(pixels: &Vec<u8>, w: u32, h: u32, cols: u16, rows: u16) -> (r: Option<Vec<Vec<Span>>>)
    requires
        mosaic_fits(w, cols, rows),
    ensures
        ({
            let c = at_least_one(cols);
            let rr = at_least_one(rows);
            match resized_rgba(pixels@, w, h, c as u32, (2 * rr) as u32) {
                Some(px) => r matches Some(l) && crate::ui::styled::lines_view(l@) == mosaic_spec(px, c as int, rr as int),
                None => r is None,
            }
        }),
{
    let c: u16 = if cols > 0 { cols } else { 1 };
    let rr: u16 = if rows > 0 { rows } else { 1 };
    match resize_rgba(pixels, w, h, c as u32, 2 * (rr as u32)) {
        Some(px) => {
            assert(px@.len() == c as int * 2 * rr as int * 4) by (nonlinear_arith)
                requires
                    px@.len() == c as int * (2 * rr as int) * 4,
            ;
            Some(mosaic_from_pixels(&px, c, rr))
        },
        None => None,
    }
}

/// Premultiplied alpha undone: in each whole RGBA pixel whose alpha is
/// neither 0 nor 255, each color is scaled by 255 / alpha, at most 255.
pub open spec fn unpremultiplied(px: Seq<u8>) -> Seq<u8> {
    Seq::new(
        px.len(),
        |i: int|
            {
                let p = i - i % 4;
                let a = px[p + 3];
                if i % 4 < 3 && p + 3 < px.len() && 0 < a < 255 {
                    let v = px[i] as int * 255 / a as int;
                    if v > 255 {
                        255u8
                    } else {
                        v as u8
                    }
                } else {
                    px[i]
                }
            },
    )
}

/// Undoes premultiplied alpha in the RGBA pixels `px`.
pub fn unpremultiply(px: &mut Vec<u8>)
    ensures
        final(px)@ == unpremultiplied(old(px)@),
{
    let ghost orig = px@;
    let n = px.len();
    let mut i: usize = 0;
    while n - i >= 4
        invariant
            n == px@.len(),
            orig.len() == n,
            i % 4 == 0,
            i <= n,
            forall|k: int| 0 <= k < i ==> #[trigger] px@[k] == unpremultiplied(orig)[k],
            forall|k: int| i <= k < n ==> #[trigger] px@[k] == orig[k],
        decreases n - i,
    {
        let a = px[i + 3];
        if a > 0 && a < 255 {
            let mut j: usize = 0;
            while j < 3
                invariant
                    j <= 3,
                    n == px@.len(),
                    orig.len() == n,
                    i % 4 == 0,
                    i + 4 <= n,
                    a == orig[i + 3],
                    0 < a < 255,
                    forall|k: int| 0 <= k < i ==> #[trigger] px@[k] == unpremultiplied(orig)[k],
                    forall|k: int| i <= k < i + j ==> #[trigger] px@[k] == unpremultiplied(orig)[k],
                    forall|k: int| i + j <= k < n ==> #[trigger] px@[k] == orig[k],
                decreases 3 - j,
            {
                let v = (px[i + j] as u32) * 255 / (a as u32);
                let b: u8 = if v > 255 {
                    255
                } else {
                    v as u8
                };
                px.set(i + j, b);
                proof {
                    let k = (i + j) as int;
                    assert(k % 4 == j as int);
                    assert(k - k % 4 == i);
                }
                j = j + 1;
            }
            proof {
                assert forall|k: int| i <= k < i + 4 implies #[trigger] px@[k] == unpremultiplied(orig)[k] by {
                    if k == i + 3 {
                        assert(k % 4 == 3);
                    }
                }
            }
        } else {
            proof {
                assert forall|k: int| i <= k < i + 4 implies #[trigger] px@[k] == unpremultiplied(orig)[k] by {
                    assert(k - k % 4 == i);
                }
            }
        }
        i = i + 4;
    }
    proof {
        assert forall|k: int| i <= k < n implies #[trigger] px@[k] == unpremultiplied(orig)[k] by {
            assert(k - k % 4 + 3 >= n);
        }
    }
    assert(px@ =~= unpremultiplied(orig));
}

/// Whether the path `p` names an SVG file (extension `svg` in any case).
pub open spec fn is_svg_spec(p: Seq<char>) -> bool {
    match crate::paths::path_extension(p) {
        Some(e) => eq_ignore_ascii_case_spec(e, "svg"@),
        None => false,
    }
}

/// Whether the path `p` names an SVG file.
pub fn is_svg(p: &str) -> (r: bool)
    ensures
        r == is_svg_spec(p@),
{
    match crate::paths::extension_of(p) {
        Some(e) => eq_ignore_ascii_case(e, "svg"),
        None => false,
    }
}

/// The longest side, in pixels, of an image sent over the kitty protocol;
/// larger ones are scaled down first (the terminal scales to the cells).
pub const MAX_KITTY_DIM: u32 = 1600;

/// What `DynamicImage::resize` (Lanczos3, aspect ratio kept) gives for the
/// RGBA image `pixels` of `w`×`h` scaled to fit in `max`×`max`: its size and
/// pixels; none when the pixels do not fill the image.
pub uninterp spec fn fitted_rgba(pixels: Seq<u8>, w: u32, h: u32, max: u32) -> Option<(u32, u32, Seq<u8>)>;

/// `image::RgbaImage::from_raw`, then `DynamicImage::resize` (Lanczos3) to
/// fit in `max`×`max`, for an image larger than that. Stated: it fails
/// exactly when the pixels are fewer than the image needs; the result is at
/// most `max` on each side and holds width×height RGBA pixels. The size
/// chosen (the aspect ratio kept, rounded) and the resampling are named,
/// not stated.
#[verifier::external_body]
fn fit_rgba(pixels: &Vec<u8>, w: u32, h: u32, max: u32) -> (r: Option<(u32, u32, Vec<u8>)>)
    requires
        1 <= max <= MAX_KITTY_DIM,
        w > max || h > max,
        w as int * MAX_KITTY_DIM as int * 16 <= usize::MAX,
    ensures
        match r {
            Some((nw, nh, v)) => fitted_rgba(pixels@, w, h, max) == Some((nw, nh, v@)) && v@.len()
                == nw as int * nh as int * 4 && 1 <= nw <= max && 1 <= nh <= max,
            None => fitted_rgba(pixels@, w, h, max) is None,
        },
        r is None <==> pixels@.len() < w as int * h as int * 4,
{
    let img = image::RgbaImage::from_raw(w, h, pixels.clone())?;
    let out = image::DynamicImage::ImageRgba8(img).resize(max, max, image::imageops::FilterType::Lanczos3).to_rgba8();
    Some((out.width(), out.height(), out.into_raw()))
}

/// The character of the standard base64 alphabet (RFC 4648) for the six
/// bits `v`: `A`-`Z`, `a`-`z`, `0`-`9`, `+`, `/`.
pub open spec fn base64_digit(v: int) -> u8 {
    if v < 26 {
        (65 + v) as u8
    } else if v < 52 {
        (97 + v - 26) as u8
    } else if v < 62 {
        (48 + v - 52) as u8
    } else if v == 62 {
        43u8
    } else {
        47u8
    }
}

/// Standard base64 with padding (RFC 4648) of `bytes`: each group of three
/// bytes gives four characters; a last group of one or two bytes gives two or
/// three, then `=` up to four.
pub open spec fn base64_standard(bytes: Seq<u8>) -> Seq<u8>
    decreases bytes.len(),
{
    if bytes.len() == 0 {
        seq![]
    } else if bytes.len() == 1 {
        let x = bytes[0] as int;
        seq![base64_digit(x / 4), base64_digit((x % 4) * 16), 61u8, 61u8]
    } else if bytes.len() == 2 {
        let (x, y) = (bytes[0] as int, bytes[1] as int);
        seq![base64_digit(x / 4), base64_digit((x % 4) * 16 + y / 16), base64_digit((y % 16) * 4), 61u8]
    } else {
        let (x, y, z) = (bytes[0] as int, bytes[1] as int, bytes[2] as int);
        seq![
            base64_digit(x / 4),
            base64_digit((x % 4) * 16 + y / 16),
            base64_digit((y % 16) * 4 + z / 64),
            base64_digit(z % 64),
        ] + base64_standard(bytes.skip(3))
    }
}

/// `base64::engine::general_purpose::STANDARD.encode`, as bytes: the
/// standard alphabet with padding, as the crate documents it. Four
/// characters for every three bytes or part of them.
#[verifier::external_body]
fn base64_encode(bytes: &Vec<u8>) -> (r: Vec<u8>)
    requires
        4 * ((bytes@.len() + 2) / 3) <= usize::MAX,
    ensures
        r@ == base64_standard(bytes@),
        r@.len() == 4 * ((bytes@.len() + 2) / 3),
{
    base64::engine::general_purpose::STANDARD.encode(bytes).into_bytes()
}

/// ASCII text as bytes.
pub open spec fn ascii(s: Seq<char>) -> Seq<u8> {
    s.map_values(|c: char| c as u8)
}

/// How many 4096-byte chunks the payload is sent in.
pub open spec fn chunk_count(n: nat) -> nat {
    ((n + 4095) / 4096) as nat
}

/// The control sequence that starts chunk `i` of `n`: the first one says
/// the format (32-bit RGBA), the pixel size and the cells to fill; each says
/// whether more chunks follow.
pub open spec fn kitty_header(i: nat, n: nat, w: u32, h: u32, cols: u16, rows: u16) -> Seq<u8> {
    let more = if i + 1 < n {
        seq!['1']
    } else {
        seq!['0']
    };
    if i == 0 {
        ascii(
            seq!['\x1b'] + "_Ga=T,f=32,s="@ + decimal(w as nat) + ",v="@ + decimal(h as nat) + ",c="@
                + decimal(cols as nat) + ",r="@ + decimal(rows as nat) + ",m="@ + more + seq![';'],
        )
    } else {
        ascii(seq!['\x1b'] + "_Gm="@ + more + seq![';'])
    }
}

/// The first `k` chunks of the payload, each with its header and the
/// terminator `ESC \`.
pub open spec fn kitty_prefix(payload: Seq<u8>, k: nat, w: u32, h: u32, cols: u16, rows: u16) -> Seq<u8>
    decreases k,
{
    if k == 0 {
        seq![]
    } else {
        let i = (k - 1) as nat;
        let n = chunk_count(payload.len());
        let end: int = if 4096 * (i + 1) < payload.len() {
            (4096 * (i + 1)) as int
        } else {
            payload.len() as int
        };
        kitty_prefix(payload, i, w, h, cols, rows) + kitty_header(i, n, w, h, cols, rows)
            + payload.subrange(4096 * i as int, end) + seq![0x1bu8, 0x5cu8]
    }
}

/// The kitty graphics escape sequences that draw an image whose base64
/// payload is `payload` (`w`×`h` pixels) into `cols`×`rows` cells.
pub open spec fn kitty_spec(payload: Seq<u8>, w: u32, h: u32, cols: u16, rows: u16) -> Seq<u8> {
    kitty_prefix(payload, chunk_count(payload.len()), w, h, cols, rows)
}

/// Appends the characters of the ASCII text `s` as bytes.
fn push_ascii(out: &mut Vec<u8>, s: &str)
    ensures
        final(out)@ == old(out)@ + ascii(s@),
{
    let v = crate::text::chars_of(s);
    let mut i: usize = 0;
    while i < v.len()
        invariant
            i <= v.len(),
            v@ == s@,
            out@ == old(out)@ + ascii(v@.take(i as int)),
        decreases v.len() - i,
    {
        out.push(v[i] as u8);
        assert(ascii(v@.take(i + 1)) =~= ascii(v@.take(i as int)).push(v@[i as int] as u8));
        i = i + 1;
    }
    assert(v@.take(v@.len() as int) =~= v@);
}

fn push_number(out: &mut Vec<u8>, n: u64)
    ensures
        final(out)@ == old(out)@ + ascii(decimal(n as nat)),
{
    let mut s = String::new();
    push_decimal(&mut s, n);
    assert(s@ =~= decimal(n as nat));
    push_ascii(out, s.as_str());
}

/// The kitty escape sequences for the base64 payload `payload`.
pub fn kitty_sequences(payload: &Vec<u8>, w: u32, h: u32, cols: u16, rows: u16) -> (r: Vec<u8>)
    ensures
        r@ == kitty_spec(payload@, w, h, cols, rows),
{
    let len = payload.len();
    let n: usize = len / 4096 + if len % 4096 > 0 { 1 } else { 0 };
    assert(n == chunk_count(len as nat));
    let mut out: Vec<u8> = Vec::new();
    let mut i: usize = 0;
    assert(out@ =~= kitty_prefix(payload@, 0, w, h, cols, rows));
    while i < n
        invariant
            i <= n,
            len == payload@.len(),
            n == chunk_count(len as nat),
            out@ == kitty_prefix(payload@, i as nat, w, h, cols, rows),
        decreases n - i,
    {
        let ghost before = out@;
        let more = i + 1 < n;
        if i == 0 {
            push_ascii(&mut out, "\x1b_Ga=T,f=32,s=");
            push_number(&mut out, w as u64);
            push_ascii(&mut out, ",v=");
            push_number(&mut out, h as u64);
            push_ascii(&mut out, ",c=");
            push_number(&mut out, cols as u64);
            push_ascii(&mut out, ",r=");
            push_number(&mut out, rows as u64);
            push_ascii(&mut out, ",m=");
        } else {
            push_ascii(&mut out, "\x1b_Gm=");
        }
        out.push(if more { 0x31u8 } else { 0x30u8 });
        out.push(0x3bu8);
        proof {
            reveal_strlit("\x1b_Ga=T,f=32,s=");
            reveal_strlit("\x1b_Gm=");
            reveal_strlit("_Ga=T,f=32,s=");
            reveal_strlit("_Gm=");
            reveal_strlit(",v=");
            reveal_strlit(",c=");
            reveal_strlit(",r=");
            reveal_strlit(",m=");
            let hd = kitty_header(i as nat, n as nat, w, h, cols, rows);
            assert(out@ =~= before + hd);
        }
        let start = 4096 * i;
        let end = if len - start > 4096 { start + 4096 } else { len };
        let mut k = start;
        let ghost mid = out@;
        while k < end
            invariant
                start <= k <= end <= len,
                len == payload@.len(),
                out@ == mid + payload@.subrange(start as int, k as int),
            decreases end - k,
        {
            out.push(payload[k]);
            assert(payload@.subrange(start as int, k + 1) =~= payload@.subrange(start as int, k as int).push(payload@[k as int]));
            k = k + 1;
        }
        out.push(0x1bu8);
        out.push(0x5cu8);
        assert(out@ =~= kitty_prefix(payload@, (i + 1) as nat, w, h, cols, rows));
        i = i + 1;
    }
    out
}

/// What `encode_kitty` sends for the RGBA image `pixels` (`w`×`h`) drawn in
/// `cols`×`rows` cells: the image, scaled down first when a side exceeds
/// `MAX_KITTY_DIM` (to at most `MAX_KITTY_DIM` a side), in base64 and in
/// kitty's escape sequences. None exactly when the pixels do not fill the
/// image.
pub fn encode_kitty(pixels: &Vec<u8>, w: u32, h: u32, cols: u16, rows: u16) -> (r: Option<Vec<u8>>)
    requires
        w as int * MAX_KITTY_DIM as int * 16 <= usize::MAX,
        pixels@.len() < 0x1_0000_0000_0000,
    ensures
        w > MAX_KITTY_DIM || h > MAX_KITTY_DIM ==> match fitted_rgba(pixels@, w, h, MAX_KITTY_DIM) {
            Some((nw, nh, px)) => r matches Some(v) && v@ == kitty_spec(base64_standard(px), nw, nh, cols, rows),
            None => r is None,
        },
        w > MAX_KITTY_DIM || h > MAX_KITTY_DIM ==> (r is None <==> pixels@.len() < w as int * h as int * 4),
        w > MAX_KITTY_DIM || h > MAX_KITTY_DIM ==> match fitted_rgba(pixels@, w, h, MAX_KITTY_DIM) {
            Some((nw, nh, px)) => 1 <= nw <= MAX_KITTY_DIM && 1 <= nh <= MAX_KITTY_DIM && px.len() == nw as int
                * nh as int * 4,
            None => true,
        },
        !(w > MAX_KITTY_DIM || h > MAX_KITTY_DIM) ==> if pixels@.len() >= w as int * h as int * 4 {
            r matches Some(v) && v@ == kitty_spec(
                base64_standard(pixels@.take(w as int * h as int * 4)),
                w,
                h,
                cols,
                rows,
            )
        } else {
            r is None
        },
{
    if w > MAX_KITTY_DIM || h > MAX_KITTY_DIM {
        match fit_rgba(pixels, w, h, MAX_KITTY_DIM) {
            Some((nw, nh, px)) => {
                assert(px@.len() <= 1600 * 1600 * 4) by (nonlinear_arith)
                    requires
                        px@.len() == nw as int * nh as int * 4,
                        nw <= 1600,
                        nh <= 1600,
                ;
                let b = base64_encode(&px);
                Some(kitty_sequences(&b, nw, nh, cols, rows))
            },
            None => None,
        }
    } else {
        assert((w as int) * (h as int) * 4 <= 1600 * 1600 * 4) by (nonlinear_arith)
            requires
                w <= 1600,
                h <= 1600,
        ;
        let need = (w as usize) * (h as usize) * 4;
        if pixels.len() < need {
            return None;
        }
        let mut px: Vec<u8> = Vec::new();
        let mut i: usize = 0;
        while i < need
            invariant
                i <= need <= pixels@.len(),
                px@ == pixels@.take(i as int),
            decreases need - i,
        {
            px.push(pixels[i]);
            assert(pixels@.take(i + 1) =~= pixels@.take(i as int).push(pixels@[i as int]));
            i = i + 1;
        }
        let b = base64_encode(&px);
        Some(kitty_sequences(&b, w, h, cols, rows))
    }
}

/// What `str::to_lowercase` gives for `s`.
pub uninterp spec fn lowercase(s: Seq<char>) -> Seq<char>;

/// `str::to_lowercase`: the text in small letters, by Unicode's case mapping.
#[verifier::external_body]
fn to_lowercase(s: &str) -> (r: String)
    ensures
        r@ == lowercase(s@),
{
    s.to_lowercase()
}

/// `t` occurs in `s`.
pub open spec fn has_sub(s: Seq<char>, t: Seq<char>) -> bool {
    exists|i: int| 0 <= i && i + t.len() <= s.len() && #[trigger] s.subrange(i, i + t.len()) == t
}

/// Whether `t` occurs in `s`.
pub fn contains_text(s: &str, t: &str) -> (r: bool)
    ensures
        r == has_sub(s@, t@),
{
    let a = crate::text::chars_of(s);
    let b = crate::text::chars_of(t);
    if b.len() > a.len() {
        return false;
    }
    let mut i: usize = 0;
    while i <= a.len() - b.len()
        invariant
            a@ == s@,
            b@ == t@,
            b@.len() <= a@.len(),
            i <= a@.len() - b@.len() + 1,
            forall|k: int| 0 <= k < i ==> #[trigger] a@.subrange(k, k + b@.len()) != b@,
        decreases a.len() - b.len() + 1 - i,
    {
        let mut j: usize = 0;
        let mut same = true;
        let n = a.len();
        while j < b.len()
            invariant
                j <= b@.len(),
                n == a@.len(),
                i + b@.len() <= a@.len(),
                same == (forall|m: int| 0 <= m < j ==> a@[i + m] == b@[m]),
            decreases b.len() - j,
        {
            if a[i + j] != b[j] {
                same = false;
            }
            j = j + 1;
        }
        if same {
            assert(a@.subrange(i as int, i + b@.len()) =~= b@);
            return true;
        }
        proof {
            let k = choose|m: int| 0 <= m < b@.len() && a@[i + m] != b@[m];
            assert(a@.subrange(i as int, i + b@.len())[k] == a@[i + k]);
        }
        i = i + 1;
    }
    false
}

/// What the terminal's environment says about it.
pub struct TermEnv {
    pub term_graphics: bool,
    pub kitty_window_id: bool,
    pub kitty_pid: bool,
    pub ghostty_resources_dir: bool,
    pub wezterm_executable: bool,
    pub wezterm_pane: bool,
    /// `$TERM`, when set and valid text.
    pub term: Option<String>,
    /// `$TERM_PROGRAM`, when set and valid text.
    pub term_program: Option<String>,
}

/// The terminal speaks the kitty graphics protocol: one of the variables
/// only such terminals set is set, `$TERM` mentions kitty, or
/// `$TERM_PROGRAM` names ghostty, wezterm or kitty in any case.
pub open spec fn kitty_spec_env(e: TermEnv) -> bool {
    ||| e.term_graphics
    ||| e.kitty_window_id || e.kitty_pid
    ||| e.ghostty_resources_dir
    ||| e.wezterm_executable || e.wezterm_pane
    ||| (e.term matches Some(t) && has_sub(t@, "kitty"@))
    ||| (e.term_program matches Some(p) && {
        let l = lowercase(p@);
        has_sub(l, "ghostty"@) || has_sub(l, "wezterm"@) || has_sub(l, "kitty"@)
    })
}

/// Whether the terminal described by `e` speaks the kitty graphics protocol.
pub fn kitty_supported(e: &TermEnv) -> (r: bool)
    ensures
        r == kitty_spec_env(*e),
{
    if e.term_graphics || e.kitty_window_id || e.kitty_pid || e.ghostty_resources_dir
        || e.wezterm_executable || e.wezterm_pane {
        return true;
    }
    let by_term = match &e.term {
        Some(t) => contains_text(t.as_str(), "kitty"),
        None => false,
    };
    if by_term {
        return true;
    }
    match &e.term_program {
        Some(p) => {
            let l = to_lowercase(p.as_str());
            contains_text(l.as_str(), "ghostty") || contains_text(l.as_str(), "wezterm")
                || contains_text(l.as_str(), "kitty")
        },
        None => false,
    }
}

/// Whether an image's destination is a web address.
pub open spec fn is_web_spec(p: Seq<char>) -> bool {
    crate::editor::starts_with(p, "http://"@) || crate::editor::starts_with(p, "https://"@)
}

/// Whether the image destination `p` is a web address (`http://` or
/// `https://`).
pub fn is_web(p: &str) -> (r: bool)
    ensures
        r == is_web_spec(p@),
{
    starts_with_str(p, "http://") || starts_with_str(p, "https://")
}

fn starts_with_str(s: &str, pre: &str) -> (r: bool)
    ensures
        r == crate::editor::starts_with(s@, pre@),
{
    let a = crate::text::chars_of(s);
    let b = crate::text::chars_of(pre);
    if b.len() > a.len() {
        return false;
    }
    let mut i: usize = 0;
    while i < b.len()
        invariant
            i <= b@.len() <= a@.len(),
            a@ == s@,
            b@ == pre@,
            forall|j: int| 0 <= j < i ==> a@[j] == b@[j],
        decreases b.len() - i,
    {
        if a[i] != b[i] {
            assert(a@.take(b@.len() as int)[i as int] == a@[i as int]);
            return false;
        }
        i = i + 1;
    }
    assert(a@.take(b@.len() as int) =~= b@);
    true
}

/// Where a local image is looked for, as a pair: a first candidate, used
/// when it exists, and the path used otherwise. An absolute path is used as
/// it is. A relative one is looked for first under the vault's root (where
/// wikilinks are resolved too); failing that, it is taken under the note's
/// directory, else under the vault's root, else as it is.
pub open spec fn image_lookup_spec(p: Seq<char>, note_dir: Option<Seq<char>>, vault_root: Option<Seq<char>>) -> (
    Option<Seq<char>>,
    Seq<char>,
) {
    if p.len() > 0 && p[0] == '/' {
        (None, p)
    } else {
        let vault = match vault_root {
            Some(d) => Some(crate::paths::join_spec(d, p)),
            None => None,
        };
        let fallback = match note_dir {
            Some(d) => crate::paths::join_spec(d, p),
            None => match vault {
                Some(v) => v,
                None => p,
            },
        };
        (vault, fallback)
    }
}

/// Where the local image `p` of a note in the directory `note_dir`, in the
/// vault rooted at `vault_root`, is looked for: the candidate to use when it
/// exists, and the path to use otherwise.
pub fn image_lookup(p: &str, note_dir: Option<&str>, vault_root: Option<&str>) -> (r: (Option<String>, String))
    ensures
        (opt_string_view(r.0), r.1@) == image_lookup_spec(p@, opt_view(note_dir), opt_view(vault_root)),
{
    let cs = crate::text::chars_of(p);
    if cs.len() > 0 && cs[0] == '/' {
        return (None, crate::text::string_of(&cs));
    }
    let vault = match vault_root {
        Some(d) => Some(crate::paths::join_path(d, p)),
        None => None,
    };
    let fallback = match note_dir {
        Some(d) => crate::paths::join_path(d, p),
        None => match &vault {
            Some(v) => v.clone(),
            None => crate::text::string_of(&cs),
        },
    };
    (vault, fallback)
}

/// Where an image goes in its box, once fitted to `fit_cols`×`fit_rows`
/// cells: none when its box starts above the scrolled view or below the
/// pane; else the offsets that center it in the box
/// (`box_w`×`box_h`), the box's first visible row, and how many of its
/// rows fit in the pane.
pub open spec fn image_slot_spec(
    row: int,
    scroll: int,
    pane_h: int,
    box_w: int,
    box_h: int,
    fit_cols: int,
    fit_rows: int,
) -> Option<(u16, u16, int, int)> {
    if row < scroll || row - scroll >= pane_h {
        None
    } else {
        let top = row - scroll;
        let oc = (if box_w > fit_cols { box_w - fit_cols } else { 0 }) / 2;
        let orr = (if box_h > fit_rows { box_h - fit_rows } else { 0 }) / 2;
        let max_rows = if pane_h > top + orr { pane_h - (top + orr) } else { 0 };
        Some((oc as u16, orr as u16, top, if fit_rows < max_rows { fit_rows } else { max_rows }))
    }
}

/// Where the image of the box at `row` goes, in a pane `pane_h` rows high
/// scrolled down `scroll` rows.
pub fn image_slot(
    row: usize,
    scroll: usize,
    pane_h: u16,
    box_w: u16,
    box_h: u16,
    fit_cols: u16,
    fit_rows: u16,
) -> (r: Option<(u16, u16, usize, usize)>)
    ensures
        match image_slot_spec(row as int, scroll as int, pane_h as int, box_w as int, box_h as int, fit_cols as int, fit_rows as int) {
            Some((a, b, c, d)) => r == Some((a, b, c as usize, d as usize)),
            None => r is None,
        },
{
    if row < scroll || row - scroll >= pane_h as usize {
        return None;
    }
    let top = row - scroll;
    let oc: u16 = (if box_w > fit_cols { box_w - fit_cols } else { 0 }) / 2;
    let orr: u16 = (if box_h > fit_rows { box_h - fit_rows } else { 0 }) / 2;
    let used = top + orr as usize;
    let max_rows: usize = if (pane_h as usize) > used { pane_h as usize - used } else { 0 };
    Some((oc, orr, top, if (fit_rows as usize) < max_rows { fit_rows as usize } else { max_rows }))
}

} // verus!
