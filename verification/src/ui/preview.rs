//! The preview pane: the rendered Markdown, its long lines wrapped at word
//! boundaries, and the rows that the pane shows.
use vstd::prelude::*;
use std::collections::HashMap;

use crate::config::theme::{parse_color_spec, Theme};
use crate::ui::markdown::{
    image_view, images_view, pulldown_events, render_markdown, render_spec, target_view, targets_view, ImageSpec,
    ImageV, MdEventV, Palette, PreviewCopyTarget, RenderedMarkdown, TargetV,
};
use crate::ui::styled::{line_view, lines_view, span_view, spanv, Span, SpanV, Style};
use crate::ui::wrap::{segments, segments_from};

verus! {

broadcast use vstd::std_specs::hash::group_hash_axioms;

/// The characters of a line, each with the style of its span.
pub open spec fn flat(line: Seq<SpanV>) -> Seq<(char, Style)>
    decreases line.len(),
{
    if line.len() == 0 {
        seq![]
    } else {
        let s = line.last();
        flat(line.drop_last()) + s.text.map_values(|c: char| (c, s.style))
    }
}

/// The characters alone.
pub open spec fn chars_only(cs: Seq<(char, Style)>) -> Seq<char> {
    cs.map_values(|p: (char, Style)| p.0)
}

/// Styled characters gathered into spans: each maximal run of characters in
/// one style is one span.
pub open spec fn group_spans(cs: Seq<(char, Style)>) -> Seq<SpanV>
    decreases cs.len(),
{
    if cs.len() == 0 {
        seq![]
    } else {
        let g = group_spans(cs.drop_last());
        let (c, st) = cs.last();
        if g.len() > 0 && g.last().style == st {
            g.update(g.len() - 1, spanv(g.last().text.push(c), st))
        } else {
            g.push(spanv(seq![c], st))
        }
    }
}

/// A long line cut at word boundaries into lines of at most `w` characters,
/// as the editor wraps its lines.
pub open spec fn pieces(cs: Seq<(char, Style)>, w: int) -> Seq<Seq<SpanV>> {
    segments_from(chars_only(cs), w, 0).map_values(
        |s: (int, int)| group_spans(cs.subrange(s.0, s.1)),
    )
}

/// Row `r` belongs to an image box (from its top border to its bottom one):
/// it is never wrapped.
pub open spec fn protected(images: Seq<ImageV>, r: int) -> bool {
    exists|i: int|
        0 <= i < images.len() && #[trigger] images[i].row - 1 <= r && r <= images[i].row
            + images[i].inner_height
}

/// The wrapped rows so far, the buttons moved with their rows, and for each
/// source row the new row it went to when it was kept whole.
pub struct WrapAcc {
    pub lines: Seq<Seq<SpanV>>,
    pub targets: Seq<TargetV>,
    pub remap: Seq<Option<nat>>,
}

/// The last button on row `r`.
pub open spec fn target_on(ts: Seq<TargetV>, r: nat) -> Option<int>
    decreases ts.len(),
{
    if ts.len() == 0 {
        None
    } else if ts.last().row == r {
        Some(ts.len() - 1)
    } else {
        target_on(ts.drop_last(), r)
    }
}

/// Source row `r` (the line `line`): a row with a button or inside an image
/// box is kept whole, and so is a row that fits; a longer row is cut.
pub open spec fn wrap_row(
    a: WrapAcc,
    line: Seq<SpanV>,
    r: nat,
    targets: Seq<TargetV>,
    images: Seq<ImageV>,
    w: int,
) -> WrapAcc {
    let new_row = a.lines.len();
    match target_on(targets, r) {
        Some(j) => WrapAcc {
            lines: a.lines.push(line),
            targets: a.targets.push(TargetV { row: new_row, ..targets[j] }),
            remap: a.remap.push(Some(new_row)),
        },
        None => if protected(images, r as int) {
            WrapAcc { lines: a.lines.push(line), remap: a.remap.push(Some(new_row)), ..a }
        } else if flat(line).len() <= w {
            WrapAcc { lines: a.lines.push(line), remap: a.remap.push(None), ..a }
        } else {
            WrapAcc { lines: a.lines + pieces(flat(line), w), remap: a.remap.push(None), ..a }
        },
    }
}

/// The rows `lines` wrapped one after the other.
pub open spec fn wrap_run(lines: Seq<Seq<SpanV>>, targets: Seq<TargetV>, images: Seq<ImageV>, w: int) -> WrapAcc
    decreases lines.len(),
{
    if lines.len() == 0 {
        WrapAcc { lines: seq![], targets: seq![], remap: seq![] }
    } else {
        wrap_row(
            wrap_run(lines.drop_last(), targets, images, w),
            lines.last(),
            (lines.len() - 1) as nat,
            targets,
            images,
            w,
        )
    }
}

/// An image box moved with its first inside row, when that row was kept.
pub open spec fn moved_image(img: ImageV, remap: Seq<Option<nat>>) -> ImageV {
    if img.row < remap.len() && remap[img.row as int] is Some {
        ImageV { row: remap[img.row as int]->0, ..img }
    } else {
        img
    }
}

/// The rendering wrapped at `w` columns (nothing changes at width 0): the
/// lines, the buttons that kept a row, every image box.
pub open spec fn wrap_spec(lines: Seq<Seq<SpanV>>, targets: Seq<TargetV>, images: Seq<ImageV>, w: int) -> (
    Seq<Seq<SpanV>>,
    Seq<TargetV>,
    Seq<ImageV>,
) {
    if w == 0 {
        (lines, targets, images)
    } else {
        let a = wrap_run(lines, targets, images, w);
        (a.lines, a.targets, images.map_values(|img: ImageV| moved_image(img, a.remap)))
    }
}

proof fn lemma_flat_push(line: Seq<SpanV>, s: SpanV)
    ensures
        flat(line.push(s)) == flat(line) + s.text.map_values(|c: char| (c, s.style)),
{
    assert(line.push(s).drop_last() =~= line);
}

/// The characters and styles of `line`, side by side.
fn flatten(line: &Vec<Span>) -> (r: (Vec<char>, Vec<Style>))
    ensures
        r.0@.len() == r.1@.len(),
        flat(line_view(line@)) == Seq::new(r.0@.len(), |i: int| (r.0@[i], r.1@[i])),
{
    let mut cs: Vec<char> = Vec::new();
    let mut ss: Vec<Style> = Vec::new();
    let mut k: usize = 0;
    while k < line.len()
        invariant
            k <= line.len(),
            cs@.len() == ss@.len(),
            flat(line_view(line@.take(k as int))) == Seq::new(cs@.len(), |i: int| (cs@[i], ss@[i])),
        decreases line.len() - k,
    {
        let st = line[k].style;
        let v = crate::text::chars_of(line[k].text.as_str());
        let ghost before = Seq::new(cs@.len(), |i: int| (cs@[i], ss@[i]));
        let ghost n0 = cs@.len();
        let mut m: usize = 0;
        while m < v.len()
            invariant
                m <= v.len(),
                cs@.len() == ss@.len(),
                cs@.len() == n0 + m,
                Seq::new(cs@.len(), |i: int| (cs@[i], ss@[i])) == before + v@.take(m as int).map_values(
                    |c: char| (c, st),
                ),
            decreases v.len() - m,
        {
            let ghost z0 = Seq::new(cs@.len(), |i: int| (cs@[i], ss@[i]));
            cs.push(v[m]);
            ss.push(st);
            assert(Seq::new(cs@.len(), |i: int| (cs@[i], ss@[i])) =~= z0.push((v@[m as int], st)));
            assert(v@.take(m + 1).map_values(|c: char| (c, st)) =~= v@.take(m as int).map_values(
                |c: char| (c, st),
            ).push((v@[m as int], st)));
            assert(before + v@.take(m + 1).map_values(|c: char| (c, st)) =~= (before + v@.take(
                m as int,
            ).map_values(|c: char| (c, st))).push((v@[m as int], st)));
            m = m + 1;
        }
        proof {
            assert(v@.take(v@.len() as int) =~= v@);
            let sv = span_view(line@[k as int]);
            assert(line_view(line@.take(k + 1)) =~= line_view(line@.take(k as int)).push(sv));
            lemma_flat_push(line_view(line@.take(k as int)), sv);
        }
        k = k + 1;
    }
    assert(line@.take(line@.len() as int) =~= line@);
    (cs, ss)
}

proof fn lemma_group_step(cs: Seq<(char, Style)>, x: (char, Style))
    ensures
        group_spans(cs.push(x)) == ({
            let g = group_spans(cs);
            if g.len() > 0 && g.last().style == x.1 {
                g.update(g.len() - 1, spanv(g.last().text.push(x.0), x.1))
            } else {
                g.push(spanv(seq![x.0], x.1))
            }
        }),
{
    assert(cs.push(x).drop_last() =~= cs);
}

/// The spans of the styled characters `cs[lo..hi]`, zipped with `ss`.
fn chars_to_line(cs: &Vec<char>, ss: &Vec<Style>, lo: usize, hi: usize) -> (r: Vec<Span>)
    requires
        cs@.len() == ss@.len(),
        lo <= hi <= cs@.len(),
    ensures
        line_view(r@) == group_spans(Seq::new(cs@.len(), |i: int| (cs@[i], ss@[i])).subrange(
            lo as int,
            hi as int,
        )),
{
    let ghost z = Seq::new(cs@.len(), |i: int| (cs@[i], ss@[i]));
    let mut out: Vec<Span> = Vec::new();
    let mut k = lo;
    assert(z.subrange(lo as int, lo as int) =~= Seq::<(char, Style)>::empty());
    assert(line_view(out@) =~= Seq::<SpanV>::empty());
    while k < hi
        invariant
            lo <= k <= hi <= cs@.len(),
            cs@.len() == ss@.len(),
            z == Seq::new(cs@.len(), |i: int| (cs@[i], ss@[i])),
            line_view(out@) == group_spans(z.subrange(lo as int, k as int)),
        decreases hi - k,
    {
        let c = cs[k];
        let st = ss[k];
        proof {
            assert(z.subrange(lo as int, k + 1) =~= z.subrange(lo as int, k as int).push((c, st)));
            lemma_group_step(z.subrange(lo as int, k as int), (c, st));
        }
        let n = out.len();
        if n > 0 && out[n - 1].style == st {
            let mut last = out.pop().unwrap();
            crate::text::string_push(&mut last.text, c);
            let ghost g = line_view(out@);
            out.push(last);
            assert(line_view(out@) =~= g.push(span_view(last)));
        } else {
            let mut t = String::new();
            crate::text::string_push(&mut t, c);
            assert(t@ =~= seq![c]);
            let sp = Span { text: t, style: st };
            let ghost g = line_view(out@);
            out.push(sp);
            assert(line_view(out@) =~= g.push(span_view(sp)));
        }
        k = k + 1;
    }
    out
}

fn clone_line(l: &Vec<Span>) -> (r: Vec<Span>)
    ensures
        line_view(r@) == line_view(l@),
{
    let mut out: Vec<Span> = Vec::new();
    let mut k: usize = 0;
    while k < l.len()
        invariant
            k <= l.len(),
            line_view(out@) == line_view(l@.take(k as int)),
        decreases l.len() - k,
    {
        let sp = Span { text: l[k].text.clone(), style: l[k].style };
        let ghost g = line_view(out@);
        out.push(sp);
        assert(line_view(out@) =~= g.push(span_view(sp)));
        assert(line_view(l@.take(k + 1)) =~= line_view(l@.take(k as int)).push(span_view(l@[k as int])));
        k = k + 1;
    }
    assert(l@.take(l@.len() as int) =~= l@);
    out
}

/// The source rows `0..n` of the row map `m`, in order: for each, the new
/// row it went to when it was kept whole.
pub open spec fn rows_of_map(m: Map<usize, usize>, n: nat) -> Seq<Option<nat>> {
    Seq::new(
        n,
        |r: int|
            if m.contains_key(r as usize) {
                Some(m[r as usize] as nat)
            } else {
                None
            },
    )
}

/// The last button on row `r`.
fn find_target(ts: &Vec<PreviewCopyTarget>, r: usize) -> (res: Option<usize>)
    ensures
        match res {
            Some(j) => target_on(targets_view(ts@), r as nat) == Some(j as int) && j < ts@.len(),
            None => target_on(targets_view(ts@), r as nat) is None,
        },
{
    let ghost tv = targets_view(ts@);
    let mut j = ts.len();
    assert(tv.take(j as int) =~= tv);
    while j > 0
        invariant
            j <= ts@.len(),
            tv == targets_view(ts@),
            target_on(tv, r as nat) == target_on(tv.take(j as int), r as nat),
        decreases j,
    {
        assert(tv.take(j as int).drop_last() =~= tv.take(j - 1));
        assert(tv.take(j as int).last() == tv[j - 1]);
        if ts[j - 1].row == r {
            return Some(j - 1);
        }
        j = j - 1;
    }
    assert(tv.take(0) =~= Seq::<TargetV>::empty());
    None
}

/// Whether row `r` belongs to an image box.
fn in_image_box(images: &Vec<ImageSpec>, r: usize) -> (res: bool)
    ensures
        res == protected(images_view(images@), r as int),
{
    let ghost iv = images_view(images@);
    let mut i: usize = 0;
    while i < images.len()
        invariant
            i <= images@.len(),
            iv == images_view(images@),
            forall|k: int| 0 <= k < i ==> !(#[trigger] iv[k].row - 1 <= r && r <= iv[k].row + iv[k].inner_height),
        decreases images.len() - i,
    {
        let row = images[i].row;
        let h = images[i].inner_height as usize;
        assert(iv[i as int] == image_view(images@[i as int]));
        if (row == 0 || row - 1 <= r) && (r <= row || r - row <= h) {
            assert(iv[i as int].row - 1 <= r && r <= iv[i as int].row + iv[i as int].inner_height);
            return true;
        }
        i = i + 1;
    }
    false
}

/// Wraps the rendering `r` at `width` columns.
pub fn wrap_lines(r: RenderedMarkdown, width: usize) -> (out: RenderedMarkdown)
    ensures
        ({
            let (l, t, i) = wrap_spec(
                lines_view(r.lines@),
                targets_view(r.copy_targets@),
                images_view(r.images@),
                width as int,
            );
            &&& lines_view(out.lines@) == l
            &&& targets_view(out.copy_targets@) == t
            &&& images_view(out.images@) == i
        }),
{
    if width == 0 {
        return r;
    }
    let ghost w = width as int;
    let ghost lv = lines_view(r.lines@);
    let ghost tv = targets_view(r.copy_targets@);
    let ghost iv = images_view(r.images@);
    let mut out_lines: Vec<Vec<Span>> = Vec::new();
    let mut out_targets: Vec<PreviewCopyTarget> = Vec::new();
    let mut remap: HashMap<usize, usize> = HashMap::new();
    let mut row: usize = 0;
    assert(lines_view(out_lines@) =~= Seq::<Seq<SpanV>>::empty());
    assert(targets_view(out_targets@) =~= Seq::<TargetV>::empty());
    assert(rows_of_map(remap@, 0) =~= Seq::<Option<nat>>::empty());
    assert(lv.take(0) =~= Seq::<Seq<SpanV>>::empty());
    while row < r.lines.len()
        invariant
            row <= r.lines@.len(),
            w == width as int >= 1,
            lv == lines_view(r.lines@),
            tv == targets_view(r.copy_targets@),
            iv == images_view(r.images@),
            (WrapAcc {
                lines: lines_view(out_lines@),
                targets: targets_view(out_targets@),
                remap: rows_of_map(remap@, row as nat),
            }) == wrap_run(lv.take(row as int), tv, iv, w),
            forall|k: usize| #[trigger] remap@.contains_key(k) ==> k < row,
        decreases r.lines.len() - row,
    {
        assert(lv.take(row + 1).drop_last() =~= lv.take(row as int));
        assert(lv.take(row + 1).last() == lv[row as int]);
        assert(lv[row as int] == line_view(r.lines@[row as int]@));
        let ghost a = wrap_run(lv.take(row as int), tv, iv, w);
        let new_row = out_lines.len();
        match find_target(&r.copy_targets, row) {
            Some(j) => {
                let l = clone_line(&r.lines[row]);
                proof {
                    crate::ui::markdown::lemma_lines_push(out_lines@, l);
                }
                out_lines.push(l);
                let t = &r.copy_targets[j];
                let nt = PreviewCopyTarget { row: new_row, x_start: t.x_start, x_end: t.x_end, text: t.text.clone() };
                assert(tv[j as int] == target_view(r.copy_targets@[j as int]));
                assert(targets_view(out_targets@.push(nt)) =~= targets_view(out_targets@).push(target_view(nt)));
                out_targets.push(nt);
                let ghost m0 = remap@;
                remap.insert(row, new_row);
                assert(rows_of_map(remap@, (row + 1) as nat) =~= rows_of_map(m0, row as nat).push(Some(new_row as nat)));
            },
            None => {
                if in_image_box(&r.images, row) {
                    let l = clone_line(&r.lines[row]);
                    proof {
                        crate::ui::markdown::lemma_lines_push(out_lines@, l);
                    }
                    out_lines.push(l);
                    let ghost m0 = remap@;
                    remap.insert(row, new_row);
                    assert(rows_of_map(remap@, (row + 1) as nat) =~= rows_of_map(m0, row as nat).push(Some(new_row as nat)));
                } else {
                    let (cs, ss) = flatten(&r.lines[row]);
                    let ghost z = Seq::new(cs@.len(), |i: int| (cs@[i], ss@[i]));
                    if cs.len() <= width {
                        let l = clone_line(&r.lines[row]);
                        proof {
                            crate::ui::markdown::lemma_lines_push(out_lines@, l);
                        }
                        out_lines.push(l);
                    } else {
                        let segs = segments(&cs, width);
                        let ghost sv = segs@.map_values(|p: (usize, usize)| (p.0 as int, p.1 as int));
                        proof {
                            assert(chars_only(z) =~= cs@);
                            crate::ui::wrap::lemma_segments_tile(cs@, w, 0);
                        }
                        let ghost base = lines_view(out_lines@);
                        let ghost ps = pieces(z, w);
                        assert(ps.len() == segs@.len());
                        let mut k: usize = 0;
                        assert(ps.take(0) =~= Seq::<Seq<SpanV>>::empty());
                        assert(base + ps.take(0) =~= base);
                        while k < segs.len()
                            invariant
                                k <= segs@.len(),
                                cs@.len() == ss@.len(),
                                z == Seq::new(cs@.len(), |i: int| (cs@[i], ss@[i])),
                                sv == segs@.map_values(|p: (usize, usize)| (p.0 as int, p.1 as int)),
                                sv == segments_from(cs@, w, 0),
                                crate::ui::wrap::tiles_from(cs@, w, 0, sv),
                                ps == pieces(z, w),
                                chars_only(z) == cs@,
                                lines_view(out_lines@) == base + ps.take(k as int),
                            decreases segs.len() - k,
                        {
                            let (lo, hi) = segs[k];
                            assert(sv[k as int] == (lo as int, hi as int));
                            assert(0 <= lo < hi <= cs@.len());
                            let l = chars_to_line(&cs, &ss, lo, hi);
                            assert(ps[k as int] == line_view(l@));
                            proof {
                                crate::ui::markdown::lemma_lines_push(out_lines@, l);
                            }
                            out_lines.push(l);
                            assert(ps.take(k + 1) =~= ps.take(k as int).push(ps[k as int]));
                            assert(base + ps.take(k + 1) =~= (base + ps.take(k as int)).push(ps[k as int]));
                            k = k + 1;
                        }
                        assert(ps.take(segs@.len() as int) =~= ps);
                    }
                    assert(rows_of_map(remap@, (row + 1) as nat) =~= rows_of_map(remap@, row as nat).push(None));
                }
            },
        }
        row = row + 1;
    }
    assert(lv.take(r.lines@.len() as int) =~= lv);
    let ghost acc = wrap_run(lv, tv, iv, w);
    let mut out_images: Vec<ImageSpec> = Vec::new();
    let mut i: usize = 0;
    while i < r.images.len()
        invariant
            i <= r.images@.len(),
            iv == images_view(r.images@),
            rows_of_map(remap@, r.lines@.len()) == acc.remap,
            forall|k: usize| #[trigger] remap@.contains_key(k) ==> k < r.lines@.len(),
            images_view(out_images@) == iv.take(i as int).map_values(|img: ImageV| moved_image(img, acc.remap)),
        decreases r.images.len() - i,
    {
        let img = &r.images[i];
        let mut row = img.row;
        match remap.get(&img.row) {
            Some(n) => {
                row = *n;
            },
            None => {},
        }
        let ni = ImageSpec {
            path: img.path.clone(),
            alt: img.alt.clone(),
            row,
            col_start: img.col_start,
            inner_width: img.inner_width,
            inner_height: img.inner_height,
        };
        assert(iv[i as int] == image_view(r.images@[i as int]));
        assert(image_view(ni) == moved_image(iv[i as int], acc.remap));
        assert(images_view(out_images@.push(ni)) =~= images_view(out_images@).push(image_view(ni)));
        out_images.push(ni);
        assert(iv.take(i + 1).map_values(|img: ImageV| moved_image(img, acc.remap)) =~= iv.take(
            i as int,
        ).map_values(|img: ImageV| moved_image(img, acc.remap)).push(moved_image(iv[i as int], acc.remap)));
        i = i + 1;
    }
    assert(iv.take(r.images@.len() as int) =~= iv);
    RenderedMarkdown { lines: out_lines, copy_targets: out_targets, images: out_images }
}


/// The colors the preview takes from a theme: text, headers, links, accent.
pub open spec fn palette_spec(t: Theme) -> Palette {
    Palette {
        fg: parse_color_spec(t.fg@),
        header: parse_color_spec(t.header@),
        link: parse_color_spec(t.link@),
        accent: parse_color_spec(t.accent@),
    }
}

/// The colors the preview takes from `theme`.
pub fn palette_of(theme: &Theme) -> (p: Palette)
    ensures
        p == palette_spec(*theme),
{
    Palette {
        fg: Theme::parse_color(theme.fg.as_str()),
        header: Theme::parse_color(theme.header.as_str()),
        link: Theme::parse_color(theme.link.as_str()),
        accent: Theme::parse_color(theme.accent.as_str()),
    }
}

/// The preview of the Markdown document `content` at `width` columns in the
/// colors of `theme`: the events the parser gives for it, rendered, then
/// wrapped.
pub fn render_markdown_with_targets(content: &str, width: usize, theme: &Theme) -> (r: RenderedMarkdown)
    ensures
        ({
            let c = render_spec(pulldown_events(content@), palette_spec(*theme), width as int);
            let (l, t, i) = wrap_spec(c.lines, c.targets, c.images, width as int);
            &&& lines_view(r.lines@) == l
            &&& targets_view(r.copy_targets@) == t
            &&& images_view(r.images@) == i
        }),
{
    let p = palette_of(theme);
    let raw = render_markdown(content, p, width);
    wrap_lines(raw, width)
}

/// The preview pane: a document, how far it is scrolled, and its colors.
pub struct MarkdownPreview<'a> {
    pub content: &'a str,
    pub scroll: u16,
    pub theme: &'a Theme,
}

impl<'a> MarkdownPreview<'a> {
    /// Of `total` rendered rows, the first one shown and how many are shown
    /// in a pane `height` rows high; the rows below them are left blank.
    pub fn shown_rows(&self, total: usize, height: usize) -> (r: (usize, usize))
        ensures
            r.0 == self.scroll,
            r.1 == (if total > self.scroll as int + height {
                height as int
            } else if total > self.scroll {
                total - self.scroll
            } else {
                0
            }),
    {
        let start = self.scroll as usize;
        let left = if total > start {
            total - start
        } else {
            0
        };
        (start, if left > height {
            height
        } else {
            left
        })
    }
}

/// A `[copy]` button as it lies on the screen: its row and columns, and the
/// code it copies.
pub struct PreviewCopyHit {
    pub x_start: u16,
    pub x_end: u16,
    pub y: u16,
    pub text: String,
}

/// A button on the screen as plain values.
pub open spec fn hit_view(h: PreviewCopyHit) -> (u16, u16, u16, Seq<char>) {
    (h.x_start, h.x_end, h.y, h.text@)
}

/// Buttons on the screen as plain values.
pub open spec fn hits_view(hs: Seq<PreviewCopyHit>) -> Seq<(u16, u16, u16, Seq<char>)> {
    hs.map_values(|h: PreviewCopyHit| hit_view(h))
}

/// `a + b` in `u16`, wrapping past the largest value.
pub open spec fn add16(a: int, b: int) -> u16 {
    ((a + b) % 65536) as u16
}

/// The buttons of the rendered rows `ts` that show in a pane at column `x`,
/// row `y`, `height` rows high, scrolled down `scroll` rows: those on a row
/// from `scroll` to just before `scroll + height`, moved to the screen.
pub open spec fn hits_spec(ts: Seq<TargetV>, scroll: int, x: u16, y: u16, height: u16) -> Seq<
    (u16, u16, u16, Seq<char>),
>
    decreases ts.len(),
{
    if ts.len() == 0 {
        seq![]
    } else {
        let rest = hits_spec(ts.drop_last(), scroll, x, y, height);
        let t = ts.last();
        if t.row >= scroll && t.row - scroll < height {
            rest.push(
                (add16(x as int, t.x_start as int), add16(x as int, t.x_end as int), add16(y as int, t.row - scroll), t.text),
            )
        } else {
            rest
        }
    }
}

/// The buttons of `targets` that show in the pane at `x`, `y`, `height` rows
/// high, scrolled down `scroll` rows, in screen coordinates.
pub fn copy_hits(targets: &Vec<PreviewCopyTarget>, scroll: usize, x: u16, y: u16, height: u16) -> (r: Vec<PreviewCopyHit>)
    ensures
        hits_view(r@) == hits_spec(targets_view(targets@), scroll as int, x, y, height),
{
    let ghost tv = targets_view(targets@);
    let mut out: Vec<PreviewCopyHit> = Vec::new();
    let mut i: usize = 0;
    while i < targets.len()
        invariant
            i <= targets.len(),
            tv == targets_view(targets@),
            hits_view(out@) == hits_spec(tv.take(i as int), scroll as int, x, y, height),
        decreases targets.len() - i,
    {
        let t = &targets[i];
        assert(tv.take(i + 1).drop_last() =~= tv.take(i as int));
        assert(tv.take(i + 1).last() == target_view(targets@[i as int]));
        if t.row >= scroll && t.row - scroll < height as usize {
            let vr: u16 = (t.row - scroll) as u16;
            let h = PreviewCopyHit {
                x_start: x.wrapping_add(t.x_start),
                x_end: x.wrapping_add(t.x_end),
                y: y.wrapping_add(vr),
                text: t.text.clone(),
            };
            let ghost before = hits_view(out@);
            out.push(h);
            assert(hits_view(out@) =~= before.push(hit_view(h)));
        } else {
            assert(hits_view(out@) =~= hits_spec(tv.take(i + 1), scroll as int, x, y, height));
        }
        i = i + 1;
    }
    assert(tv.take(targets@.len() as int) =~= tv);
    out
}

/// The first button that holds the screen cell at column `col` of row `row`.
pub open spec fn hit_at_spec(hs: Seq<(u16, u16, u16, Seq<char>)>, col: u16, row: u16) -> Option<int>
    decreases hs.len(),
{
    if hs.len() == 0 {
        None
    } else if hs[0].2 == row && hs[0].0 <= col && col < hs[0].1 {
        Some(0)
    } else {
        match hit_at_spec(hs.drop_first(), col, row) {
            Some(i) => Some(i + 1),
            None => None,
        }
    }
}

/// The position of the first of the buttons `hits` that holds the screen
/// cell at column `col` of row `row`.
pub fn hit_at(hits: &Vec<PreviewCopyHit>, col: u16, row: u16) -> (r: Option<usize>)
    ensures
        match r {
            Some(i) => hit_at_spec(hits_view(hits@), col, row) == Some(i as int),
            None => hit_at_spec(hits_view(hits@), col, row) is None,
        },
{
    let ghost hv = hits_view(hits@);
    assert(hv.skip(0) =~= hv);
    let mut i: usize = 0;
    while i < hits.len()
        invariant
            i <= hits.len(),
            hv == hits_view(hits@),
            hit_at_spec(hv, col, row) == (match hit_at_spec(hv.skip(i as int), col, row) {
                Some(j) => Some(j + i),
                None => None::<int>,
            }),
        decreases hits.len() - i,
    {
        let h = &hits[i];
        let ghost rest = hv.skip(i as int);
        assert(rest[0] == hit_view(hits@[i as int]));
        assert(rest.drop_first() =~= hv.skip(i + 1));
        if h.y == row && h.x_start <= col && col < h.x_end {
            return Some(i);
        }
        i = i + 1;
    }
    None
}

/// The text of a span list: its spans' texts one after the other.
pub open spec fn spans_text(ss: Seq<SpanV>) -> Seq<char>
    decreases ss.len(),
{
    if ss.len() == 0 {
        seq![]
    } else {
        spans_text(ss.drop_last()) + ss.last().text
    }
}

/// Gathering styled characters into spans loses and adds nothing: the
/// spans hold the same characters in the same order, and no span is empty.
pub proof fn lemma_group_keeps_chars(cs: Seq<(char, Style)>)
    ensures
        spans_text(group_spans(cs)) == chars_only(cs),
        forall|i: int| 0 <= i < group_spans(cs).len() ==> (#[trigger] group_spans(cs)[i]).text.len() > 0,
    decreases cs.len(),
{
    if cs.len() > 0 {
        let prev = cs.drop_last();
        lemma_group_keeps_chars(prev);
        let g = group_spans(prev);
        let (c, st) = cs.last();
        assert(chars_only(cs) =~= chars_only(prev).push(c));
        if g.len() > 0 && g.last().style == st {
            let g2 = g.update(g.len() - 1, spanv(g.last().text.push(c), st));
            assert(g2.drop_last() =~= g.drop_last());
            assert(spans_text(g) == spans_text(g.drop_last()) + g.last().text);
            assert(spans_text(g2) =~= spans_text(g).push(c));
        } else {
            let g2 = g.push(spanv(seq![c], st));
            assert(g2.drop_last() =~= g);
            assert(spans_text(g2) =~= spans_text(g).push(c));
        }
    }
}

} // verus!
