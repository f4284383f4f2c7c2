//! Soft wrapping for the editor. Long logical lines are cut into screen
//! rows purely for display; the cursor keeps living in logical
//! `(line, column)` terms and is mapped onto the wrapped rows here.
use vstd::prelude::*;

use crate::text::{chars_of, string_of_range};

verus! {

/// One screen row produced by the wrapper.
pub struct WrappedLine {
    /// 0-based index of the logical (buffer) line this segment belongs to.
    pub logical_row: usize,
    /// True for the first segment of a logical line: only that one gets a
    /// line number in the gutter.
    pub is_first_segment: bool,
    pub text: String,
    /// Local char range `[start, end)` within `text` that lies inside the
    /// active selection, if any part of this segment is selected.
    pub highlight: Option<(usize, usize)>,
}

/// The wrapped rows and where the cursor lands on screen.
pub struct WrapResult {
    pub lines: Vec<WrappedLine>,
    pub cursor_screen_row: usize,
    pub cursor_screen_col: usize,
}

/// A screen row in the model: logical line, whether it is the line's first
/// segment, and the half-open char range `[start, end)` of that line.
pub type RowModel = (int, bool, int, int);

/// The characters of every logical line.
pub open spec fn lines_view(lines: Seq<String>) -> Seq<Seq<char>> {
    lines.map_values(|s: String| s@)
}

/// The largest index `i` in `[lo, hi)` with `c[i] == ' '`.
pub open spec fn last_space(c: Seq<char>, lo: int, hi: int) -> Option<int>
    decreases hi - lo,
{
    if hi <= lo {
        None
    } else if c[hi - 1] == ' ' {
        Some(hi - 1)
    } else {
        last_space(c, lo, hi - 1)
    }
}

/// For the segment of `c` that starts at `start`: where it ends and where the
/// next one starts. A segment that does not reach the end of the line breaks
/// at the last space of its `w`-wide window (which is then dropped), or, with
/// no space after its first character, hard at `w` characters.
pub open spec fn break_at(c: Seq<char>, w: int, start: int) -> (int, int) {
    if c.len() - start <= w {
        (c.len() as int, c.len() as int)
    } else {
        match last_space(c, start, start + w) {
            Some(p) => if p > start {
                (p, p + 1)
            } else {
                (start + w, start + w)
            },
            None => (start + w, start + w),
        }
    }
}

/// The segments `[start, end)` of `c` from position `start` on.
pub open spec fn segments_from(c: Seq<char>, w: int, start: int) -> Seq<(int, int)>
    decreases c.len() - start,
{
    if w < 1 || start < 0 || start >= c.len() {
        seq![]
    } else {
        let (e, nx) = break_at(c, w, start);
        if start < nx && nx <= c.len() {
            seq![(start, e)] + segments_from(c, w, nx)
        } else {
            seq![]
        }
    }
}

/// The segments of one logical line; an empty line is one empty segment.
pub open spec fn line_segments(c: Seq<char>, w: int) -> Seq<(int, int)> {
    if c.len() == 0 {
        seq![(0int, 0int)]
    } else {
        segments_from(c, w, 0)
    }
}

/// The rows of logical line `row`, given its segments.
pub open spec fn rows_of_segs(segs: Seq<(int, int)>, row: int) -> Seq<RowModel> {
    Seq::new(segs.len(), |j: int| (row, j == 0, segs[j].0, segs[j].1))
}

/// All screen rows, line after line.
pub open spec fn wrap_rows(lines: Seq<Seq<char>>, w: int) -> Seq<RowModel>
    decreases lines.len(),
{
    if lines.len() == 0 {
        seq![]
    } else {
        wrap_rows(lines.drop_last(), w) + rows_of_segs(
            line_segments(lines.last(), w),
            lines.len() - 1,
        )
    }
}

/// The width actually used: at least one column.
pub open spec fn effective_width(width: usize) -> int {
    if width == 0 {
        1
    } else {
        width as int
    }
}

/// Whether row `r` holds the cursor: on the cursor's line, and, for a line
/// with text, with the cursor column inside `[start, end]`.
pub open spec fn cursor_hits(lines: Seq<Seq<char>>, r: RowModel, cursor: (usize, usize)) -> bool {
    &&& r.0 == cursor.0
    &&& (lines[r.0].len() == 0 || (r.2 <= cursor.1 && cursor.1 <= r.3))
}

/// Screen position of the cursor: the last row that holds it, at the
/// cursor's offset into that row; `(0, 0)` when no row holds it.
pub open spec fn cursor_fold(lines: Seq<Seq<char>>, rows: Seq<RowModel>, cursor: (usize, usize)) -> (
    int,
    int,
)
    decreases rows.len(),
{
    if rows.len() == 0 {
        (0, 0)
    } else {
        let r = rows.last();
        if cursor_hits(lines, r, cursor) {
            (
                rows.len() - 1,
                if lines[r.0].len() == 0 {
                    0
                } else {
                    cursor.1 - r.2
                },
            )
        } else {
            cursor_fold(lines, rows.drop_last(), cursor)
        }
    }
}

/// The part of segment `[s, e)` of line `row` inside the normalized
/// selection, in offsets local to the segment.
pub open spec fn seg_highlight(
    selection: Option<((usize, usize), (usize, usize))>,
    row: int,
    s: int,
    e: int,
) -> Option<(usize, usize)> {
    match selection {
        None => None,
        Some(sel) => {
            let (sr, sc) = sel.0;
            let (er, ec) = sel.1;
            if row < sr || row > er {
                None
            } else {
                let lo = if row == sr && sc >= s {
                    sc as int
                } else {
                    s
                };
                let hi = if row == er && ec <= e {
                    ec as int
                } else {
                    e
                };
                if lo < hi {
                    Some(((lo - s) as usize, (hi - s) as usize))
                } else {
                    None
                }
            }
        },
    }
}

/// The highlight of a row: none on an empty line.
pub open spec fn row_highlight(
    lines: Seq<Seq<char>>,
    selection: Option<((usize, usize), (usize, usize))>,
    r: RowModel,
) -> Option<(usize, usize)> {
    if lines[r.0].len() == 0 {
        None
    } else {
        seg_highlight(selection, r.0, r.2, r.3)
    }
}

/// Screen row `o` is the model row `r`.
pub open spec fn row_matches(
    lines: Seq<Seq<char>>,
    selection: Option<((usize, usize), (usize, usize))>,
    o: WrappedLine,
    r: RowModel,
) -> bool {
    &&& o.logical_row == r.0
    &&& o.is_first_segment == r.1
    &&& o.text@ == lines[r.0].subrange(r.2, r.3)
    &&& o.highlight == row_highlight(lines, selection, r)
}

/// The segments from `start` are consecutive pieces of `c`: each one is
/// non-empty and at most `w` wide, the first begins at `start`, each next one
/// begins where the previous ended or one past a space there, and the last
/// ends at the end of the line.
pub open spec fn tiles_from(c: Seq<char>, w: int, start: int, segs: Seq<(int, int)>) -> bool {
    &&& segs.len() > 0
    &&& segs[0].0 == start
    &&& segs.last().1 == c.len()
    &&& forall|j: int|
        0 <= j < segs.len() ==> start <= #[trigger] segs[j].0 < segs[j].1 <= c.len() && segs[j].1
            - segs[j].0 <= w
    &&& forall|j: int|
        0 <= j < segs.len() - 1 ==> (#[trigger] segs[j + 1].0 == segs[j].1 || (segs[j + 1].0
            == segs[j].1 + 1 && c[segs[j].1] == ' '))
}

proof fn lemma_last_space(c: Seq<char>, lo: int, hi: int)
    ensures
        last_space(c, lo, hi) matches Some(p) ==> lo <= p < hi && c[p] == ' ',
    decreases hi - lo,
{
    if hi > lo && c[hi - 1] != ' ' {
        lemma_last_space(c, lo, hi - 1);
    }
}

/// The segment starting at `start` is non-empty, at most `w` wide, and the
/// next one starts after it.
proof fn lemma_break_at(c: Seq<char>, w: int, start: int)
    requires
        w >= 1,
        0 <= start < c.len(),
    ensures
        ({
            let (e, nx) = break_at(c, w, start);
            &&& start < e <= c.len()
            &&& e - start <= w
            &&& start < nx <= c.len()
            &&& (nx == e || (nx == e + 1 && c[e] == ' '))
            &&& (nx == c.len() <==> e == c.len())
        }),
{
    lemma_last_space(c, start, start + w);
}

/// The segments from `start` tile the rest of the line.
pub proof fn lemma_segments_tile(c: Seq<char>, w: int, start: int)
    requires
        w >= 1,
        0 <= start < c.len(),
    ensures
        tiles_from(c, w, start, segments_from(c, w, start)),
    decreases c.len() - start,
{
    lemma_break_at(c, w, start);
    let (e, nx) = break_at(c, w, start);
    let segs = segments_from(c, w, start);
    let rest = segments_from(c, w, nx);
    assert(segs == seq![(start, e)] + rest);
    if nx < c.len() {
        lemma_segments_tile(c, w, nx);
        assert forall|j: int| 0 <= j < segs.len() implies start <= #[trigger] segs[j].0 < segs[j].1
            <= c.len() && segs[j].1 - segs[j].0 <= w by {
            if j > 0 {
                assert(segs[j] == rest[j - 1]);
            }
        }
        assert forall|j: int| 0 <= j < segs.len() - 1 implies (#[trigger] segs[j + 1].0
            == segs[j].1 || (segs[j + 1].0 == segs[j].1 + 1 && c[segs[j].1] == ' ')) by {
            assert(segs[j + 1] == rest[j]);
            if j > 0 {
                let k = j - 1;
                assert(segs[j] == rest[k]);
                assert(rest[k + 1] == rest[j]);
            }
        }
    } else {
        assert(rest == Seq::<(int, int)>::empty());
        assert(segs =~= seq![(start, e)]);
    }
}

/// A row of logical line `k` shows up in the rows of all lines.
proof fn lemma_rows_contain_line(lines: Seq<Seq<char>>, w: int, k: int, j: int)
    requires
        0 <= k < lines.len(),
        0 <= j < line_segments(lines[k], w).len(),
    ensures
        exists|i: int|
            0 <= i < wrap_rows(lines, w).len() && #[trigger] wrap_rows(lines, w)[i] == rows_of_segs(
                line_segments(lines[k], w),
                k,
            )[j],
    decreases lines.len(),
{
    let prefix = wrap_rows(lines.drop_last(), w);
    let last_rows = rows_of_segs(line_segments(lines.last(), w), lines.len() - 1);
    assert(wrap_rows(lines, w) == prefix + last_rows);
    if k == lines.len() - 1 {
        let i = prefix.len() + j;
        assert(wrap_rows(lines, w)[i] == last_rows[j]);
    } else {
        assert(lines.drop_last()[k] == lines[k]);
        lemma_rows_contain_line(lines.drop_last(), w, k, j);
        let i = choose|i: int|
            0 <= i < prefix.len() && #[trigger] prefix[i] == rows_of_segs(
                line_segments(lines.drop_last()[k], w),
                k,
            )[j];
        assert(wrap_rows(lines, w)[i] == prefix[i]);
    }
}

/// Every row of the model names a line and a range inside that line.
pub proof fn lemma_rows_in_bounds(lines: Seq<Seq<char>>, w: int)
    requires
        w >= 1,
    ensures
        forall|i: int|
            0 <= i < wrap_rows(lines, w).len() ==> {
                let r = #[trigger] wrap_rows(lines, w)[i];
                &&& 0 <= r.0 < lines.len()
                &&& 0 <= r.2 <= r.3 <= lines[r.0].len()
                &&& r.3 - r.2 <= w
            },
    decreases lines.len(),
{
    if lines.len() > 0 {
        let prefix = wrap_rows(lines.drop_last(), w);
        let c = lines.last();
        let last_rows = rows_of_segs(line_segments(c, w), lines.len() - 1);
        lemma_rows_in_bounds(lines.drop_last(), w);
        if c.len() > 0 {
            lemma_segments_tile(c, w, 0);
        }
        assert forall|i: int| 0 <= i < wrap_rows(lines, w).len() implies {
            let r = #[trigger] wrap_rows(lines, w)[i];
            &&& 0 <= r.0 < lines.len()
            &&& 0 <= r.2 <= r.3 <= lines[r.0].len()
            &&& r.3 - r.2 <= w
        } by {
            if i < prefix.len() {
                assert(wrap_rows(lines, w)[i] == prefix[i]);
                assert(lines.drop_last()[prefix[i].0] == lines[prefix[i].0]);
            } else {
                assert(wrap_rows(lines, w)[i] == last_rows[i - prefix.len()]);
            }
        }
    }
}

/// If some row holds the cursor, the cursor lands on a row that holds it.
proof fn lemma_fold_finds(lines: Seq<Seq<char>>, rows: Seq<RowModel>, cursor: (usize, usize), i: int)
    requires
        0 <= i < rows.len(),
        cursor_hits(lines, rows[i], cursor),
    ensures
        ({
            let (k, col) = cursor_fold(lines, rows, cursor);
            &&& 0 <= k < rows.len()
            &&& cursor_hits(lines, rows[k], cursor)
            &&& col == (if lines[rows[k].0].len() == 0 {
                0
            } else {
                cursor.1 - rows[k].2
            })
        }),
    decreases rows.len(),
{
    if !cursor_hits(lines, rows.last(), cursor) {
        assert(rows.drop_last()[i] == rows[i]);
        lemma_fold_finds(lines, rows.drop_last(), cursor, i);
        let (k, col) = cursor_fold(lines, rows.drop_last(), cursor);
        assert(rows.drop_last()[k] == rows[k]);
    }
}

/// Where the cursor lands: when the cursor is at a position of the text
/// (its line exists and its column is at most the line's length), the
/// screen row it lands on belongs to the cursor's line and, reading the
/// row's start plus the screen column, gives back the cursor's column.
pub proof fn lemma_cursor_lands(lines: Seq<Seq<char>>, w: int, cursor: (usize, usize))
    requires
        w >= 1,
        cursor.0 < lines.len(),
        cursor.1 <= lines[cursor.0 as int].len(),
    ensures
        ({
            let rows = wrap_rows(lines, w);
            let (k, col) = cursor_fold(lines, rows, cursor);
            &&& 0 <= k < rows.len()
            &&& rows[k].0 == cursor.0
            &&& lines[cursor.0 as int].len() == 0 ==> col == 0
            &&& lines[cursor.0 as int].len() > 0 ==> rows[k].2 + col == cursor.1 && rows[k].2 <= cursor.1
                <= rows[k].3
        }),
{
    let c = lines[cursor.0 as int];
    let segs = line_segments(c, w);
    let rows = wrap_rows(lines, w);
    // the segment of the cursor's line that contains the cursor column
    let j: int = if c.len() == 0 {
        0
    } else {
        lemma_segments_tile(c, w, 0);
        choose_segment(c, w, segs, cursor.1 as int)
    };
    lemma_rows_contain_line(lines, w, cursor.0 as int, j);
    let i = choose|i: int|
        0 <= i < rows.len() && #[trigger] rows[i] == rows_of_segs(segs, cursor.0 as int)[j];
    lemma_fold_finds(lines, rows, cursor, i);
}

/// A segment that contains position `x` of a tiled line.
proof fn choose_segment(c: Seq<char>, w: int, segs: Seq<(int, int)>, x: int) -> (j: int)
    requires
        tiles_from(c, w, 0, segs),
        0 <= x <= c.len(),
    ensures
        0 <= j < segs.len(),
        segs[j].0 <= x <= segs[j].1,
    decreases segs.len(),
{
    find_segment_from(c, w, segs, x, 0)
}

proof fn find_segment_from(c: Seq<char>, w: int, segs: Seq<(int, int)>, x: int, j: int) -> (r: int)
    requires
        tiles_from(c, w, 0, segs),
        0 <= j < segs.len(),
        segs[j].0 <= x <= c.len(),
    ensures
        0 <= r < segs.len(),
        segs[r].0 <= x <= segs[r].1,
    decreases segs.len() - j,
{
    if x <= segs[j].1 {
        j
    } else {
        // x lies past this segment, so this is not the last one
        assert(j < segs.len() - 1);
        let _ = segs[j + 1].0;
        find_segment_from(c, w, segs, x, j + 1)
    }
}

/// The last space in `v[lo..hi)`.
fn last_space_in(v: &Vec<char>, lo: usize, hi: usize) -> (r: Option<usize>)
    requires
        lo <= hi <= v.len(),
    ensures
        match r {
            Some(p) => last_space(v@, lo as int, hi as int) == Some(p as int),
            None => last_space(v@, lo as int, hi as int) is None,
        },
        r matches Some(p) ==> lo <= p < hi,
{
    proof {
        lemma_last_space(v@, lo as int, hi as int);
    }
    let mut k = hi;
    while k > lo
        invariant
            lo <= k <= hi <= v.len(),
            last_space(v@, lo as int, hi as int) == last_space(v@, lo as int, k as int),
        decreases k - lo,
    {
        if v[k - 1] == ' ' {
            return Some(k - 1);
        }
        k = k - 1;
    }
    None
}

/// Exec form of `seg_highlight`.
fn segment_highlight(
    selection: Option<((usize, usize), (usize, usize))>,
    row: usize,
    s: usize,
    e: usize,
) -> (r: Option<(usize, usize)>)
    requires
        s <= e,
    ensures
        r == seg_highlight(selection, row as int, s as int, e as int),
{
    match selection {
        None => None,
        Some(sel) => {
            let (sr, sc) = sel.0;
            let (er, ec) = sel.1;
            if row < sr || row > er {
                None
            } else {
                let lo = if row == sr && sc >= s {
                    sc
                } else {
                    s
                };
                let hi = if row == er && ec <= e {
                    ec
                } else {
                    e
                };
                if lo < hi {
                    Some((lo - s, hi - s))
                } else {
                    None
                }
            }
        },
    }
}

/// Soft-wraps the logical lines to `width` columns (at least one) and maps
/// the cursor onto the wrapped rows. `selection` is a normalized
/// `(start, end)` pair of logical `(row, col)` positions, start <= end.
pub fn wrap_editor_lines(
    logical_lines: &[String],
    width: usize,
    cursor: (usize, usize),
    selection: Option<((usize, usize), (usize, usize))>,
) -> (res: WrapResult)
    ensures
        ({
            let lines = lines_view(logical_lines@);
            let rows = wrap_rows(lines, effective_width(width));
            &&& res.lines@.len() == rows.len()
            &&& forall|i: int|
                0 <= i < rows.len() ==> row_matches(lines, selection, #[trigger] res.lines@[i], rows[i])
            &&& (res.cursor_screen_row as int, res.cursor_screen_col as int) == cursor_fold(
                lines,
                rows,
                cursor,
            )
        }),
{
    let width = if width == 0 {
        1
    } else {
        width
    };
    let ghost w = width as int;
    let ghost lines = lines_view(logical_lines@);
    let mut out: Vec<WrappedLine> = Vec::new();
    let mut cursor_row: usize = 0;
    let mut cursor_col: usize = 0;
    let mut row_idx: usize = 0;
    while row_idx < logical_lines.len()
        invariant
            w == effective_width(width),
            w == width as int,
            width >= 1,
            lines == lines_view(logical_lines@),
            row_idx <= logical_lines@.len(),
            out@.len() == wrap_rows(lines.take(row_idx as int), w).len(),
            forall|i: int|
                0 <= i < out@.len() ==> row_matches(
                    lines,
                    selection,
                    #[trigger] out@[i],
                    wrap_rows(lines.take(row_idx as int), w)[i],
                ),
            (cursor_row as int, cursor_col as int) == cursor_fold(
                lines,
                wrap_rows(lines.take(row_idx as int), w),
                cursor,
            ),
        decreases logical_lines@.len() - row_idx,
    {
        let chars = chars_of(logical_lines[row_idx].as_str());
        let ghost c = chars@;
        assert(c == lines[row_idx as int]);
        let ghost before = wrap_rows(lines.take(row_idx as int), w);
        assert(lines.take(row_idx + 1).drop_last() =~= lines.take(row_idx as int));
        assert(lines.take(row_idx + 1).last() == c);
        assert(wrap_rows(lines.take(row_idx + 1), w) == before + rows_of_segs(
            line_segments(c, w),
            row_idx as int,
        ));
        if chars.len() == 0 {
            if row_idx == cursor.0 {
                cursor_row = out.len();
                cursor_col = 0;
            }
            let ghost r: RowModel = (row_idx as int, true, 0int, 0int);
            out.push(
                WrappedLine {
                    logical_row: row_idx,
                    is_first_segment: true,
                    text: String::new(),
                    highlight: None,
                },
            );
            assert(rows_of_segs(line_segments(c, w), row_idx as int) =~= seq![r]);
            assert((before + seq![r]).drop_last() =~= before);
            assert(c.subrange(0, 0) =~= Seq::<char>::empty());
            assert forall|i: int| 0 <= i < out@.len() implies row_matches(
                lines,
                selection,
                #[trigger] out@[i],
                (before + seq![r])[i],
            ) by {
                if i < before.len() {
                    assert((before + seq![r])[i] == before[i]);
                }
            }
        } else {
            let mut start: usize = 0;
            let mut first = true;
            let ghost mut done: Seq<(int, int)> = seq![];
            let ghost out_before = out@;
            assert(segments_from(c, w, 0) == done + segments_from(c, w, 0));
            while start < chars.len()
                invariant
                    w == width >= 1,
                    c == chars@,
                    c == lines[row_idx as int],
                    c.len() > 0,
                    row_idx < logical_lines@.len(),
                    lines == lines_view(logical_lines@),
                    start <= chars.len(),
                    first == (done.len() == 0),
                    start == 0 <==> done.len() == 0,
                    segments_from(c, w, 0) == done + segments_from(c, w, start as int),
                    out_before.len() == before.len(),
                    out@.len() == before.len() + done.len(),
                    forall|i: int|
                        0 <= i < out@.len() ==> row_matches(
                            lines,
                            selection,
                            #[trigger] out@[i],
                            (before + rows_of_segs(done, row_idx as int))[i],
                        ),
                    (cursor_row as int, cursor_col as int) == cursor_fold(
                        lines,
                        before + rows_of_segs(done, row_idx as int),
                        cursor,
                    ),
                decreases chars.len() - start,
            {
                let remaining = chars.len() - start;
                let (seg_end, next_start) = if remaining <= width {
                    (chars.len(), chars.len())
                } else {
                    let window_end = start + width;
                    match last_space_in(&chars, start, window_end) {
                        Some(p) => if p > start {
                            (p, p + 1)
                        } else {
                            (window_end, window_end)
                        },
                        None => (window_end, window_end),
                    }
                };
                proof {
                    lemma_break_at(c, w, start as int);
                }
                assert((seg_end as int, next_start as int) == break_at(c, w, start as int));
                let ghost seg = (start as int, seg_end as int);
                let ghost r: RowModel = (row_idx as int, done.len() == 0, start as int, seg_end as int);
                assert(segments_from(c, w, start as int) == seq![seg] + segments_from(
                    c,
                    w,
                    next_start as int,
                ));
                let seg_row = out.len();
                if row_idx == cursor.0 && cursor.1 >= start && cursor.1 <= seg_end {
                    cursor_row = seg_row;
                    cursor_col = cursor.1 - start;
                }
                let text = string_of_range(&chars, start, seg_end);
                let highlight = segment_highlight(selection, row_idx, start, seg_end);
                out.push(
                    WrappedLine {
                        logical_row: row_idx,
                        is_first_segment: first,
                        text,
                        highlight,
                    },
                );
                let ghost old_rows = before + rows_of_segs(done, row_idx as int);
                assert(rows_of_segs(done.push(seg), row_idx as int) =~= rows_of_segs(
                    done,
                    row_idx as int,
                ).push(r));
                assert(before + rows_of_segs(done.push(seg), row_idx as int) =~= old_rows.push(r));
                assert(old_rows.push(r).drop_last() =~= old_rows);
                assert forall|i: int| 0 <= i < out@.len() implies row_matches(
                    lines,
                    selection,
                    #[trigger] out@[i],
                    old_rows.push(r)[i],
                ) by {
                    if i < old_rows.len() {
                        assert(old_rows.push(r)[i] == old_rows[i]);
                    }
                }
                assert(done.push(seg) + segments_from(c, w, next_start as int) =~= done + (seq![seg]
                    + segments_from(c, w, next_start as int)));
                proof {
                    done = done.push(seg);
                }
                first = false;
                start = next_start;
            }
            assert(segments_from(c, w, start as int) =~= Seq::<(int, int)>::empty());
            assert(done =~= segments_from(c, w, 0));
        }
        row_idx = row_idx + 1;
    }
    assert(lines.take(logical_lines@.len() as int) =~= lines);
    WrapResult { lines: out, cursor_screen_row: cursor_row, cursor_screen_col: cursor_col }
}


/// The segments `[start, end)` of `v` at width `width`, from its start.
pub fn segments(v: &Vec<char>, width: usize) -> (r: Vec<(usize, usize)>)
    requires
        width >= 1,
    ensures
        r@.map_values(|p: (usize, usize)| (p.0 as int, p.1 as int)) == segments_from(
            v@,
            width as int,
            0,
        ),
{
    let ghost c = v@;
    let ghost w = width as int;
    let mut out: Vec<(usize, usize)> = Vec::new();
    let mut start: usize = 0;
    let ghost mut done: Seq<(int, int)> = seq![];
    assert(segments_from(c, w, 0) == done + segments_from(c, w, 0));
    while start < v.len()
        invariant
            c == v@,
            w == width as int >= 1,
            start <= v.len(),
            segments_from(c, w, 0) == done + segments_from(c, w, start as int),
            out@.map_values(|p: (usize, usize)| (p.0 as int, p.1 as int)) == done,
        decreases v.len() - start,
    {
        let remaining = v.len() - start;
        let (seg_end, next_start) = if remaining <= width {
            (v.len(), v.len())
        } else {
            let window_end = start + width;
            match last_space_in(v, start, window_end) {
                Some(p) => if p > start {
                    (p, p + 1)
                } else {
                    (window_end, window_end)
                },
                None => (window_end, window_end),
            }
        };
        proof {
            lemma_break_at(c, w, start as int);
        }
        assert((seg_end as int, next_start as int) == break_at(c, w, start as int));
        let ghost seg = (start as int, seg_end as int);
        assert(segments_from(c, w, start as int) == seq![seg] + segments_from(c, w, next_start as int));
        out.push((start, seg_end));
        assert(out@.map_values(|p: (usize, usize)| (p.0 as int, p.1 as int)) =~= done.push(seg));
        assert(done.push(seg) + segments_from(c, w, next_start as int) =~= done + (seq![seg]
            + segments_from(c, w, next_start as int)));
        proof {
            done = done.push(seg);
        }
        start = next_start;
    }
    assert(segments_from(c, w, start as int) =~= Seq::<(int, int)>::empty());
    assert(done + Seq::<(int, int)>::empty() =~= done);
    out
}

/// Whether the logical position `(row, col)` lies in the selection: at or
/// after its start and before its end, positions compared line first.
pub open spec fn in_selection(selection: Option<((usize, usize), (usize, usize))>, row: int, col: int) -> bool {
    match selection {
        None => false,
        Some(sel) => {
            let (sr, sc) = sel.0;
            let (er, ec) = sel.1;
            &&& (sr < row || (sr == row && sc <= col))
            &&& (row < er || (row == er && col < ec))
        },
    }
}

/// The highlight of the segment `[s, e)` of line `row` covers exactly the
/// characters of the segment that lie in the selection, in offsets from the
/// segment's start, and stays inside the segment.
pub proof fn lemma_highlight_is_selection(
    selection: Option<((usize, usize), (usize, usize))>,
    row: int,
    s: int,
    e: int,
)
    requires
        0 <= s <= e <= usize::MAX,
    ensures
        seg_highlight(selection, row, s, e) matches Some(h) ==> h.0 < h.1 <= e - s,
        forall|col: int|
            s <= col < e ==> (in_selection(selection, row, col) <==> (seg_highlight(selection, row, s, e) matches Some(h)
                && h.0 <= col - s < h.1)),
{
}

} // verus!
