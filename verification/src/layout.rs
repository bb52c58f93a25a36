//! Screen layout: styled segments, aligned lines, sections and whole frames.
use vstd::prelude::*;
use vstd::string::StringExecFns;
use crate::ansi;
use crate::text::{decimal, push_decimal};
use crate::ansi::joined;
use crate::width::{char_cols, char_width, display_width, measurable, truncate, truncated, visible_width};

verus! {

/// One piece of a line.
#[derive(Debug, Clone)]
pub enum Segment {
    Text { content: String, style: String },
    Fill { ch: char, style: String },
    Emoji { emoji: String },
}

/// What a segment holds.
pub enum SegmentView {
    Text { content: Seq<char>, style: Seq<char> },
    Fill { ch: char, style: Seq<char> },
    Emoji { emoji: Seq<char> },
}

impl View for Segment {
    type V = SegmentView;

    open spec fn view(&self) -> SegmentView {
        match self {
            Segment::Text { content, style } => SegmentView::Text {
                content: content@,
                style: style@,
            },
            Segment::Fill { ch, style } => SegmentView::Fill { ch: *ch, style: style@ },
            Segment::Emoji { emoji } => SegmentView::Emoji { emoji: emoji@ },
        }
    }
}

/// `text` wrapped in `style` and a reset, when colors are on and there is a style.
pub open spec fn styled(text: Seq<char>, style: Seq<char>, colors: bool) -> Seq<char> {
    if !colors || style.len() == 0 {
        text
    } else {
        style + text + ansi::RESET@
    }
}

fn apply_style(text: &str, style: &str, colors: bool) -> (r: String)
    ensures
        r@ == styled(text@, style@, colors),
{
    if !colors || style.is_empty() {
        return String::from_str(text);
    }
    let mut r = String::from_str(style);
    r.append(text);
    r.append(ansi::RESET);
    r
}

/// `n` copies of `c`.
pub open spec fn repeated(c: char, n: nat) -> Seq<char> {
    Seq::new(n, |_i: int| c)
}

fn repeat_char(c: char, n: usize) -> (r: String)
    ensures
        r@ == repeated(c, n as nat),
{
    let mut r = String::new();
    let mut i: usize = 0;
    while i < n
        invariant
            i <= n,
            r@ == repeated(c, i as nat),
        decreases n - i,
    {
        r.push(c);
        i += 1;
        assert(r@ =~= repeated(c, i as nat));
    }
    r
}

/// `c` repeated to fill `width` columns, cut with an ellipsis where it overshoots.
pub open spec fn repeated_to_width(c: char, width: nat) -> Seq<char> {
    if width == 0 {
        Seq::empty()
    } else {
        let unit = if char_cols(c) >= 1 {
            char_cols(c)
        } else {
            1
        };
        truncated(repeated(c, width / unit + 2), width)
    }
}

/// Widths and lengths that the renderer handles: everything stays far from
/// `usize::MAX`.
pub open spec fn small(n: int) -> bool {
    n <= usize::MAX / 16
}

fn repeat_to_width(c: char, width: usize) -> (r: String)
    requires
        small(width as int),
    ensures
        r@ == repeated_to_width(c, width as nat),
        display_width(r@) <= width,
        r@.len() <= width + 3,
{
    if width == 0 {
        return String::new();
    }
    let w = char_width(c);
    let unit = if w >= 1 {
        w
    } else {
        1
    };
    let count = width / unit + 2;
    let pattern = repeat_char(c, count);
    proof {
        crate::width_laws::lemma_truncated_len(pattern@, width as nat);
    }
    truncate(pattern.as_str(), width)
}

/// Renders one segment into at most `rem` columns: the text and its width.
pub open spec fn render_segment(seg: SegmentView, rem: nat, colors: bool) -> (Seq<char>, nat) {
    match seg {
        SegmentView::Text { content, style } => {
            let shown = truncated(content, rem);
            if display_width(shown) == 0 {
                (Seq::empty(), 0)
            } else {
                (styled(shown, style, colors), display_width(shown))
            }
        },
        SegmentView::Fill { ch, style } => {
            let filler = repeated_to_width(ch, rem);
            if filler.len() == 0 {
                (Seq::empty(), 0)
            } else {
                (styled(filler, style, colors), display_width(filler))
            }
        },
        SegmentView::Emoji { emoji } => {
            let shown = truncated(emoji, rem);
            if display_width(shown) == 0 {
                (Seq::empty(), 0)
            } else {
                (shown, display_width(shown))
            }
        },
    }
}

/// Renders segments `k..` into `max` columns, `width` of which are used:
/// the text added and the columns used at the end.
pub open spec fn render_segments(
    segs: Seq<SegmentView>,
    k: int,
    max: nat,
    colors: bool,
    width: nat,
) -> (Seq<char>, nat)
    decreases segs.len() - k,
{
    if k < 0 || k >= segs.len() || width >= max {
        (Seq::empty(), width)
    } else {
        let (piece, w) = render_segment(segs[k], (max - width) as nat, colors);
        let (rest, end) = render_segments(segs, k + 1, max, colors, width + w);
        (piece + rest, end)
    }
}

/// Text that a segment can carry: short enough to measure.
pub open spec fn segment_fits(seg: SegmentView) -> bool {
    match seg {
        SegmentView::Text { content, style } => small(content.len() as int),
        SegmentView::Fill { ch, style } => true,
        SegmentView::Emoji { emoji } => small(emoji.len() as int),
    }
}

/// Renders one segment into at most `rem` columns.
fn render_one(seg: &Segment, rem: usize, colors: bool) -> (r: (String, usize))
    requires
        segment_fits(seg@),
        small(rem as int),
        rem >= 1,
    ensures
        (r.0@, r.1 as nat) == render_segment(seg@, rem as nat, colors),
        r.1 <= rem,
{
    match seg {
        Segment::Text { content, style } => {
            let shown = if visible_width(content.as_str()) > rem {
                truncate(content.as_str(), rem)
            } else {
                content.clone()
            };
            proof {
                crate::width_laws::lemma_truncated_len(content@, rem as nat);
            }
            let w = visible_width(shown.as_str());
            if w > 0 {
                (apply_style(shown.as_str(), style.as_str(), colors), w)
            } else {
                (String::new(), 0)
            }
        },
        Segment::Fill { ch, style } => {
            let filler = repeat_to_width(*ch, rem);
            if filler.as_str().is_empty() {
                (String::new(), 0)
            } else {
                let w = visible_width(filler.as_str());
                (apply_style(filler.as_str(), style.as_str(), colors), w)
            }
        },
        Segment::Emoji { emoji } => {
            let shown = if visible_width(emoji.as_str()) > rem {
                truncate(emoji.as_str(), rem)
            } else {
                emoji.clone()
            };
            proof {
                crate::width_laws::lemma_truncated_len(emoji@, rem as nat);
            }
            let w = visible_width(shown.as_str());
            if w > 0 {
                (shown, w)
            } else {
                (String::new(), 0)
            }
        },
    }
}

/// Writes styled segments left to right.
#[derive(Debug, Clone)]
pub struct SegmentWriter {
    pub segments: Vec<Segment>,
}

impl View for SegmentWriter {
    type V = Seq<SegmentView>;

    open spec fn view(&self) -> Seq<SegmentView> {
        self.segments@.map_values(|s: Segment| s@)
    }
}

impl SegmentWriter {
    /// Every segment is short enough to measure.
    pub open spec fn fits(&self) -> bool {
        forall|k: int| 0 <= k < self@.len() ==> segment_fits(#[trigger] self@[k])
    }

    pub fn new() -> (w: Self)
        ensures
            w@ == Seq::<SegmentView>::empty(),
    {
        let w = SegmentWriter { segments: Vec::new() };
        assert(w@ =~= Seq::<SegmentView>::empty());
        w
    }

    fn push_segment(&mut self, seg: Segment)
        ensures
            final(self)@ == old(self)@.push(seg@),
    {
        self.segments.push(seg);
        assert(self@ =~= old(self)@.push(seg@));
    }

    /// Adds `text` in style `color`.
    pub fn write(&mut self, text: &str, color: &str)
        ensures
            final(self)@ == old(self)@.push(SegmentView::Text { content: text@, style: color@ }),
    {
        self.push_segment(
            Segment::Text { content: String::from_str(text), style: String::from_str(color) },
        );
    }

    /// Adds `text` dimmed.
    pub fn write_dim(&mut self, text: &str)
        ensures
            final(self)@ == old(self)@.push(
                SegmentView::Text { content: text@, style: ansi::DIM@ },
            ),
    {
        self.push_segment(
            Segment::Text { content: String::from_str(text), style: String::from_str(ansi::DIM) },
        );
    }

    /// Adds `text` in bold, then in `color`.
    pub fn write_bold(&mut self, text: &str, color: &str)
        ensures
            final(self)@ == old(self)@.push(
                SegmentView::Text { content: text@, style: ansi::BOLD@ + color@ },
            ),
    {
        let mut style = String::from_str(ansi::BOLD);
        style.append(color);
        self.push_segment(Segment::Text { content: String::from_str(text), style });
    }

    /// Adds `text` on background color `bg_color`.
    pub fn write_highlight(&mut self, text: &str, bg_color: u8, colors: bool)
        ensures
            final(self)@ == old(self)@.push(
                SegmentView::Text {
                    content: text@,
                    style: if colors {
                        "\x1b[48;5;"@ + decimal(bg_color as nat) + "m"@
                    } else {
                        Seq::<char>::empty()
                    },
                },
            ),
    {
        let style = ansi::bg(bg_color, colors);
        self.push_segment(Segment::Text { content: String::from_str(text), style });
    }

    /// Adds a run of `ch` that fills the remaining width.
    pub fn fill(&mut self, ch: char)
        ensures
            final(self)@ == old(self)@.push(SegmentView::Fill { ch, style: Seq::<char>::empty() }),
    {
        self.push_segment(Segment::Fill { ch, style: String::new() });
    }

    /// Adds an emoji, drawn without style.
    pub fn emoji(&mut self, e: &str)
        ensures
            final(self)@ == old(self)@.push(SegmentView::Emoji { emoji: e@ }),
    {
        self.push_segment(Segment::Emoji { emoji: String::from_str(e) });
    }

    /// Renders the segments into at most `max_width` columns: the text and the
    /// columns it takes.
    pub fn render(&self, max_width: usize, colors: bool) -> (r: (String, usize))
        requires
            self.fits(),
            small(max_width as int),
        ensures
            (r.0@, r.1 as nat) == render_segments(self@, 0, max_width as nat, colors, 0),
            r.1 <= max_width,
    {
        if max_width == 0 {
            return (String::new(), 0);
        }
        let mut out = String::new();
        let mut width: usize = 0;
        let mut k: usize = 0;
        while k < self.segments.len() && width < max_width
            invariant
                k <= self.segments.len(),
                width <= max_width,
                small(max_width as int),
                self.fits(),
                ({
                    let (rest, end) = render_segments(
                        self@,
                        k as int,
                        max_width as nat,
                        colors,
                        width as nat,
                    );
                    (out@ + rest, end) == render_segments(self@, 0, max_width as nat, colors, 0)
                }),
            decreases self.segments.len() - k,
        {
            let rem = max_width - width;
            let ghost seg = self@[k as int];
            assert(segment_fits(seg));
            let (piece, w) = render_one(&self.segments[k], rem, colors);
            let ghost before = out@;
            let ghost rest = render_segments(self@, k + 1, max_width as nat, colors, (width + w) as nat);
            out.append(piece.as_str());
            assert(out@ + rest.0 =~= before + (piece@ + rest.0));
            width = width + w;
            k += 1;
        }
        assert(out@ + render_segments(self@, k as int, max_width as nat, colors, width as nat).0 =~= out@);
        (out, width)
    }
}

/// `a - b`, or zero when `b` is larger.
pub open spec fn sat_sub(a: int, b: int) -> nat {
    if a >= b {
        (a - b) as nat
    } else {
        0
    }
}

/// What a line holds.
pub struct LineView {
    pub left: Seq<SegmentView>,
    pub center: Seq<SegmentView>,
    pub right: Seq<SegmentView>,
    pub background: Option<u8>,
    pub input_cursor_col: Option<usize>,
}

/// A row of the screen: left-aligned, centered and right-aligned segments on
/// an optional background color.
#[derive(Debug, Clone)]
pub struct Line {
    pub left: SegmentWriter,
    pub center: SegmentWriter,
    pub right: SegmentWriter,
    pub background: Option<u8>,
    pub input_cursor_col: Option<usize>,
}

impl View for Line {
    type V = LineView;

    open spec fn view(&self) -> LineView {
        LineView {
            left: self.left@,
            center: self.center@,
            right: self.right@,
            background: self.background,
            input_cursor_col: self.input_cursor_col,
        }
    }
}

/// The empty line.
pub open spec fn empty_line() -> LineView {
    LineView {
        left: Seq::empty(),
        center: Seq::empty(),
        right: Seq::empty(),
        background: None,
        input_cursor_col: None,
    }
}

/// All segments of a line are short enough to measure.
pub open spec fn line_fits(l: LineView) -> bool {
    &&& forall|k: int| 0 <= k < l.left.len() ==> segment_fits(#[trigger] l.left[k])
    &&& forall|k: int| 0 <= k < l.center.len() ==> segment_fits(#[trigger] l.center[k])
    &&& forall|k: int| 0 <= k < l.right.len() ==> segment_fits(#[trigger] l.right[k])
}

/// The left text followed by the centered text, padded to start at `start`:
/// the text and the column where it ends.
pub open spec fn place_center(lt: Seq<char>, lw: nat, ct: Seq<char>, cw: nat, start: nat) -> (
    Seq<char>,
    nat,
) {
    if cw > 0 {
        if start > lw {
            (lt + repeated(' ', (start - lw) as nat) + ct, start + cw)
        } else {
            (lt + ct, lw + cw)
        }
    } else {
        (lt, lw)
    }
}

/// `t`, ending at column `col`, followed by the right text padded to start at
/// `start`: the text and the column where it ends.
pub open spec fn place_right(t: Seq<char>, col: nat, rt: Seq<char>, rw: nat, start: nat) -> (
    Seq<char>,
    nat,
) {
    let (t2, col2) = if start > col {
        (t + repeated(' ', (start - col) as nat), start)
    } else {
        (t, col)
    };
    if rw > 0 {
        (t2 + rt, col2 + rw)
    } else {
        (t2, col2)
    }
}

/// `t`, ending at column `col`, padded with spaces to `width` columns.
pub open spec fn pad_to(t: Seq<char>, col: nat, width: nat) -> Seq<char> {
    if col < width {
        t + repeated(' ', (width - col) as nat)
    } else {
        t
    }
}

/// `t` on background `background`, when colors are on.
pub open spec fn on_background(t: Seq<char>, background: Option<u8>, colors: bool) -> Seq<char> {
    match background {
        Some(bg) => if colors {
            "\x1b[48;5;"@ + decimal(bg as nat) + "m"@ + t + ansi::RESET@
        } else {
            t
        },
        None => t,
    }
}

/// The text of a line rendered `width` columns wide: left segments first, then
/// the right segments in what remains, then the center segments in what remains
/// between; the center text is centered, the right text right-aligned, the rest
/// filled with spaces.
pub open spec fn line_text(l: LineView, width: nat, colors: bool) -> Seq<char> {
    if width == 0 {
        Seq::empty()
    } else {
        let (lt, lw) = render_segments(l.left, 0, width, colors, 0);
        let right_max = sat_sub(width as int, lw as int);
        let (rt, rw) = render_segments(l.right, 0, right_max, colors, 0);
        let center_max = sat_sub(width as int, (lw + rw) as int);
        let (ct, cw) = render_segments(l.center, 0, center_max, colors, 0);
        let right_start = sat_sub(width as int, rw as int);
        let center_start = lw + sat_sub(center_max as int, cw as int) / 2;
        let (t1, col1) = place_center(lt, lw, ct, cw, center_start);
        let (t2, col2) = place_right(t1, col1, rt, rw, right_start);
        on_background(pad_to(t2, col2, width), l.background, colors)
    }
}

impl Line {
    pub open spec fn fits(&self) -> bool {
        line_fits(self@)
    }

    pub fn new() -> (l: Self)
        ensures
            l@ == empty_line(),
    {
        Line {
            left: SegmentWriter::new(),
            center: SegmentWriter::new(),
            right: SegmentWriter::new(),
            background: None,
            input_cursor_col: None,
        }
    }

    /// The line rendered exactly `width` columns wide.
    pub fn render(&self, width: usize, colors: bool) -> (r: String)
        requires
            self.fits(),
            small(width as int),
        ensures
            r@ == line_text(self@, width as nat, colors),
    {
        if width == 0 {
            return String::new();
        }
        assert(self.left.fits() && self.right.fits() && self.center.fits()) by {
            assert(self@.left == self.left@);
            assert(self@.right == self.right@);
            assert(self@.center == self.center@);
        }
        let (left_text, left_width) = self.left.render(width, colors);
        let right_max = if width >= left_width {
            width - left_width
        } else {
            0
        };
        let (right_text, right_width) = self.right.render(right_max, colors);
        let center_max = if width >= left_width + right_width {
            width - (left_width + right_width)
        } else {
            0
        };
        let (center_text, center_width) = self.center.render(center_max, colors);
        let right_start = if width >= right_width {
            width - right_width
        } else {
            0
        };
        let center_start = left_width + (if center_max >= center_width {
            center_max - center_width
        } else {
            0
        }) / 2;
        let ghost lt = left_text@;
        let ghost ct = center_text@;
        let ghost rt = right_text@;
        let mut out = left_text;
        let mut col = left_width;
        if center_width > 0 {
            if center_start > col {
                out.append(repeat_char(' ', center_start - col).as_str());
                col = center_start;
            }
            out.append(center_text.as_str());
            col += center_width;
        }
        assert((out@, col as nat) == place_center(
            lt,
            left_width as nat,
            ct,
            center_width as nat,
            center_start as nat,
        ));
        let ghost t1 = out@;
        let ghost col1 = col;
        if right_start > col {
            out.append(repeat_char(' ', right_start - col).as_str());
            col = right_start;
        }
        if right_width > 0 {
            out.append(right_text.as_str());
            col += right_width;
        }
        assert((out@, col as nat) == place_right(
            t1,
            col1 as nat,
            rt,
            right_width as nat,
            right_start as nat,
        ));
        if col < width {
            out.append(repeat_char(' ', width - col).as_str());
        }
        let ghost padded = out@;
        match self.background {
            Some(bg_color) => {
                if colors {
                    let mut framed = ansi::bg(bg_color, colors);
                    framed.append(out.as_str());
                    framed.append(ansi::RESET);
                    return framed;
                }
                out
            },
            None => out,
        }
    }
}

/// A vertical region of the screen holding up to `max_lines` lines.
#[derive(Debug, Clone)]
pub struct Section {
    pub lines: Vec<Line>,
    pub max_lines: usize,
}

impl Section {
    /// The lines, as views.
    pub open spec fn line_views(&self) -> Seq<LineView> {
        self.lines@.map_values(|l: Line| l@)
    }

    pub open spec fn fits(&self) -> bool {
        forall|k: int| 0 <= k < self.lines@.len() ==> line_fits(#[trigger] self.lines@[k]@)
    }

    pub fn new(max_lines: usize) -> (s: Self)
        ensures
            s.lines@.len() == 0,
            s.max_lines == max_lines,
    {
        Section { lines: Vec::new(), max_lines }
    }

    /// Appends an empty line and hands it out for writing.
    pub fn add_line(&mut self) -> (r: &mut Line)
        ensures
            r@ == empty_line(),
            final(self).lines@ == old(self).lines@.push(*final(r)),
            final(self).max_lines == old(self).max_lines,
    {
        self.lines.push(Line::new());
        let n = self.lines.len();
        &mut self.lines[n - 1]
    }

    /// Removes every line.
    pub fn clear(&mut self)
        ensures
            final(self).lines@.len() == 0,
            final(self).max_lines == old(self).max_lines,
    {
        self.lines.clear();
    }
}

/// Line `idx` of a section, if it has one.
pub open spec fn slot(lines: Seq<LineView>, idx: int) -> Option<LineView> {
    if 0 <= idx < lines.len() {
        Some(lines[idx])
    } else {
        None
    }
}

/// A screen row: the line rendered, or blanks where the section has no line.
pub open spec fn slot_text(slot: Option<LineView>, width: nat, colors: bool) -> Seq<char> {
    match slot {
        Some(l) => line_text(l, width, colors),
        None => repeated(' ', width),
    }
}

/// The `h` rows a section fills.
pub open spec fn section_rows(lines: Seq<LineView>, h: nat, width: nat, colors: bool) -> Seq<
    Seq<char>,
> {
    Seq::new(h, |k: int| slot_text(slot(lines, k), width, colors))
}

/// `col` kept within `1..=max(width, 1)`.
pub open spec fn clamp_col(col: usize, width: nat) -> nat {
    let hi = if width >= 1 {
        width
    } else {
        1
    };
    if col < 1 {
        1
    } else if col > hi {
        hi
    } else {
        col as nat
    }
}

/// The first input cursor among rows `idx..h` of a section whose row `idx`
/// is screen row `row`: that row and the cursor's column.
pub open spec fn cursor_from(lines: Seq<LineView>, idx: int, h: nat, width: nat, row: nat) -> Option<
    (nat, nat),
>
    decreases h - idx,
{
    if idx < 0 || idx >= h {
        None
    } else {
        match slot(lines, idx) {
            Some(l) => match l.input_cursor_col {
                Some(c) => Some((row, clamp_col(c, width))),
                None => cursor_from(lines, idx + 1, h, width, row + 1),
            },
            None => cursor_from(lines, idx + 1, h, width, row + 1),
        }
    }
}

pub proof fn lemma_cursor_from_bounds(lines: Seq<LineView>, idx: int, h: nat, width: nat, row: nat)
    requires
        0 <= idx,
    ensures
        cursor_from(lines, idx, h, width, row) matches Some((r, c)) ==> row <= r < row + h - idx && 1
            <= c <= if width >= 1 {
            width
        } else {
            1
        },
    decreases h - idx,
{
    if idx < h {
        lemma_cursor_from_bounds(lines, idx + 1, h, width, row + 1);
    }
}

/// The views of a list of strings.
pub open spec fn string_views(v: Seq<String>) -> Seq<Seq<char>> {
    v.map_values(|s: String| s@)
}

/// Lines joined with newlines.
pub fn join_lines(lines: &Vec<String>) -> (r: String)
    ensures
        r@ == joined(string_views(lines@), "\n"@),
{
    let mut out = String::new();
    let mut i: usize = 0;
    while i < lines.len()
        invariant
            i <= lines.len(),
            out@ == joined(string_views(lines@).take(i as int), "\n"@),
        decreases lines.len() - i,
    {
        if i > 0 {
            out.append("\n");
        }
        out.append(lines[i].as_str());
        assert(string_views(lines@).take(i + 1).drop_last() =~= string_views(lines@).take(i as int));
        assert(out@ =~= joined(string_views(lines@).take(i + 1), "\n"@));
        i += 1;
    }
    assert(string_views(lines@).take(lines@.len() as int) =~= string_views(lines@));
    out
}

/// What the screen holds.
pub struct ScreenView {
    pub width: u16,
    pub height: u16,
    pub header: Seq<LineView>,
    pub header_max: usize,
    pub body: Seq<LineView>,
    pub body_max: usize,
    pub footer: Seq<LineView>,
    pub footer_max: usize,
    pub test_no_cls: bool,
}

/// The rows given to the header, body and footer of a screen.
pub open spec fn section_heights(v: ScreenView) -> (nat, nat, nat) {
    let height = v.height as nat;
    let hh = if v.header_max < height {
        v.header_max as nat
    } else {
        height
    };
    let rest = sat_sub(height as int, hh as int);
    let fh = if v.footer_max < rest {
        v.footer_max as nat
    } else {
        rest
    };
    (hh, fh, sat_sub(height as int, (hh + fh) as int))
}

/// The rows of the whole screen, top to bottom.
pub open spec fn screen_rows(v: ScreenView, colors: bool) -> Seq<Seq<char>> {
    let (hh, fh, bh) = section_heights(v);
    let w = v.width as nat;
    section_rows(v.header, hh, w, colors) + section_rows(v.body, bh, w, colors) + section_rows(
        v.footer,
        fh,
        w,
        colors,
    )
}

/// Where the input cursor goes: the first line with one, top to bottom.
pub open spec fn screen_cursor(v: ScreenView) -> Option<(nat, nat)> {
    let (hh, fh, bh) = section_heights(v);
    let w = v.width as nat;
    match cursor_from(v.header, 0, hh, w, 1) {
        Some(c) => Some(c),
        None => match cursor_from(v.body, 0, bh, w, 1 + hh) {
            Some(c) => Some(c),
            None => cursor_from(v.footer, 0, fh, w, 1 + hh + bh),
        },
    }
}

/// The whole frame written to the terminal.
pub open spec fn frame_text(v: ScreenView, colors: bool) -> Seq<char> {
    let open = if v.test_no_cls {
        Seq::<char>::empty()
    } else {
        ansi::ALT_SCREEN_ON@ + ansi::CURSOR_HIDE@
    };
    let cursor = match screen_cursor(v) {
        Some((row, col)) => "\x1b["@ + decimal(row) + ";"@ + decimal(col) + "H"@,
        None => Seq::<char>::empty(),
    };
    let close = if v.test_no_cls {
        Seq::<char>::empty()
    } else {
        ansi::CURSOR_SHOW@
    };
    open + ansi::CURSOR_HOME@ + ansi::CLEAR_SCREEN@ + joined(screen_rows(v, colors), "\n"@)
        + cursor + close
}

/// A full-screen frame: header, body and footer sections stacked.
#[derive(Debug, Clone)]
pub struct Screen {
    pub width: u16,
    pub height: u16,
    pub header: Section,
    pub body: Section,
    pub footer: Section,
    pub test_no_cls: bool,
}

impl View for Screen {
    type V = ScreenView;

    open spec fn view(&self) -> ScreenView {
        ScreenView {
            width: self.width,
            height: self.height,
            header: self.header.line_views(),
            header_max: self.header.max_lines,
            body: self.body.line_views(),
            body_max: self.body.max_lines,
            footer: self.footer.line_views(),
            footer_max: self.footer.max_lines,
            test_no_cls: self.test_no_cls,
        }
    }
}

impl Screen {
    pub open spec fn fits(&self) -> bool {
        self.header.fits() && self.body.fits() && self.footer.fits()
    }

    pub fn new(width: u16, height: u16, header_size: usize, footer_size: usize) -> (s: Self)
        ensures
            s.width == width,
            s.height == height,
            s.header.lines@.len() == 0,
            s.header.max_lines == header_size,
            s.body.lines@.len() == 0,
            s.body.max_lines == usize::MAX,
            s.footer.lines@.len() == 0,
            s.footer.max_lines == footer_size,
            !s.test_no_cls,
    {
        Screen {
            width,
            height,
            header: Section::new(header_size),
            body: Section::new(usize::MAX),
            footer: Section::new(footer_size),
            test_no_cls: false,
        }
    }

    /// Removes every line from every section.
    pub fn clear(&mut self)
        ensures
            final(self).header.lines@.len() == 0,
            final(self).body.lines@.len() == 0,
            final(self).footer.lines@.len() == 0,
            final(self).header.max_lines == old(self).header.max_lines,
            final(self).body.max_lines == old(self).body.max_lines,
            final(self).footer.max_lines == old(self).footer.max_lines,
            final(self).width == old(self).width,
            final(self).height == old(self).height,
            final(self).test_no_cls == old(self).test_no_cls,
    {
        self.header.clear();
        self.body.clear();
        self.footer.clear();
    }

    /// Appends the `section_height` rows of `section` to `lines`, noting the
    /// first input cursor met; `global_row` is the screen row of the next line.
    pub fn render_section_into(
        &self,
        section: &Section,
        section_height: usize,
        width: usize,
        colors: bool,
        lines: &mut Vec<String>,
        cursor_row: &mut Option<(usize, usize)>,
        global_row: &mut usize,
    )
        requires
            section.fits(),
            small(width as int),
            *old(global_row) + section_height <= usize::MAX,
        ensures
            string_views(final(lines)@) == string_views(old(lines)@) + section_rows(
                section.line_views(),
                section_height as nat,
                width as nat,
                colors,
            ),
            *final(global_row) == *old(global_row) + section_height,
            match *old(cursor_row) {
                Some(c) => *final(cursor_row) == Some(c),
                None => match cursor_from(
                    section.line_views(),
                    0,
                    section_height as nat,
                    width as nat,
                    *old(global_row) as nat,
                ) {
                    Some((r, c)) => *final(cursor_row) == Some((r as usize, c as usize)),
                    None => *final(cursor_row) is None,
                },
            },
    {
        let ghost views = section.line_views();
        let ghost h = section_height as nat;
        let ghost start = string_views(lines@);
        let ghost row0 = *global_row;
        let ghost cur0 = *cursor_row;
        let mut idx: usize = 0;
        while idx < section_height
            invariant
                idx <= section_height,
                views == section.line_views(),
                h == section_height,
                section.fits(),
                small(width as int),
                *global_row == row0 + idx,
                row0 + section_height <= usize::MAX,
                string_views(lines@) == start + section_rows(views, idx as nat, width as nat, colors),
                match cur0 {
                    Some(c) => *cursor_row == Some(c),
                    None => match *cursor_row {
                        Some((r, c)) => cursor_from(views, 0, h, width as nat, row0 as nat)
                            == Some((r as nat, c as nat)),
                        None => cursor_from(views, 0, h, width as nat, row0 as nat)
                            == cursor_from(views, idx as int, h, width as nat, *global_row as nat),
                    },
                },
            decreases section_height - idx,
        {
            let ghost before = string_views(lines@);
            if idx < section.lines.len() {
                let line = &section.lines[idx];
                assert(line_fits(line@));
                if cursor_row.is_none() {
                    match line.input_cursor_col {
                        Some(input_col) => {
                            let hi = if width >= 1 {
                                width
                            } else {
                                1
                            };
                            let col = if input_col < 1 {
                                1
                            } else if input_col > hi {
                                hi
                            } else {
                                input_col
                            };
                            *cursor_row = Some((*global_row, col));
                        },
                        None => {},
                    }
                }
                lines.push(line.render(width, colors));
            } else {
                lines.push(repeat_char(' ', width));
            }
            assert(string_views(lines@) =~= before.push(lines@.last()@));
            assert(section_rows(views, (idx + 1) as nat, width as nat, colors) =~= section_rows(
                views,
                idx as nat,
                width as nat,
                colors,
            ).push(slot_text(slot(views, idx as int), width as nat, colors)));
            *global_row += 1;
            idx += 1;
        }
        assert(section_rows(views, idx as nat, width as nat, colors) =~= section_rows(views, h, width as nat, colors));
    }

    /// The rows of the screen and where its input cursor goes.
    fn rows_and_cursor(&self, colors: bool) -> (r: (Vec<String>, Option<(usize, usize)>))
        requires
            self.fits(),
        ensures
            string_views(r.0@) == screen_rows(self@, colors),
            match screen_cursor(self@) {
                Some((row, col)) => r.1 == Some((row as usize, col as usize)) && row <= usize::MAX
                    && col <= usize::MAX,
                None => r.1 is None,
            },
    {
        let width = self.width as usize;
        let height = self.height as usize;
        let header_height = if self.header.max_lines < height {
            self.header.max_lines
        } else {
            height
        };
        let rest = height - header_height;
        let footer_height = if self.footer.max_lines < rest {
            self.footer.max_lines
        } else {
            rest
        };
        let body_height = height - (header_height + footer_height);
        let mut lines: Vec<String> = Vec::new();
        let mut cursor_row: Option<(usize, usize)> = None;
        let mut global_row: usize = 1;
        self.render_section_into(
            &self.header,
            header_height,
            width,
            colors,
            &mut lines,
            &mut cursor_row,
            &mut global_row,
        );
        self.render_section_into(
            &self.body,
            body_height,
            width,
            colors,
            &mut lines,
            &mut cursor_row,
            &mut global_row,
        );
        self.render_section_into(
            &self.footer,
            footer_height,
            width,
            colors,
            &mut lines,
            &mut cursor_row,
            &mut global_row,
        );
        proof {
            let w = width as nat;
            lemma_cursor_from_bounds(self@.header, 0, header_height as nat, w, 1);
            lemma_cursor_from_bounds(self@.body, 0, body_height as nat, w, 1 + header_height as nat);
            lemma_cursor_from_bounds(
                self@.footer,
                0,
                footer_height as nat,
                w,
                1 + header_height as nat + body_height as nat,
            );
        }
        assert(string_views(lines@) =~= screen_rows(self@, colors));
        assert(section_heights(self@) == (
            header_height as nat,
            footer_height as nat,
            body_height as nat,
        ));
        (lines, cursor_row)
    }

    /// The frame for this screen, as written to the terminal in one piece.
    pub fn frame(&self, colors: bool) -> (r: String)
        requires
            self.fits(),
        ensures
            r@ == frame_text(self@, colors),
    {
        let (lines, cursor_row) = self.rows_and_cursor(colors);
        let mut frame = String::new();
        if !self.test_no_cls {
            frame.append(ansi::ALT_SCREEN_ON);
            frame.append(ansi::CURSOR_HIDE);
        }
        frame.append(ansi::CURSOR_HOME);
        frame.append(ansi::CLEAR_SCREEN);
        frame.append(join_lines(&lines).as_str());
        let ghost body_part = frame@;
        let ghost open = if self.test_no_cls {
            Seq::<char>::empty()
        } else {
            ansi::ALT_SCREEN_ON@ + ansi::CURSOR_HIDE@
        };
        assert(body_part =~= open + ansi::CURSOR_HOME@ + ansi::CLEAR_SCREEN@ + joined(
            screen_rows(self@, colors),
            "\n"@,
        ));
        match cursor_row {
            Some((row, col)) => {
                frame.append("\x1b[");
                push_decimal(&mut frame, row as u64);
                frame.append(";");
                push_decimal(&mut frame, col as u64);
                frame.append("H");
                assert(frame@ =~= body_part + ("\x1b["@ + decimal(row as nat) + ";"@ + decimal(
                    col as nat,
                ) + "H"@));
            },
            None => {
                assert(frame@ =~= body_part + Seq::<char>::empty());
            },
        }
        let ghost with_cursor = frame@;
        if !self.test_no_cls {
            frame.append(ansi::CURSOR_SHOW);
        } else {
            assert(frame@ =~= with_cursor + Seq::<char>::empty());
        }
        frame
    }
}


fn text_is_small(s: &str) -> (r: bool)
    ensures
        r == small(s@.len() as int),
{
    let cs = crate::text::chars_of(s);
    cs.len() <= usize::MAX / 16
}

impl SegmentWriter {
    /// Whether every segment is short enough to measure.
    pub fn check_fits(&self) -> (r: bool)
        ensures
            r == self.fits(),
    {
        let mut i: usize = 0;
        while i < self.segments.len()
            invariant
                i <= self@.len(),
                forall|k: int| 0 <= k < i ==> segment_fits(#[trigger] self@[k]),
            decreases self@.len() - i,
        {
            let ok = match &self.segments[i] {
                Segment::Text { content, .. } => text_is_small(content.as_str()),
                Segment::Fill { .. } => true,
                Segment::Emoji { emoji } => text_is_small(emoji.as_str()),
            };
            if !ok {
                assert(!segment_fits(self@[i as int]));
                return false;
            }
            i += 1;
        }
        true
    }
}

impl Line {
    /// Whether every segment of the line is short enough to measure.
    pub fn check_fits(&self) -> (r: bool)
        ensures
            r == self.fits(),
    {
        let a = self.left.check_fits();
        let b = self.center.check_fits();
        let c = self.right.check_fits();
        proof {
            assert(self@.left == self.left@);
            assert(self@.center == self.center@);
            assert(self@.right == self.right@);
            if !a {
                let k = choose|k: int| 0 <= k < self.left@.len() && !segment_fits(#[trigger] self.left@[k]);
                assert(!segment_fits(self@.left[k]));
            }
            if !b {
                let k = choose|k: int| 0 <= k < self.center@.len() && !segment_fits(#[trigger] self.center@[k]);
                assert(!segment_fits(self@.center[k]));
            }
            if !c {
                let k = choose|k: int| 0 <= k < self.right@.len() && !segment_fits(#[trigger] self.right@[k]);
                assert(!segment_fits(self@.right[k]));
            }
        }
        a && b && c
    }
}

impl Section {
    /// Whether every line is short enough to measure.
    pub fn check_fits(&self) -> (r: bool)
        ensures
            r == self.fits(),
    {
        let mut i: usize = 0;
        while i < self.lines.len()
            invariant
                i <= self.lines@.len(),
                forall|k: int| 0 <= k < i ==> line_fits(#[trigger] self.lines@[k]@),
            decreases self.lines@.len() - i,
        {
            if !self.lines[i].check_fits() {
                return false;
            }
            i += 1;
        }
        true
    }
}

impl Screen {
    /// Whether every line of every section is short enough to measure.
    pub fn check_fits(&self) -> (r: bool)
        ensures
            r == self.fits(),
    {
        self.header.check_fits() && self.body.check_fits() && self.footer.check_fits()
    }
}

} // verus!
