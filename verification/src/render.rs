//! What the selector draws: the list of tries with its header and footer, and
//! the dialogs over it.
use vstd::prelude::*;
use vstd::string::StringExecFns;
use crate::ansi;
use crate::palette::sgr2;
use crate::layout::{SegmentView, SegmentWriter, LineView};
use crate::input_field::{InputField, InputView, drawn_input};
use crate::layout::Line;
use crate::selector::{MatchRow, RowView, TrySelector, Dialog, mark_set, list_height, scrolled, min_nat};
use crate::layout::{Screen, ScreenView, empty_line};
use crate::paths::path_file_name;
use crate::naming::relative_label;
use crate::text::{decimal, push_decimal, starts_with};

verus! {

/// A segment of text in `style`.
pub open spec fn text_seg(content: Seq<char>, style: Seq<char>) -> SegmentView {
    SegmentView::Text { content, style }
}

/// A segment of dimmed text.
pub open spec fn dim_seg(content: Seq<char>) -> SegmentView {
    text_seg(content, ansi::DIM@)
}

/// A segment of bold text in `color`.
pub open spec fn bold_seg(content: Seq<char>, color: Seq<char>) -> SegmentView {
    text_seg(content, ansi::BOLD@ + color)
}

/// An emoji segment.
pub open spec fn emoji_seg(e: Seq<char>) -> SegmentView {
    SegmentView::Emoji { emoji: e }
}

/// The accent style: bold orange.
pub open spec fn accent_style(colors: bool) -> Seq<char> {
    if colors {
        sgr2("1"@, "38;5;214"@)
    } else {
        Seq::empty()
    }
}

/// The style of characters that matched the query: bold bright yellow.
pub open spec fn match_style(colors: bool) -> Seq<char> {
    if colors {
        sgr2("1"@, "38;5;226"@)
    } else {
        Seq::empty()
    }
}

/// A line with `left` and `right` segments on background `background`.
pub open spec fn line_with(left: Seq<SegmentView>, right: Seq<SegmentView>, background: Option<u8>) -> LineView {
    LineView { left, center: Seq::empty(), right, background, input_cursor_col: None }
}

/// The segment an input field draws: the placeholder, dimmed, when empty.
pub open spec fn input_seg(v: InputView, placeholder: Seq<char>, colors: bool) -> SegmentView {
    if v.text.len() == 0 {
        dim_seg(placeholder)
    } else {
        text_seg(drawn_input(v.text, v.cursor, colors), Seq::empty())
    }
}

/// Whether index `n` of the name is one the query matched.
pub open spec fn is_match_at(positions: Seq<usize>, n: int) -> bool {
    exists|k: int| 0 <= k < positions.len() && positions[k] as int == n
}

/// The end of the run from `j` on of characters matched alike (`m`).
pub open spec fn run_end(len: int, positions: Seq<usize>, offset: int, j: int, m: bool) -> int
    decreases len - j,
{
    if 0 <= j < len && is_match_at(positions, offset + j) == m {
        run_end(len, positions, offset, j + 1, m)
    } else {
        j
    }
}

pub proof fn lemma_run_end(len: int, positions: Seq<usize>, offset: int, j: int, m: bool)
    requires
        0 <= j,
    ensures
        j <= run_end(len, positions, offset, j, m),
        j <= len ==> run_end(len, positions, offset, j, m) <= len,
        run_end(len, positions, offset, j, m) < len ==> is_match_at(
            positions,
            offset + run_end(len, positions, offset, j, m),
        ) != m,
    decreases len - j,
{
    if 0 <= j < len && is_match_at(positions, offset + j) == m {
        lemma_run_end(len, positions, offset, j + 1, m);
    }
}

/// The segments of `text[i..]`: runs of matched characters in the match
/// style, the runs between them plain; `offset` is where `text` starts in the
/// name the positions index.
pub open spec fn highlighted_from(text: Seq<char>, positions: Seq<usize>, offset: int, i: int, colors: bool) -> Seq<
    SegmentView,
>
    decreases text.len() - i,
{
    if i < 0 || i >= text.len() {
        Seq::empty()
    } else {
        let m = is_match_at(positions, offset + i);
        let j = run_end(text.len() as int, positions, offset, i + 1, m);
        proof {
            lemma_run_end(text.len() as int, positions, offset, i + 1, m);
        }
        seq![text_seg(text.subrange(i, j), if m { match_style(colors) } else { Seq::empty() })]
            + highlighted_from(text, positions, offset, j, colors)
    }
}

/// The segments of `text` with the matched characters highlighted.
pub open spec fn highlighted(text: Seq<char>, positions: Seq<usize>, offset: int, colors: bool) -> Seq<SegmentView> {
    highlighted_from(text, positions, offset, 0, colors)
}

fn is_match(positions: &Vec<usize>, n: usize) -> (r: bool)
    ensures
        r == is_match_at(positions@, n as int),
{
    let mut k: usize = 0;
    while k < positions.len()
        invariant
            k <= positions@.len(),
            forall|x: int| 0 <= x < k ==> positions@[x] != n,
        decreases positions@.len() - k,
    {
        if positions[k] == n {
            return true;
        }
        k += 1;
    }
    false
}

/// Writes `text` into `writer` with the characters that matched the query
/// highlighted; `offset` is where `text` starts in the matched name.
pub fn write_highlighted_name(
    writer: &mut SegmentWriter,
    text: &str,
    positions: &Vec<usize>,
    offset: usize,
    colors: bool,
)
    ensures
        final(writer)@ == old(writer)@ + highlighted(text@, positions@, offset as int, colors),
{
    let chars = crate::text::chars_of(text);
    let n = chars.len();
    let mut i: usize = 0;
    assert(old(writer)@ + highlighted_from(text@, positions@, offset as int, 0, colors) =~= old(writer)@
        + highlighted(text@, positions@, offset as int, colors));
    while i < n
        invariant
            i <= n == chars@.len(),
            chars@ == text@,
            writer@ + highlighted_from(text@, positions@, offset as int, i as int, colors) == old(writer)@
                + highlighted(text@, positions@, offset as int, colors),
        decreases n - i,
    {
        let ghost before = writer@;
        let m = offset.checked_add(i).is_some() && is_match(positions, offset + i);
        proof {
            if offset + i > usize::MAX {
                assert(!is_match_at(positions@, offset + i)) by {
                    if is_match_at(positions@, offset + i) {
                        let k = choose|k: int| 0 <= k < positions@.len() && positions@[k] as int == offset + i;
                        assert(positions@[k] <= usize::MAX);
                    }
                }
            }
        }
        let start = i;
        i += 1;
        while i < n && (offset.checked_add(i).is_some() && is_match(positions, offset + i)) == m
            invariant
                start < i <= n == chars@.len(),
                run_end(n as int, positions@, offset as int, start + 1, m) == run_end(
                    n as int,
                    positions@,
                    offset as int,
                    i as int,
                    m,
                ),
            decreases n - i,
        {
            proof {
                if offset + i > usize::MAX {
                    assert(!is_match_at(positions@, offset + i)) by {
                        if is_match_at(positions@, offset + i) {
                            let k = choose|k: int|
                                0 <= k < positions@.len() && positions@[k] as int == offset + i;
                            assert(positions@[k] <= usize::MAX);
                        }
                    }
                }
            }
            i += 1;
        }
        proof {
            if i < n && offset + i > usize::MAX {
                assert(!is_match_at(positions@, offset + i)) by {
                    if is_match_at(positions@, offset + i) {
                        let k = choose|k: int| 0 <= k < positions@.len() && positions@[k] as int == offset + i;
                        assert(positions@[k] <= usize::MAX);
                    }
                }
            }
            lemma_run_end(n as int, positions@, offset as int, start + 1, m);
        }
        let mut chunk = String::new();
        crate::text::push_range(&mut chunk, &chars, start, i);
        if m {
            let style = crate::palette::match_color(colors);
            writer.write(chunk.as_str(), style.as_str());
        } else {
            writer.write(chunk.as_str(), "");
        }
        proof {
            reveal_strlit("");
            assert(""@ =~= Seq::<char>::empty());
            assert(writer@ + highlighted_from(text@, positions@, offset as int, i as int, colors) =~= before
                + highlighted_from(text@, positions@, offset as int, start as int, colors));
        }
    }
    assert(highlighted_from(text@, positions@, offset as int, i as int, colors) =~= Seq::<SegmentView>::empty());
    assert(writer@ =~= writer@ + Seq::<SegmentView>::empty());
}


// ---------------------------------------------------------------------------
// The list of tries
// ---------------------------------------------------------------------------

/// The segments of a row's name: a date prefix and its dash dimmed, then the
/// rest with the matched characters highlighted.
pub open spec fn name_segments(row: RowView, colors: bool) -> Seq<SegmentView> {
    match row.date_prefix {
        Some(p) => if starts_with(row.name, p) {
            let rest = row.name.skip(p.len() as int);
            let rem = if rest.len() > 0 && rest[0] == '-' {
                rest.skip(1)
            } else {
                Seq::empty()
            };
            seq![dim_seg(p), dim_seg("-"@)] + highlighted(rem, row.positions, p.len() + 1int, colors)
        } else {
            highlighted(row.name, row.positions, 0, colors)
        },
        None => highlighted(row.name, row.positions, 0, colors),
    }
}

/// The line of one row, `age` seconds old: a marker, the folder, the name,
/// and on the right its age and score, with a link mark for symbolic links.
pub open spec fn entry_line(row: RowView, is_cursor: bool, is_marked: bool, age: u64, colors: bool) -> LineView {
    let background = if is_marked {
        Some(52u8)
    } else if is_cursor {
        Some(24u8)
    } else {
        None
    };
    let marker = if is_marked {
        text_seg("× "@, accent_style(colors))
    } else if is_cursor {
        text_seg("→ "@, accent_style(colors))
    } else {
        text_seg("  "@, Seq::empty())
    };
    let left = seq![marker, emoji_seg("📁"@), text_seg(" "@, Seq::empty())] + name_segments(row, colors);
    let right = seq![dim_seg(relative_label(age as nat) + ", "@ + row.score_text)] + if row.is_symlink {
        seq![text_seg(" "@, Seq::empty()), emoji_seg("🔗"@)]
    } else {
        Seq::empty()
    };
    line_with(left, right, background)
}

/// The smallest age, if there is one.
pub open spec fn min_age(ages: Seq<u64>) -> Option<u64>
    decreases ages.len(),
{
    if ages.len() == 0 {
        None
    } else {
        match min_age(ages.drop_last()) {
            None => Some(ages.last()),
            Some(m) => Some(if ages.last() < m { ages.last() } else { m }),
        }
    }
}

/// The header: a title line with the age of the newest try, and the search
/// box with the number of rows; in delete mode, a single warning line.
pub open spec fn header_lines(delete_mode: bool, newest: Option<u64>, input: InputView, count: nat, colors: bool) -> Seq<
    LineView,
> {
    if delete_mode {
        seq![
            line_with(
                seq![
                    emoji_seg("🗑️"@),
                    bold_seg(" DELETE MODE"@, Seq::empty()),
                    dim_seg(" — mark entries with ctrl-d, enter to confirm, esc to cancel"@),
                ],
                Seq::empty(),
                None,
            ),
        ]
    } else {
        seq![
            line_with(
                seq![
                    emoji_seg("🧪"@),
                    bold_seg(" Try Directory Selection"@, Seq::empty()),
                    dim_seg(" — ephemeral workspace manager"@),
                ],
                match newest {
                    Some(a) => seq![dim_seg(relative_label(a as nat))],
                    None => Seq::empty(),
                },
                None,
            ),
            line_with(
                seq![dim_seg("Search: "@), input_seg(input, Seq::empty(), colors)],
                seq![dim_seg(decimal(count) + " entries"@)],
                None,
            ),
        ]
    }
}

/// The footer: the marks and the keys of delete mode, or the key help.
pub open spec fn footer_lines(delete_mode: bool, marked: nat) -> Seq<LineView> {
    if delete_mode {
        seq![
            line_with(
                seq![
                    text_seg(" marked: "@ + decimal(marked) + " "@, Seq::empty()),
                    text_seg(" |  Ctrl-D: Toggle  Enter: Confirm  Esc: Cancel"@, Seq::empty()),
                ],
                Seq::empty(),
                Some(52u8),
            ),
        ]
    } else {
        seq![
            line_with(
                seq![
                    dim_seg(
                        "esc:quit  enter:select  ctrl-d:delete  ctrl-r:rename  ctrl-g:graduate  ctrl-t:new"@,
                    ),
                ],
                Seq::empty(),
                None,
            ),
        ]
    }
}

/// The rows `scroll..end` of the list.
pub open spec fn body_lines(
    rows: Seq<RowView>,
    marks: Set<Seq<char>>,
    cursor: int,
    scroll: int,
    end: int,
    ages: Seq<u64>,
    colors: bool,
) -> Seq<LineView> {
    Seq::new(
        (end - scroll) as nat,
        |i: int|
            entry_line(rows[scroll + i], scroll + i == cursor, marks.contains(rows[scroll + i].path), ages[scroll + i], colors),
    )
}

/// The line that offers a new try named after the query, dated `today`.
pub open spec fn preview_line(today: Seq<char>, text: Seq<char>, colors: bool) -> LineView {
    line_with(seq![text_seg("[new] "@ + today + "-"@ + text, accent_style(colors))], Seq::empty(), None)
}

/// The rows' views.
pub open spec fn row_views(tries: Seq<MatchRow>) -> Seq<RowView> {
    tries.map_values(|r: MatchRow| r@)
}

fn empty_style() -> (r: &'static str)
    ensures
        r@ == Seq::<char>::empty(),
{
    proof {
        reveal_strlit("");
    }
    ""
}

/// Writes the segments of a row's name.
fn write_name(writer: &mut SegmentWriter, row: &MatchRow, colors: bool)
    ensures
        final(writer)@ == old(writer)@ + name_segments(row@, colors),
{
    let name = row.data.name.as_str();
    match &row.data.date_prefix {
        Some(prefix) => {
            let cs = crate::text::chars_of(name);
            if crate::text::has_prefix(&cs, prefix.as_str()) {
                let n = crate::text::chars_of(prefix.as_str()).len();
                writer.write_dim(prefix.as_str());
                writer.write_dim("-");
                let mut rem = String::new();
                let offset = if n < cs.len() && cs[n] == '-' {
                    crate::text::push_range(&mut rem, &cs, n + 1, cs.len());
                    n + 1
                } else {
                    n
                };
                proof {
                    let rest = name@.skip(prefix@.len() as int);
                    if n < cs.len() && cs@[n as int] == '-' {
                        assert(rem@ =~= rest.skip(1));
                    } else {
                        assert(rem@ =~= Seq::<char>::empty());
                        assert(highlighted(rem@, row.positions@, offset as int, colors) =~= highlighted(
                            Seq::<char>::empty(),
                            row.positions@,
                            prefix@.len() + 1int,
                            colors,
                        ));
                    }
                }
                let ghost mid = writer@;
                write_highlighted_name(writer, rem.as_str(), &row.positions, offset, colors);
                proof {
                    reveal_strlit("-");
                    assert(writer@ =~= old(writer)@ + name_segments(row@, colors));
                }
            } else {
                write_highlighted_name(writer, name, &row.positions, 0, colors);
            }
        },
        None => {
            write_highlighted_name(writer, name, &row.positions, 0, colors);
        },
    }
}

/// Writes a row's age and score, and the link mark of a symbolic link.
fn write_meta(writer: &mut SegmentWriter, row: &MatchRow, age: u64)
    ensures
        final(writer)@ == old(writer)@ + seq![dim_seg(relative_label(age as nat) + ", "@ + row@.score_text)]
            + if row@.is_symlink {
            seq![text_seg(" "@, Seq::empty()), emoji_seg("🔗"@)]
        } else {
            Seq::empty()
        },
{
    let mut meta = crate::naming::relative_time_from_secs(age);
    meta.append(", ");
    meta.append(row.score_text.as_str());
    proof {
        reveal_strlit(", ");
    }
    writer.write_dim(meta.as_str());
    let ghost mid = writer@;
    if row.data.is_symlink {
        writer.write(" ", empty_style());
        writer.emoji("🔗");
        assert(writer@ =~= mid + seq![text_seg(" "@, Seq::empty()), emoji_seg("🔗"@)]);
    } else {
        assert(writer@ =~= mid + Seq::<SegmentView>::empty());
    }
}

/// The line of one row.
pub fn entry_line_of(row: &MatchRow, is_cursor: bool, is_marked: bool, age: u64, colors: bool) -> (l: Line)
    ensures
        l@ == entry_line(row@, is_cursor, is_marked, age, colors),
{
    let mut line = Line::new();
    if is_marked {
        line.background = Some(52);
    } else if is_cursor {
        line.background = Some(24);
    }
    let accent = crate::palette::accent(colors);
    if is_marked {
        line.left.write("× ", accent.as_str());
    } else if is_cursor {
        line.left.write("→ ", accent.as_str());
    } else {
        line.left.write("  ", empty_style());
    }
    line.left.emoji("📁");
    line.left.write(" ", empty_style());
    write_name(&mut line.left, row, colors);
    write_meta(&mut line.right, row, age);
    proof {
        let e = entry_line(row@, is_cursor, is_marked, age, colors);
        assert(line.left@ =~= e.left);
        assert(line.right@ =~= e.right);
        assert(line.center@ =~= e.center);
    }
    line
}


/// The smallest age, if there is one.
fn min_age_of(ages: &Vec<u64>) -> (r: Option<u64>)
    ensures
        r == min_age(ages@),
{
    let mut m: Option<u64> = None;
    let mut i: usize = 0;
    while i < ages.len()
        invariant
            i <= ages@.len(),
            m == min_age(ages@.take(i as int)),
        decreases ages@.len() - i,
    {
        assert(ages@.take(i + 1).drop_last() =~= ages@.take(i as int));
        let a = ages[i];
        m = match m {
            None => Some(a),
            Some(x) => Some(if a < x { a } else { x }),
        };
        i += 1;
    }
    assert(ages@.take(ages@.len() as int) =~= ages@);
    m
}

/// The views of some lines.
pub open spec fn line_views_of(lines: Seq<Line>) -> Seq<LineView> {
    lines.map_values(|l: Line| l@)
}

fn header_lines_of(delete_mode: bool, newest: Option<u64>, input: &InputField, count: usize, width: usize, colors: bool) -> (r:
    Vec<Line>)
    ensures
        line_views_of(r@) == header_lines(delete_mode, newest, input@, count as nat, colors),
{
    let mut lines: Vec<Line> = Vec::new();
    if delete_mode {
        let mut line = Line::new();
        line.left.emoji("🗑️");
        line.left.write_bold(" DELETE MODE", empty_style());
        line.left.write_dim(" — mark entries with ctrl-d, enter to confirm, esc to cancel");
        lines.push(line);
        proof {
            let e = header_lines(delete_mode, newest, input@, count as nat, colors);
            assert(line.left@ =~= e[0].left);
            assert(line.right@ =~= e[0].right);
            assert(line.center@ =~= e[0].center);
            assert(line_views_of(lines@) =~= e);
        }
    } else {
        let mut title = Line::new();
        title.left.emoji("🧪");
        title.left.write_bold(" Try Directory Selection", empty_style());
        title.left.write_dim(" — ephemeral workspace manager");
        if let Some(a) = newest {
            let w = crate::naming::relative_time_from_secs(a);
            title.right.write_dim(w.as_str());
        }
        let mut search = Line::new();
        search.left.write_dim("Search: ");
        input.render(&mut search.left, empty_style(), width, colors);
        let mut t = String::new();
        push_decimal(&mut t, count as u64);
        t.append(" entries");
        search.right.write_dim(t.as_str());
        lines.push(title);
        lines.push(search);
        proof {
            let e = header_lines(delete_mode, newest, input@, count as nat, colors);
            assert(title.left@ =~= e[0].left);
            assert(title.right@ =~= e[0].right);
            assert(title.center@ =~= e[0].center);
            assert(search.left@ =~= e[1].left);
            assert(search.right@ =~= e[1].right);
            assert(search.center@ =~= e[1].center);
            assert(line_views_of(lines@) =~= e);
        }
    }
    lines
}

fn footer_lines_of(delete_mode: bool, marked: usize) -> (r: Vec<Line>)
    ensures
        line_views_of(r@) == footer_lines(delete_mode, marked as nat),
{
    let mut line = Line::new();
    if delete_mode {
        line.background = Some(52);
        let mut t = String::from_str(" marked: ");
        push_decimal(&mut t, marked as u64);
        t.append(" ");
        line.left.write(t.as_str(), empty_style());
        line.left.write(" |  Ctrl-D: Toggle  Enter: Confirm  Esc: Cancel", empty_style());
    } else {
        line.left.write_dim("esc:quit  enter:select  ctrl-d:delete  ctrl-r:rename  ctrl-g:graduate  ctrl-t:new");
    }
    let mut lines: Vec<Line> = Vec::new();
    lines.push(line);
    proof {
        reveal_strlit(" marked: ");
        reveal_strlit(" ");
        let e = footer_lines(delete_mode, marked as nat);
        assert(line.left@ =~= e[0].left);
        assert(line.right@ =~= e[0].right);
        assert(line.center@ =~= e[0].center);
        assert(line_views_of(lines@) =~= e);
    }
    lines
}

/// `b` is `a` with the list drawn into its screen, `width` by `height`, for
/// rows of the given ages and a new try dated `today`; only the scroll offset
/// moves, to keep the cursor in view.
pub open spec fn rendered(
    a: TrySelector,
    b: TrySelector,
    width: u16,
    height: u16,
    ages: Seq<u64>,
    today: Seq<char>,
    colors: bool,
) -> bool {
    let s = b.scroll_offset as int;
    let vis = list_height(height as nat, a.screen.header.max_lines as nat, a.screen.footer.max_lines as nat);
    let end = min_nat((s + vis) as nat, a.tries@.len()) as int;
    let text = a.input_field@.text;
    &&& b.tries@ == a.tries@
    &&& b.cursor_pos == a.cursor_pos
    &&& b.input_field@ == a.input_field@
    &&& b.marked_for_delete@ == a.marked_for_delete@
    &&& b.delete_mode == a.delete_mode
    &&& b.dialog == a.dialog
    &&& b.try_path@ == a.try_path@
    &&& b.projects_env == a.projects_env
    &&& b.test_keys@ == a.test_keys@
    &&& b.needs_redraw == a.needs_redraw
    &&& b.scroll_offset == scrolled(a.cursor_pos as nat, a.scroll_offset as nat, vis, a.tries@.len())
    &&& b.screen.width == width
    &&& b.screen.height == height
    &&& b.screen.header.max_lines == a.screen.header.max_lines
    &&& b.screen.body.max_lines == a.screen.body.max_lines
    &&& b.screen.footer.max_lines == a.screen.footer.max_lines
    &&& b.screen.test_no_cls == a.screen.test_no_cls
    &&& b.screen.header.line_views() == header_lines(a.delete_mode, min_age(ages), a.input_field@, a.tries@.len(), colors)
    &&& b.screen.footer.line_views() == footer_lines(a.delete_mode, a.marked_for_delete@.len())
    &&& b.screen.body.line_views() == body_lines(
        row_views(a.tries@),
        mark_set(a.marked_for_delete@),
        a.cursor_pos as int,
        s,
        end,
        ages,
        colors,
    ) + if !a.delete_mode && text.len() > 0 && end - s < vis {
        seq![preview_line(today, text, colors)]
    } else {
        Seq::empty()
    }
}

impl TrySelector {
    /// Draws the list into the screen, `width` by `height`: `ages` holds how
    /// many seconds ago each row's directory changed, `today` the date that a
    /// new try would get.
    pub fn render_with(&mut self, width: u16, height: u16, ages: &Vec<u64>, today: &str, colors: bool)
        requires
            ages@.len() == old(self).tries@.len(),
        ensures
            rendered(*old(self), *final(self), width, height, ages@, today@, colors),
    {
        self.screen.width = width;
        self.screen.height = height;
        self.screen.clear();
        self.adjust_scroll();
        let newest = min_age_of(ages);
        let header = header_lines_of(
            self.delete_mode,
            newest,
            &self.input_field,
            self.tries.len(),
            width as usize,
            colors,
        );
        self.screen.header.lines = header;
        let footer = footer_lines_of(self.delete_mode, self.marked_for_delete.len());
        self.screen.footer.lines = footer;
        let vis = self.body_height();
        let s = self.scroll_offset;
        let len = self.tries.len();
        let end = if vis > len - s {
            len
        } else {
            s + vis
        };
        let mut body: Vec<Line> = Vec::new();
        let mut idx = s;
        while idx < end
            invariant
                s <= idx <= end <= len == self.tries@.len() == ages@.len(),
                line_views_of(body@) == body_lines(
                    row_views(self.tries@),
                    mark_set(self.marked_for_delete@),
                    self.cursor_pos as int,
                    s as int,
                    idx as int,
                    ages@,
                    colors,
                ),
            decreases end - idx,
        {
            let row = &self.tries[idx];
            let found = self.marked_index(&row.data.path);
            let marked = found.is_some();
            proof {
                assert(row_views(self.tries@)[idx as int] == self.tries@[idx as int]@);
                if let Some(i) = found {
                    assert(self.marked_for_delete@[i as int]@ == row@.path);
                    assert(mark_set(self.marked_for_delete@).contains(row@.path));
                }
            }
            let line = entry_line_of(row, idx == self.cursor_pos, marked, ages[idx], colors);
            let ghost old_views = line_views_of(body@);
            let ghost rows = row_views(self.tries@);
            let ghost marks = mark_set(self.marked_for_delete@);
            assert(line@ == entry_line(
                rows[idx as int],
                idx as int == self.cursor_pos as int,
                marks.contains(rows[idx as int].path),
                ages@[idx as int],
                colors,
            ));
            body.push(line);
            assert(line_views_of(body@) =~= old_views.push(line@));
            idx += 1;
            proof {
                assert(line_views_of(body@) =~= body_lines(
                    row_views(self.tries@),
                    mark_set(self.marked_for_delete@),
                    self.cursor_pos as int,
                    s as int,
                    idx as int,
                    ages@,
                    colors,
                ));
            }
        }
        let ghost listed = line_views_of(body@);
        let text = self.input_field.text();
        if !self.delete_mode && !text.is_empty() && end - s < vis {
            let mut preview = String::from_str("[new] ");
            preview.append(today);
            preview.append("-");
            preview.append(text);
            let accent = crate::palette::accent(colors);
            let mut line = Line::new();
            line.left.write(preview.as_str(), accent.as_str());
            body.push(line);
            proof {
                reveal_strlit("[new] ");
                reveal_strlit("-");
                let e = preview_line(today@, self.input_field@.text, colors);
                assert(line.left@ =~= e.left);
                assert(line.right@ =~= e.right);
                assert(line.center@ =~= e.center);
                assert(line_views_of(body@) =~= listed + seq![e]);
            }
        } else {
            assert(line_views_of(body@) =~= listed + Seq::<LineView>::empty());
        }
        self.screen.body.lines = body;
    }
}


// ---------------------------------------------------------------------------
// Dialogs
// ---------------------------------------------------------------------------

/// The rule under a dialog's title: the codes `2m` as one escape sequence.
pub open spec fn dim_rule(colors: bool) -> Seq<char> {
    if colors {
        "\x1b[2mm"@
    } else {
        Seq::empty()
    }
}

fn dim_rule_text(colors: bool) -> (r: String)
    ensures
        r@ == dim_rule(colors),
{
    let codes = ["2m"];
    let r = ansi::sgr(&codes, colors);
    proof {
        reveal_strlit("2m");
        reveal_strlit("\x1b[2mm");
        reveal_strlit("\x1b[");
        reveal_strlit("m");
        let parts = ansi::views_of(codes@);
        assert(parts.len() == 1);
        assert(parts[0] == "2m"@);
        assert(ansi::joined(parts, ";"@) == "2m"@);
        assert("\x1b["@ + "2m"@ + "m"@ =~= "\x1b[2mm"@);
    }
    r
}

/// A dialog's header: its emoji and title in the accent style, then the rule.
pub open spec fn dialog_header(emoji: Seq<char>, title: Seq<char>, colors: bool) -> Seq<LineView> {
    seq![
        line_with(seq![emoji_seg(emoji), bold_seg(title, accent_style(colors))], Seq::empty(), None),
        line_with(seq![dim_seg(dim_rule(colors))], Seq::empty(), None),
    ]
}

/// A dialog's footer: its keys.
pub open spec fn dialog_footer() -> Seq<LineView> {
    seq![line_with(seq![dim_seg("Enter: Confirm  Esc: Cancel"@)], Seq::empty(), None)]
}

/// The prompt line of a dialog: `label` dimmed, then the field.
pub open spec fn prompt_line(label: Seq<char>, field: InputView, colors: bool) -> LineView {
    line_with(seq![dim_seg(label), input_seg(field, Seq::empty(), colors)], Seq::empty(), None)
}

/// The title of the confirmation dialog for `count` directories.
pub open spec fn delete_title(count: nat) -> Seq<char> {
    "  Delete "@ + decimal(count) + " "@ + (if count == 1 {
        "directory"@
    } else {
        "directories"@
    }) + "?"@
}

/// The line of one directory to delete.
pub open spec fn doomed_line(path: Seq<char>) -> LineView {
    line_with(
        seq![emoji_seg("🗑️"@)] + match path_file_name(path) {
            Some(n) => seq![text_seg(" "@ + n, Seq::empty())],
            None => Seq::empty(),
        },
        Seq::empty(),
        Some(52u8),
    )
}

/// The body of the confirmation dialog.
pub open spec fn confirm_body(marks: Seq<Seq<char>>, field: InputView, colors: bool) -> Seq<LineView> {
    marks.map_values(|p: Seq<char>| doomed_line(p)) + seq![
        empty_line(),
        empty_line(),
        prompt_line("Type YES to confirm: "@, field, colors),
    ]
}

/// The line naming the directory a dialog is about.
pub open spec fn folder_line(name: Seq<char>) -> LineView {
    line_with(seq![emoji_seg("📁"@), text_seg(" "@ + name, Seq::empty())], Seq::empty(), None)
}

/// The body of the rename dialog, with its error, if any, at the bottom.
pub open spec fn rename_body(name: Seq<char>, field: InputView, error: Option<Seq<char>>, colors: bool) -> Seq<LineView> {
    seq![folder_line(name), empty_line(), empty_line(), prompt_line("New name: "@, field, colors)] + match error {
        Some(e) => seq![empty_line(), line_with(seq![bold_seg(e, Seq::empty())], Seq::empty(), None)],
        None => Seq::empty(),
    }
}

/// The body of the graduate dialog: where the destination comes from.
pub open spec fn graduate_body(name: Seq<char>, field: InputView, projects_dir: Seq<char>, from_env: bool, colors: bool) -> Seq<
    LineView,
> {
    let hint = if from_env {
        "$TRY_PROJECTS"@
    } else {
        "parent of $TRY_PATH"@
    };
    seq![
        folder_line(name),
        empty_line(),
        line_with(seq![dim_seg("Destination ("@ + hint + ": "@ + projects_dir + ")"@)], Seq::empty(), None),
        empty_line(),
        prompt_line("Move to: "@, field, colors),
    ]
}

/// The screen of the open dialog, `width` by `height`.
pub open spec fn dialog_view(d: Dialog, marks: Seq<Seq<char>>, width: u16, height: u16, colors: bool) -> Option<ScreenView> {
    let frame = |header: Seq<LineView>, body: Seq<LineView>|
        ScreenView {
            width,
            height,
            header,
            header_max: 2,
            body,
            body_max: usize::MAX,
            footer: dialog_footer(),
            footer_max: 2,
            test_no_cls: false,
        };
    match d {
        Dialog::Closed => None,
        Dialog::Confirm { field } => Some(
            frame(
                dialog_header("🗑️"@, delete_title(marks.len()), colors),
                confirm_body(marks, field@, colors),
            ),
        ),
        Dialog::Rename { field, current_name, error, .. } => Some(
            frame(
                dialog_header("✏️"@, "  Rename directory"@, colors),
                rename_body(
                    current_name@,
                    field@,
                    match error {
                        Some(e) => Some(e@),
                        None => None,
                    },
                    colors,
                ),
            ),
        ),
        Dialog::Graduate { field, current_name, projects_dir, from_env, .. } => Some(
            frame(
                dialog_header("🎓"@, "  Graduate try to project"@, colors),
                graduate_body(current_name@, field@, projects_dir@, from_env, colors),
            ),
        ),
    }
}

fn dialog_header_of(emoji: &str, title: &str, colors: bool) -> (r: Vec<Line>)
    ensures
        line_views_of(r@) == dialog_header(emoji@, title@, colors),
{
    let accent = crate::palette::accent(colors);
    let mut first = Line::new();
    first.left.emoji(emoji);
    first.left.write_bold(title, accent.as_str());
    let mut second = Line::new();
    let rule = dim_rule_text(colors);
    second.left.write_dim(rule.as_str());
    let mut lines: Vec<Line> = Vec::new();
    lines.push(first);
    lines.push(second);
    proof {
        let e = dialog_header(emoji@, title@, colors);
        assert(first.left@ =~= e[0].left);
        assert(first.right@ =~= e[0].right);
        assert(first.center@ =~= e[0].center);
        assert(second.left@ =~= e[1].left);
        assert(second.right@ =~= e[1].right);
        assert(second.center@ =~= e[1].center);
        assert(line_views_of(lines@) =~= e);
    }
    lines
}

fn dialog_footer_of() -> (r: Vec<Line>)
    ensures
        line_views_of(r@) == dialog_footer(),
{
    let mut line = Line::new();
    line.left.write_dim("Enter: Confirm  Esc: Cancel");
    let mut lines: Vec<Line> = Vec::new();
    lines.push(line);
    proof {
        let e = dialog_footer();
        assert(line.left@ =~= e[0].left);
        assert(line.right@ =~= e[0].right);
        assert(line.center@ =~= e[0].center);
        assert(line_views_of(lines@) =~= e);
    }
    lines
}

fn prompt_line_of(label: &str, field: &InputField, width: usize, colors: bool) -> (l: Line)
    ensures
        l@ == prompt_line(label@, field@, colors),
{
    let mut l = Line::new();
    l.left.write_dim(label);
    field.render(&mut l.left, empty_style(), width, colors);
    proof {
        let e = prompt_line(label@, field@, colors);
        assert(l.left@ =~= e.left);
        assert(l.right@ =~= e.right);
        assert(l.center@ =~= e.center);
    }
    l
}

fn folder_line_of(name: &str) -> (l: Line)
    ensures
        l@ == folder_line(name@),
{
    let mut l = Line::new();
    l.left.emoji("📁");
    let mut t = String::from_str(" ");
    t.append(name);
    l.left.write(t.as_str(), empty_style());
    proof {
        reveal_strlit(" ");
        let e = folder_line(name@);
        assert(l.left@ =~= e.left);
        assert(l.right@ =~= e.right);
        assert(l.center@ =~= e.center);
    }
    l
}

fn doomed_line_of(path: &str) -> (l: Line)
    ensures
        l@ == doomed_line(path@),
{
    let mut l = Line::new();
    l.background = Some(52);
    l.left.emoji("🗑️");
    let ghost mid = l.left@;
    match crate::paths::file_name(path) {
        Some(n) => {
            let mut t = String::from_str(" ");
            t.append(n.as_str());
            l.left.write(t.as_str(), empty_style());
            proof {
                reveal_strlit(" ");
            }
        },
        None => {},
    }
    proof {
        let e = doomed_line(path@);
        assert(l.left@ =~= e.left);
        assert(l.right@ =~= e.right);
        assert(l.center@ =~= e.center);
    }
    l
}

/// The title of the confirmation dialog for `count` directories.
fn delete_title_of(count: usize) -> (r: String)
    ensures
        r@ == delete_title(count as nat),
{
    let mut t = String::from_str("  Delete ");
    push_decimal(&mut t, count as u64);
    t.append(" ");
    if count == 1 {
        t.append("directory");
    } else {
        t.append("directories");
    }
    t.append("?");
    proof {
        reveal_strlit("  Delete ");
        reveal_strlit(" ");
        reveal_strlit("directory");
        reveal_strlit("directories");
        reveal_strlit("?");
        assert(t@ =~= delete_title(count as nat));
    }
    t
}

/// The paths, as text.
pub open spec fn path_views(v: Seq<String>) -> Seq<Seq<char>> {
    v.map_values(|p: String| p@)
}

fn confirm_body_of(marks: &Vec<String>, field: &InputField, width: usize, colors: bool) -> (r: Vec<Line>)
    ensures
        line_views_of(r@) == confirm_body(path_views(marks@), field@, colors),
{
    let mut lines: Vec<Line> = Vec::new();
    let mut i: usize = 0;
    while i < marks.len()
        invariant
            i <= marks@.len(),
            line_views_of(lines@) == path_views(marks@).take(i as int).map_values(|p: Seq<char>| doomed_line(p)),
        decreases marks@.len() - i,
    {
        let l = doomed_line_of(marks[i].as_str());
        let ghost before = line_views_of(lines@);
        lines.push(l);
        i += 1;
        proof {
            assert(line_views_of(lines@) =~= before.push(l@));
            assert(path_views(marks@).take(i as int).map_values(|p: Seq<char>| doomed_line(p)) =~= before.push(
                l@,
            ));
        }
    }
    let ghost listed = line_views_of(lines@);
    assert(path_views(marks@).take(marks@.len() as int) =~= path_views(marks@));
    lines.push(Line::new());
    lines.push(Line::new());
    let p = prompt_line_of("Type YES to confirm: ", field, width, colors);
    lines.push(p);
    proof {
        assert(line_views_of(lines@) =~= listed + seq![
            empty_line(),
            empty_line(),
            prompt_line("Type YES to confirm: "@, field@, colors),
        ]);
    }
    lines
}

impl TrySelector {
    /// The screen of the open dialog, `width` by `height`; `None` with no
    /// dialog open.
    pub fn dialog_screen(&self, width: u16, height: u16, colors: bool) -> (r: Option<Screen>)
        ensures
            match r {
                Some(sc) => dialog_view(self.dialog, path_views(self.marked_for_delete@), width, height, colors)
                    == Some(sc@),
                None => self.dialog is Closed,
            },
    {
        let mut sc = Screen::new(width, height, 2, 2);
        let body: Vec<Line> = match &self.dialog {
            Dialog::Closed => {
                return None;
            },
            Dialog::Confirm { field } => {
                let title = delete_title_of(self.marked_for_delete.len());
                sc.header.lines = dialog_header_of("🗑️", title.as_str(), colors);
                confirm_body_of(&self.marked_for_delete, field, width as usize, colors)
            },
            Dialog::Rename { field, current_name, error, .. } => {
                sc.header.lines = dialog_header_of("✏️", "  Rename directory", colors);
                let mut lines: Vec<Line> = Vec::new();
                lines.push(folder_line_of(current_name.as_str()));
                lines.push(Line::new());
                lines.push(Line::new());
                lines.push(prompt_line_of("New name: ", field, width as usize, colors));
                let ghost fixed = line_views_of(lines@);
                match error {
                    Some(e) => {
                        lines.push(Line::new());
                        let mut l = Line::new();
                        l.left.write_bold(e.as_str(), empty_style());
                        lines.push(l);
                        proof {
                            let last = line_with(seq![bold_seg(e@, Seq::empty())], Seq::empty(), None);
                            assert(l.left@ =~= last.left);
                            assert(l.right@ =~= last.right);
                            assert(l.center@ =~= last.center);
                            assert(line_views_of(lines@) =~= fixed + seq![empty_line(), last]);
                        }
                    },
                    None => {
                        assert(line_views_of(lines@) =~= fixed + Seq::<LineView>::empty());
                    },
                }
                proof {
                    assert(fixed =~= seq![
                        folder_line(current_name@),
                        empty_line(),
                        empty_line(),
                        prompt_line("New name: "@, field@, colors),
                    ]);
                }
                lines
            },
            Dialog::Graduate { field, current_name, projects_dir, from_env, .. } => {
                sc.header.lines = dialog_header_of("🎓", "  Graduate try to project", colors);
                let mut hint = String::from_str("Destination (");
                if *from_env {
                    hint.append("$TRY_PROJECTS");
                } else {
                    hint.append("parent of $TRY_PATH");
                }
                hint.append(": ");
                hint.append(projects_dir.as_str());
                hint.append(")");
                let mut hint_line = Line::new();
                hint_line.left.write_dim(hint.as_str());
                let mut lines: Vec<Line> = Vec::new();
                lines.push(folder_line_of(current_name.as_str()));
                lines.push(Line::new());
                lines.push(hint_line);
                lines.push(Line::new());
                lines.push(prompt_line_of("Move to: ", field, width as usize, colors));
                proof {
                    reveal_strlit("Destination (");
                    reveal_strlit("$TRY_PROJECTS");
                    reveal_strlit("parent of $TRY_PATH");
                    reveal_strlit(": ");
                    reveal_strlit(")");
                    let e = graduate_body(current_name@, field@, projects_dir@, *from_env, colors);
                    assert(hint_line.left@ =~= e[2].left);
                    assert(hint_line.right@ =~= e[2].right);
                    assert(hint_line.center@ =~= e[2].center);
                    assert(line_views_of(lines@) =~= e);
                }
                lines
            },
        };
        sc.body.lines = body;
        sc.footer.lines = dialog_footer_of();
        proof {
            assert(sc.header.line_views() == line_views_of(sc.header.lines@));
        }
        Some(sc)
    }
}


impl TrySelector {
    /// Draws the list into the screen, `width` by `height`, with the ages of
    /// the rows' directories read from the clock, and today's date for a new
    /// try.
    pub fn render(&mut self, width: u16, height: u16, colors: bool)
        ensures
            exists|ages: Seq<u64>, today: Seq<char>|
                ages.len() == old(self).tries@.len() && rendered(
                    *old(self),
                    *final(self),
                    width,
                    height,
                    ages,
                    today,
                    colors,
                ),
    {
        let mut ages: Vec<u64> = Vec::new();
        let mut i: usize = 0;
        while i < self.tries.len()
            invariant
                i <= self.tries@.len(),
                ages@.len() == i,
            decreases self.tries@.len() - i,
        {
            ages.push(crate::naming::seconds_since(&self.tries[i].data.mtime));
            i += 1;
        }
        let today = crate::tokens::local_date();
        self.render_with(width, height, &ages, today.as_str(), colors);
    }
}

} // verus!
