//! What the renderer keeps for every line: it fills exactly the width it is
//! given, as long as the text it draws keeps its escape sequences whole.
use vstd::prelude::*;
use crate::ansi;
use crate::layout::{
    LineView, ScreenView, SegmentView, line_text, on_background, pad_to, place_center, place_right,
    render_segment, render_segments, repeated, repeated_to_width, sat_sub, screen_rows, section_heights,
    section_rows, slot, styled,
};
use crate::text::{decimal, digit_char};
use crate::width::{
    ELLIPSIS, char_cols, cols, display_width, escape_len_at, is_ascii_digit, is_escape_param,
    params_end, truncated, visible, visible_from,
};
use crate::width_laws::{
    escapes_whole, law_truncated_width, lemma_param_run, lemma_plain, lemma_truncated_whole,
    lemma_visible_concat,
};

verus! {

/// A style made of escape sequences only: nothing of it is visible.
pub open spec fn style_invisible(style: Seq<char>) -> bool {
    visible(style).len() == 0
}

/// A segment whose text keeps its escape sequences whole and whose style is
/// invisible.
pub open spec fn segment_whole(seg: SegmentView) -> bool {
    match seg {
        SegmentView::Text { content, style } => escapes_whole(content) && style_invisible(style),
        SegmentView::Fill { ch, style } => ch != '\u{1b}' && style_invisible(style),
        SegmentView::Emoji { emoji } => escapes_whole(emoji),
    }
}

pub open spec fn segments_whole(segs: Seq<SegmentView>) -> bool {
    forall|k: int| 0 <= k < segs.len() ==> segment_whole(#[trigger] segs[k])
}

/// Every segment of the line is whole.
pub open spec fn line_whole(l: LineView) -> bool {
    segments_whole(l.left) && segments_whole(l.center) && segments_whole(l.right)
}

proof fn lemma_empty_text()
    ensures
        visible(Seq::<char>::empty()) =~= Seq::<char>::empty(),
        display_width(Seq::<char>::empty()) == 0,
        escapes_whole(Seq::<char>::empty()),
{
    assert(visible(Seq::<char>::empty()) =~= Seq::<char>::empty());
}

proof fn lemma_invisible_whole(s: Seq<char>)
    requires
        style_invisible(s),
    ensures
        escapes_whole(s),
        display_width(s) == 0,
{
    assert(visible(s) =~= Seq::<char>::empty());
}

proof fn lemma_reset()
    ensures
        style_invisible(ansi::RESET@),
{
    reveal_strlit("\x1b[0m");
    let r = ansi::RESET@;
    assert(r.len() == 4);
    lemma_param_run(r, 2, 3);
    assert(escape_len_at(r, 0) == Some(4int));
    assert(visible_from(r, 4) =~= Seq::<char>::empty());
}

proof fn lemma_decimal_digits(n: nat)
    ensures
        decimal(n).len() >= 1,
        forall|k: int| 0 <= k < decimal(n).len() ==> is_ascii_digit(#[trigger] decimal(n)[k]),
    decreases n,
{
    if n >= 10 {
        lemma_decimal_digits(n / 10);
        assert(is_ascii_digit(digit_char(n % 10)));
    } else {
        assert(is_ascii_digit(digit_char(n)));
    }
}

/// The escape sequence that sets a background color is invisible.
proof fn lemma_background_code(code: u8)
    ensures
        style_invisible("\x1b[48;5;"@ + decimal(code as nat) + "m"@),
{
    reveal_strlit("\x1b[48;5;");
    reveal_strlit("m");
    let p = "\x1b[48;5;"@;
    let d = decimal(code as nat);
    let b = p + d + "m"@;
    lemma_decimal_digits(code as nat);
    let e: int = 7 + d.len() as int;
    assert(b.len() == e + 1);
    assert forall|k: int| 2 <= k < e implies is_escape_param(#[trigger] b[k]) by {
        if k >= 7 {
            assert(b[k] == d[k - 7]);
        }
    }
    assert(b[e] == 'm');
    lemma_param_run(b, 2, e);
    assert(escape_len_at(b, 0) == Some(e + 1));
    assert(visible_from(b, e + 1) =~= Seq::<char>::empty());
}

/// Styling keeps the width of the text and its escape sequences whole.
proof fn lemma_styled(t: Seq<char>, style: Seq<char>, colors: bool)
    requires
        escapes_whole(t),
        style_invisible(style),
    ensures
        display_width(styled(t, style, colors)) == display_width(t),
        escapes_whole(styled(t, style, colors)),
{
    if colors && style.len() > 0 {
        lemma_invisible_whole(style);
        lemma_visible_concat(style, t);
        lemma_reset();
        lemma_invisible_whole(ansi::RESET@);
        lemma_visible_concat(style + t, ansi::RESET@);
    }
}

proof fn lemma_repeated_plain(c: char, n: nat)
    requires
        c != '\u{1b}',
    ensures
        !repeated(c, n).contains('\u{1b}'),
{
    if repeated(c, n).contains('\u{1b}') {
        let k = choose|k: int| 0 <= k < repeated(c, n).len() && #[trigger] repeated(c, n)[k] == '\u{1b}';
    }
}

proof fn lemma_render_segment(seg: SegmentView, rem: nat, colors: bool)
    requires
        segment_whole(seg),
        rem >= 1,
        char_cols(ELLIPSIS) <= 1,
    ensures
        display_width(render_segment(seg, rem, colors).0) == render_segment(seg, rem, colors).1,
        escapes_whole(render_segment(seg, rem, colors).0),
        render_segment(seg, rem, colors).1 <= rem,
{
    lemma_empty_text();
    match seg {
        SegmentView::Text { content, style } => {
            lemma_truncated_whole(content, rem);
            law_truncated_width(content, rem);
            lemma_styled(truncated(content, rem), style, colors);
        },
        SegmentView::Fill { ch, style } => {
            let unit = if char_cols(ch) >= 1 {
                char_cols(ch)
            } else {
                1
            };
            let pattern = repeated(ch, rem / unit + 2);
            lemma_repeated_plain(ch, rem / unit + 2);
            lemma_plain(pattern);
            lemma_truncated_whole(pattern, rem);
            law_truncated_width(pattern, rem);
            assert(repeated_to_width(ch, rem) == truncated(pattern, rem));
            lemma_styled(truncated(pattern, rem), style, colors);
        },
        SegmentView::Emoji { emoji } => {
            lemma_truncated_whole(emoji, rem);
            law_truncated_width(emoji, rem);
        },
    }
}

proof fn lemma_render_segments(segs: Seq<SegmentView>, k: int, max: nat, colors: bool, width: nat)
    requires
        segments_whole(segs),
        0 <= k,
        width <= max,
        char_cols(ELLIPSIS) <= 1,
    ensures
        display_width(render_segments(segs, k, max, colors, width).0) + width == render_segments(
            segs,
            k,
            max,
            colors,
            width,
        ).1,
        escapes_whole(render_segments(segs, k, max, colors, width).0),
        render_segments(segs, k, max, colors, width).1 <= max,
    decreases segs.len() - k,
{
    lemma_empty_text();
    if k < segs.len() && width < max {
        let (piece, w) = render_segment(segs[k], (max - width) as nat, colors);
        lemma_render_segment(segs[k], (max - width) as nat, colors);
        lemma_render_segments(segs, k + 1, max, colors, width + w);
        let rest = render_segments(segs, k + 1, max, colors, width + w).0;
        lemma_visible_concat(piece, rest);
    }
}

proof fn lemma_cols_spaces(n: nat)
    requires
        char_cols(' ') == 1,
    ensures
        cols(repeated(' ', n)) == n,
    decreases n,
{
    if n > 0 {
        assert(repeated(' ', n).skip(1) =~= repeated(' ', (n - 1) as nat));
        lemma_cols_spaces((n - 1) as nat);
    }
}

proof fn lemma_spaces(n: nat)
    requires
        char_cols(' ') == 1,
    ensures
        display_width(repeated(' ', n)) == n,
        escapes_whole(repeated(' ', n)),
{
    lemma_repeated_plain(' ', n);
    lemma_plain(repeated(' ', n));
    lemma_cols_spaces(n);
}

/// A rendered line takes exactly the width it is given: left, centered and
/// right text and the spaces between them add up to `width` columns, for any
/// line whose text keeps its escape sequences whole and whose styles are
/// escape sequences (given that a space takes one column and the ellipsis at
/// most one, as `unicode-width` has it).
pub proof fn law_line_fills_width(l: LineView, width: nat, colors: bool)
    requires
        line_whole(l),
        char_cols(' ') == 1,
        char_cols(ELLIPSIS) <= 1,
    ensures
        display_width(line_text(l, width, colors)) == width,
{
    lemma_empty_text();
    if width > 0 {
        let (lt, lw) = render_segments(l.left, 0, width, colors, 0);
        lemma_render_segments(l.left, 0, width, colors, 0);
        let right_max = sat_sub(width as int, lw as int);
        let (rt, rw) = render_segments(l.right, 0, right_max, colors, 0);
        lemma_render_segments(l.right, 0, right_max, colors, 0);
        let center_max = sat_sub(width as int, (lw + rw) as int);
        let (ct, cw) = render_segments(l.center, 0, center_max, colors, 0);
        lemma_render_segments(l.center, 0, center_max, colors, 0);
        let right_start = sat_sub(width as int, rw as int);
        let center_start = lw + sat_sub(center_max as int, cw as int) / 2;
        let (t1, col1) = place_center(lt, lw, ct, cw, center_start);
        assert(display_width(t1) == col1 && escapes_whole(t1) && col1 <= right_start) by {
            if cw > 0 {
                if center_start > lw {
                    let gap = repeated(' ', (center_start - lw) as nat);
                    lemma_spaces((center_start - lw) as nat);
                    lemma_visible_concat(lt, gap);
                    lemma_visible_concat(lt + gap, ct);
                } else {
                    lemma_visible_concat(lt, ct);
                }
            }
        }
        let (t2, col2) = place_right(t1, col1, rt, rw, right_start);
        assert(display_width(t2) == width && col2 == width && escapes_whole(t2)) by {
            let (t3, col3) = if right_start > col1 {
                (t1 + repeated(' ', (right_start - col1) as nat), right_start)
            } else {
                (t1, col1)
            };
            if right_start > col1 {
                lemma_spaces((right_start - col1) as nat);
                lemma_visible_concat(t1, repeated(' ', (right_start - col1) as nat));
            }
            if rw > 0 {
                lemma_visible_concat(t3, rt);
            }
        }
        let padded = pad_to(t2, col2, width);
        assert(padded == t2);
        match l.background {
            Some(bg) => {
                if colors {
                    let code = "\x1b[48;5;"@ + decimal(bg as nat) + "m"@;
                    lemma_background_code(bg);
                    lemma_invisible_whole(code);
                    lemma_visible_concat(code, t2);
                    lemma_reset();
                    lemma_invisible_whole(ansi::RESET@);
                    lemma_visible_concat(code + t2, ansi::RESET@);
                    assert(on_background(t2, l.background, colors) == code + t2 + ansi::RESET@);
                }
            },
            None => {},
        }
    }
}

/// Every line of every section of the screen is whole.
pub open spec fn screen_whole(v: ScreenView) -> bool {
    &&& forall|k: int| 0 <= k < v.header.len() ==> line_whole(#[trigger] v.header[k])
    &&& forall|k: int| 0 <= k < v.body.len() ==> line_whole(#[trigger] v.body[k])
    &&& forall|k: int| 0 <= k < v.footer.len() ==> line_whole(#[trigger] v.footer[k])
}

proof fn lemma_section_rows(lines: Seq<LineView>, h: nat, width: nat, colors: bool)
    requires
        forall|k: int| 0 <= k < lines.len() ==> line_whole(#[trigger] lines[k]),
        char_cols(' ') == 1,
        char_cols(ELLIPSIS) <= 1,
    ensures
        section_rows(lines, h, width, colors).len() == h,
        forall|k: int|
            0 <= k < h ==> display_width(#[trigger] section_rows(lines, h, width, colors)[k]) == width,
{
    assert forall|k: int| 0 <= k < h implies display_width(
        #[trigger] section_rows(lines, h, width, colors)[k],
    ) == width by {
        match slot(lines, k) {
            Some(l) => law_line_fills_width(l, width, colors),
            None => lemma_spaces(width),
        }
    }
}

/// The screen is drawn as exactly `height` rows, each exactly `width`
/// columns wide, whatever its sections hold (for lines whose escape sequences
/// are whole, given that a space takes one column and the ellipsis at most one).
pub proof fn law_screen_fills_terminal(v: ScreenView, colors: bool)
    requires
        screen_whole(v),
        char_cols(' ') == 1,
        char_cols(ELLIPSIS) <= 1,
    ensures
        screen_rows(v, colors).len() == v.height,
        forall|k: int|
            0 <= k < v.height ==> display_width(#[trigger] screen_rows(v, colors)[k]) == v.width,
{
    let (hh, fh, bh) = section_heights(v);
    let w = v.width as nat;
    lemma_section_rows(v.header, hh, w, colors);
    lemma_section_rows(v.body, bh, w, colors);
    lemma_section_rows(v.footer, fh, w, colors);
    let a = section_rows(v.header, hh, w, colors);
    let b = section_rows(v.body, bh, w, colors);
    let c = section_rows(v.footer, fh, w, colors);
    assert forall|k: int| 0 <= k < v.height implies display_width(
        #[trigger] screen_rows(v, colors)[k],
    ) == v.width by {
        if k < hh {
            assert(screen_rows(v, colors)[k] == a[k]);
        } else if k < hh + bh {
            assert(screen_rows(v, colors)[k] == b[k - hh]);
        } else {
            assert(screen_rows(v, colors)[k] == c[k - hh - bh]);
        }
    }
}

} // verus!
