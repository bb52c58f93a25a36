//! ANSI control sequences used by the screen renderer.
use vstd::prelude::*;
use vstd::string::StringExecFns;
use crate::text::{decimal, push_decimal};

verus! {

pub const ALT_SCREEN_ON: &'static str = "\x1b[?1049h";
pub const ALT_SCREEN_OFF: &'static str = "\x1b[?1049l";
pub const CURSOR_HIDE: &'static str = "\x1b[?25l";
pub const CURSOR_SHOW: &'static str = "\x1b[?25h";
pub const CURSOR_HOME: &'static str = "\x1b[H";
pub const CLEAR_SCREEN: &'static str = "\x1b[2J";
pub const CLEAR_LINE: &'static str = "\x1b[K";
pub const RESET: &'static str = "\x1b[0m";
pub const BOLD: &'static str = "\x1b[1m";
pub const DIM: &'static str = "\x1b[2m";
pub const REVERSE: &'static str = "\x1b[7m";
pub const REVERSE_OFF: &'static str = "\x1b[27m";

/// Whether colors are on, given the values of `NO_COLOR` and `NO_COLORS`
/// (empty when unset): only when both are empty.
pub fn colors_enabled(no_color: &str, no_colors: &str) -> (r: bool)
    ensures
        r == (no_color@.len() == 0 && no_colors@.len() == 0),
{
    no_color.is_empty() && no_colors.is_empty()
}

/// Foreground color `code` from the 256-color palette; empty without colors.
pub fn fg(code: u8, colors: bool) -> (r: String)
    ensures
        r@ == if colors {
            "\x1b[38;5;"@ + decimal(code as nat) + "m"@
        } else {
            Seq::<char>::empty()
        },
{
    if colors {
        let mut r = String::from_str("\x1b[38;5;");
        push_decimal(&mut r, code as u64);
        r.append("m");
        r
    } else {
        String::new()
    }
}

/// Background color `code` from the 256-color palette; empty without colors.
pub fn bg(code: u8, colors: bool) -> (r: String)
    ensures
        r@ == if colors {
            "\x1b[48;5;"@ + decimal(code as nat) + "m"@
        } else {
            Seq::<char>::empty()
        },
{
    if colors {
        let mut r = String::from_str("\x1b[48;5;");
        push_decimal(&mut r, code as u64);
        r.append("m");
        r
    } else {
        String::new()
    }
}

/// Moves the cursor to column `col`.
pub fn move_col(col: u16) -> (r: String)
    ensures
        r@ == "\x1b["@ + decimal(col as nat) + "G"@,
{
    let mut r = String::from_str("\x1b[");
    push_decimal(&mut r, col as u64);
    r.append("G");
    r
}

/// `parts` joined with `sep` between consecutive parts.
pub open spec fn joined(parts: Seq<Seq<char>>, sep: Seq<char>) -> Seq<char>
    decreases parts.len(),
{
    if parts.len() == 0 {
        Seq::empty()
    } else if parts.len() == 1 {
        parts[0]
    } else {
        joined(parts.drop_last(), sep) + sep + parts.last()
    }
}

/// The views of a slice of string slices.
pub open spec fn views_of(parts: Seq<&str>) -> Seq<Seq<char>> {
    parts.map_values(|p: &str| p@)
}

/// Appends `parts` joined with `sep` to `out`.
pub fn push_joined(out: &mut String, parts: &[&str], sep: &str)
    ensures
        final(out)@ == old(out)@ + joined(views_of(parts@), sep@),
{
    let mut i: usize = 0;
    let ghost start = out@;
    while i < parts.len()
        invariant
            i <= parts.len(),
            start == old(out)@,
            out@ == start + joined(views_of(parts@).take(i as int), sep@),
        decreases parts.len() - i,
    {
        let ghost prev = out@;
        if i > 0 {
            out.append(sep);
        }
        out.append(parts[i]);
        assert(views_of(parts@).take(i + 1).drop_last() =~= views_of(parts@).take(i as int));
        assert(out@ =~= start + joined(views_of(parts@).take(i + 1), sep@));
        i += 1;
    }
    assert(views_of(parts@).take(parts@.len() as int) =~= views_of(parts@));
}

/// "Select graphic rendition" with the given parameter codes; empty without colors.
pub fn sgr(codes: &[&str], colors: bool) -> (r: String)
    ensures
        r@ == if colors {
            "\x1b["@ + joined(views_of(codes@), ";"@) + "m"@
        } else {
            Seq::<char>::empty()
        },
{
    if !colors {
        return String::new();
    }
    let mut r = String::from_str("\x1b[");
    push_joined(&mut r, codes, ";");
    r.append("m");
    r
}

/// Sets the terminal window title.
pub fn set_title(title: &str) -> (r: String)
    ensures
        r@ == "\x1b]2;"@ + title@ + "\x07"@,
{
    let mut r = String::from_str("\x1b]2;");
    r.append(title);
    r.append("\x07");
    r
}

} // verus!
