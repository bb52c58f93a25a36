//! The color palette of the interface; every style is empty without colors.
use vstd::prelude::*;
use vstd::string::StringExecFns;
use crate::ansi::{sgr, fg, bg, joined, views_of};
use crate::text::decimal;

verus! {

/// The style, when colors are on, of `sgr` with the two codes `a` and `b`.
pub open spec fn sgr2(a: Seq<char>, b: Seq<char>) -> Seq<char> {
    "\x1b["@ + a + ";"@ + b + "m"@
}

fn sgr_pair(a: &str, b: &str, colors: bool) -> (r: String)
    ensures
        r@ == if colors { sgr2(a@, b@) } else { Seq::<char>::empty() },
{
    let codes = [a, b];
    let r = sgr(&codes, colors);
    proof {
        let parts = views_of(codes@);
        assert(parts.len() == 2);
        assert(parts[0] == a@ && parts[1] == b@);
        assert(parts.drop_last() =~= seq![a@]);
        reveal_with_fuel(joined, 2);
        assert(parts.drop_last().drop_last() =~= Seq::<Seq<char>>::empty());
        assert(joined(parts, ";"@) =~= a@ + ";"@ + b@);
    }
    r
}

/// Section headers: bold green.
pub fn header(colors: bool) -> (r: String)
    ensures
        r@ == if colors { sgr2("1"@, "38;5;114"@) } else { Seq::<char>::empty() },
{
    sgr_pair("1", "38;5;114", colors)
}

/// Accents: bold orange.
pub fn accent(colors: bool) -> (r: String)
    ensures
        r@ == if colors { sgr2("1"@, "38;5;214"@) } else { Seq::<char>::empty() },
{
    sgr_pair("1", "38;5;214", colors)
}

/// Highlights: bold yellow.
pub fn highlight(colors: bool) -> (r: String)
    ensures
        r@ == if colors { "\x1b[1;33m"@ } else { Seq::<char>::empty() },
{
    if colors {
        String::from_str("\x1b[1;33m")
    } else {
        String::new()
    }
}

/// Muted text: gray 245.
pub fn muted(colors: bool) -> (r: String)
    ensures
        r@ == if colors { "\x1b[38;5;"@ + decimal(245) + "m"@ } else { Seq::<char>::empty() },
{
    fg(245, colors)
}

/// Fuzzy-match highlights: bold bright yellow.
pub fn match_color(colors: bool) -> (r: String)
    ensures
        r@ == if colors { sgr2("1"@, "38;5;226"@) } else { Seq::<char>::empty() },
{
    sgr_pair("1", "38;5;226", colors)
}

/// Input hints: gray 244.
pub fn input_hint(colors: bool) -> (r: String)
    ensures
        r@ == if colors { "\x1b[38;5;"@ + decimal(244) + "m"@ } else { Seq::<char>::empty() },
{
    fg(244, colors)
}

/// Start of the input cursor: reverse video.
pub fn input_cursor_on(colors: bool) -> (r: String)
    ensures
        r@ == if colors { "\x1b[7m"@ } else { Seq::<char>::empty() },
{
    if colors {
        String::from_str("\x1b[7m")
    } else {
        String::new()
    }
}

/// End of the input cursor: reverse video off.
pub fn input_cursor_off(colors: bool) -> (r: String)
    ensures
        r@ == if colors { "\x1b[27m"@ } else { Seq::<char>::empty() },
{
    if colors {
        String::from_str("\x1b[27m")
    } else {
        String::new()
    }
}

/// Background of the selected row: gray 238.
pub fn selected_bg(colors: bool) -> (r: String)
    ensures
        r@ == if colors { "\x1b[48;5;"@ + decimal(238) + "m"@ } else { Seq::<char>::empty() },
{
    bg(238, colors)
}

/// Background of rows marked for deletion: dark red 52.
pub fn danger_bg(colors: bool) -> (r: String)
    ensures
        r@ == if colors { "\x1b[48;5;"@ + decimal(52) + "m"@ } else { Seq::<char>::empty() },
{
    bg(52, colors)
}

} // verus!
