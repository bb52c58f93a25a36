//! Terminal text measurement: ANSI escape sequences, display widths,
//! and width-bounded truncation.
use vstd::prelude::*;
use crate::text::{chars_of, string_of};

verus! {

/// The horizontal ellipsis that marks truncated text.
pub const ELLIPSIS: char = '…';

// ---------------------------------------------------------------------------
// Character display width (unicode-width)
// ---------------------------------------------------------------------------

/// The value `unicode_width::UnicodeWidthChar::width` gives for a character.
pub uninterp spec fn unicode_width_of(c: char) -> Option<usize>;

/// `unicode_width::UnicodeWidthChar::width(c)`.
/// Claimed, as the crate's source shows it: control characters
/// (below U+0020 and U+007F..U+009F) have no width, printable ASCII is one
/// column, and no character is wider than three columns. Claimed from the
/// crate's documented rules: U+2026 HORIZONTAL ELLIPSIS, of East Asian width
/// Ambiguous and not a letter, is one column. The widths of other characters
/// are left to the name `unicode_width_of`.
#[verifier::external_body]
fn unicode_char_width(c: char) -> (r: Option<usize>)
    ensures
        r == unicode_width_of(c),
        r is None <==> (c < '\u{20}' || ('\u{7f}' <= c && c < '\u{a0}')),
        ('\u{20}' <= c && c < '\u{7f}') ==> r == Some(1usize),
        c == ELLIPSIS ==> r == Some(1usize),
        r matches Some(w) ==> w <= 3,
{
    unicode_width::UnicodeWidthChar::width(c)
}

/// Columns a character takes; control characters take none.
pub open spec fn char_cols(c: char) -> nat {
    match unicode_width_of(c) {
        Some(w) => w as nat,
        None => 0,
    }
}

/// Columns a character takes, as the display code counts them.
pub fn char_width(c: char) -> (w: usize)
    ensures
        w == char_cols(c),
        w <= 3,
        c == ELLIPSIS ==> w == 1,
{
    match unicode_char_width(c) {
        Some(w) => w,
        None => 0,
    }
}

/// Total columns of a sequence of characters.
pub open spec fn cols(cs: Seq<char>) -> nat
    decreases cs.len(),
{
    if cs.len() == 0 {
        0
    } else {
        char_cols(cs[0]) + cols(cs.skip(1))
    }
}

// ---------------------------------------------------------------------------
// ANSI escape sequences: ESC '[' (digit | ';' | '?')* letter
// ---------------------------------------------------------------------------

pub open spec fn is_ascii_digit(c: char) -> bool {
    '0' <= c && c <= '9'
}

pub open spec fn is_ascii_letter(c: char) -> bool {
    ('a' <= c && c <= 'z') || ('A' <= c && c <= 'Z')
}

/// Characters allowed between `ESC [` and the final letter.
pub open spec fn is_escape_param(c: char) -> bool {
    is_ascii_digit(c) || c == ';' || c == '?'
}

/// First index at or after `j` that does not hold a parameter character.
pub open spec fn params_end(s: Seq<char>, j: int) -> int
    decreases s.len() - j,
{
    if 0 <= j < s.len() && is_escape_param(s[j]) {
        params_end(s, j + 1)
    } else {
        j
    }
}

pub proof fn lemma_params_end(s: Seq<char>, j: int)
    requires
        0 <= j <= s.len(),
    ensures
        j <= params_end(s, j) <= s.len(),
        forall|k: int| j <= k < params_end(s, j) ==> is_escape_param(#[trigger] s[k]),
        params_end(s, j) < s.len() ==> !is_escape_param(s[params_end(s, j)]),
    decreases s.len() - j,
{
    if j < s.len() && is_escape_param(s[j]) {
        lemma_params_end(s, j + 1);
    }
}

/// Length of the escape sequence that starts at index `i` of `s`, if one does.
pub open spec fn escape_len_at(s: Seq<char>, i: int) -> Option<int> {
    if 0 <= i && i + 2 <= s.len() && s[i] == '\u{1b}' && s[i + 1] == '[' {
        let e = params_end(s, i + 2);
        if e < s.len() && is_ascii_letter(s[e]) {
            Some(e + 1 - i)
        } else {
            None
        }
    } else {
        None
    }
}

pub proof fn lemma_escape_len_at(s: Seq<char>, i: int)
    requires
        0 <= i <= s.len(),
    ensures
        escape_len_at(s, i) matches Some(n) ==> 3 <= n && i + n <= s.len(),
{
    if i + 2 <= s.len() {
        lemma_params_end(s, i + 2);
    }
}

/// `ansi_escape_len`: length of the escape sequence starting at `start`.
fn ansi_escape_len(s: &Vec<char>, start: usize) -> (r: Option<usize>)
    requires
        start <= s.len(),
    ensures
        match r {
            Some(n) => escape_len_at(s@, start as int) == Some(n as int),
            None => escape_len_at(s@, start as int) is None,
        },
{
    if s.len() - start < 2 || s[start] != '\u{1b}' || s[start + 1] != '[' {
        return None;
    }
    let mut idx = start + 2;
    while idx < s.len() && (('0' <= s[idx] && s[idx] <= '9') || s[idx] == ';' || s[idx] == '?')
        invariant
            start + 2 <= idx <= s.len(),
            params_end(s@, start as int + 2) == params_end(s@, idx as int),
        decreases s.len() - idx,
    {
        idx += 1;
    }
    if idx < s.len() && (('a' <= s[idx] && s[idx] <= 'z') || ('A' <= s[idx] && s[idx] <= 'Z')) {
        Some(idx + 1 - start)
    } else {
        None
    }
}

/// The visible characters of `s` from index `i` on: escape sequences removed.
pub open spec fn visible_from(s: Seq<char>, i: int) -> Seq<char>
    decreases s.len() - i,
{
    if i < 0 || i >= s.len() {
        Seq::empty()
    } else {
        match escape_len_at(s, i) {
            Some(n) => if n > 0 {
                visible_from(s, i + n)
            } else {
                Seq::empty()
            },
            None => seq![s[i]] + visible_from(s, i + 1),
        }
    }
}

/// The visible characters of `s`.
pub open spec fn visible(s: Seq<char>) -> Seq<char> {
    visible_from(s, 0)
}

/// Display width of `s`: columns of its visible characters.
pub open spec fn display_width(s: Seq<char>) -> nat {
    cols(visible(s))
}

/// Removes every escape sequence, keeping all other characters in order.
pub fn strip_ansi(s: &str) -> (r: String)
    ensures
        r@ == visible(s@),
{
    let cs = chars_of(s);
    let mut out = String::new();
    let mut idx: usize = 0;
    while idx < cs.len()
        invariant
            idx <= cs.len(),
            cs@ == s@,
            out@ + visible_from(cs@, idx as int) == visible(cs@),
        decreases cs.len() - idx,
    {
        proof {
            lemma_escape_len_at(cs@, idx as int);
        }
        match ansi_escape_len(&cs, idx) {
            Some(len) => {
                idx += len;
            },
            None => {
                let ghost before = out@;
                out.push(cs[idx]);
                assert(out@ + visible_from(cs@, idx + 1) =~= before + visible_from(
                    cs@,
                    idx as int,
                ));
                idx += 1;
            },
        }
    }
    assert(out@ =~= out@ + visible_from(cs@, idx as int));
    out
}

} // verus!
verus! {

/// Inputs this module measures: short enough that summed widths fit a `usize`.
pub open spec fn measurable(s: Seq<char>) -> bool {
    s.len() <= usize::MAX / 4
}

pub proof fn lemma_visible_from_len(s: Seq<char>, i: int)
    requires
        0 <= i <= s.len(),
    ensures
        visible_from(s, i).len() <= s.len() - i,
    decreases s.len() - i,
{
    if i < s.len() {
        lemma_escape_len_at(s, i);
        match escape_len_at(s, i) {
            Some(n) => lemma_visible_from_len(s, i + n),
            None => lemma_visible_from_len(s, i + 1),
        }
    }
}

/// Sum of the columns of the characters in `cs`.
fn cols_of(cs: &Vec<char>) -> (w: usize)
    requires
        cs.len() <= usize::MAX / 3,
    ensures
        w == cols(cs@),
        w <= 3 * cs.len(),
{
    let mut acc: usize = 0;
    let mut i: usize = 0;
    assert(cs@.skip(0) =~= cs@);
    while i < cs.len()
        invariant
            i <= cs.len() <= usize::MAX / 3,
            acc <= 3 * i,
            acc + cols(cs@.skip(i as int)) == cols(cs@),
        decreases cs.len() - i,
    {
        assert(cs@.skip(i as int).skip(1) =~= cs@.skip(i + 1));
        acc = acc + char_width(cs[i]);
        i += 1;
    }
    assert(cs@.skip(i as int) =~= Seq::<char>::empty());
    acc
}

/// Display width of `s`, in terminal columns; escape sequences take none.
pub fn visible_width(s: &str) -> (w: usize)
    requires
        measurable(s@),
    ensures
        w == display_width(s@),
        w <= 3 * s@.len(),
{
    let stripped = strip_ansi(s);
    let cs = chars_of(stripped.as_str());
    proof {
        lemma_visible_from_len(s@, 0);
    }
    cols_of(&cs)
}

// ---------------------------------------------------------------------------
// Truncation
// ---------------------------------------------------------------------------

/// From index `i`: every escape sequence, and the visible characters for as long
/// as their columns fit in `budget`; after the first one that does not fit,
/// only escape sequences.
pub open spec fn fitting_from(s: Seq<char>, i: int, budget: int) -> Seq<char>
    decreases s.len() - i,
{
    if i < 0 || i >= s.len() {
        Seq::empty()
    } else {
        match escape_len_at(s, i) {
            Some(n) => if n > 0 {
                s.subrange(i, i + n) + fitting_from(s, i + n, budget)
            } else {
                Seq::empty()
            },
            None => if char_cols(s[i]) <= budget {
                seq![s[i]] + fitting_from(s, i + 1, budget - char_cols(s[i]))
            } else {
                escapes_from(s, i + 1)
            },
        }
    }
}

/// The escape sequences of `s` from index `i` on, concatenated.
pub open spec fn escapes_from(s: Seq<char>, i: int) -> Seq<char>
    decreases s.len() - i,
{
    if i < 0 || i >= s.len() {
        Seq::empty()
    } else {
        match escape_len_at(s, i) {
            Some(n) => if n > 0 {
                s.subrange(i, i + n) + escapes_from(s, i + n)
            } else {
                Seq::empty()
            },
            None => escapes_from(s, i + 1),
        }
    }
}

/// What `truncate(s, max)` returns: `s` itself when it fits; otherwise its
/// escape sequences and longest fitting visible prefix, then an ellipsis.
pub open spec fn truncated(s: Seq<char>, max: nat) -> Seq<char> {
    if display_width(s) <= max {
        s
    } else if max == 0 {
        Seq::empty()
    } else if max <= char_cols(ELLIPSIS) {
        seq![ELLIPSIS]
    } else {
        fitting_from(s, 0, max - char_cols(ELLIPSIS)) + seq![ELLIPSIS]
    }
}

/// Cuts `s` to at most `max_width` columns, ending it with an ellipsis when
/// anything was cut. Escape sequences are kept.
pub fn truncate(s: &str, max_width: usize) -> (r: String)
    requires
        measurable(s@),
    ensures
        r@ == truncated(s@, max_width as nat),
        display_width(r@) <= max_width,
{
    let ellipsis_width = char_width(ELLIPSIS);
    proof {
        crate::width_laws::law_truncated_width(s@, max_width as nat);
    }
    let total = visible_width(s);
    if total <= max_width {
        return s.to_owned();
    }
    if max_width == 0 {
        return String::new();
    }
    if max_width <= ellipsis_width {
        let mut one = String::new();
        one.push(ELLIPSIS);
        return one;
    }
    let target = max_width - ellipsis_width;
    let cs = chars_of(s);
    let mut out = String::new();
    let mut idx: usize = 0;
    let mut width: usize = 0;
    let mut at_capacity = false;
    while idx < cs.len()
        invariant
            idx <= cs.len(),
            cs@ == s@,
            width <= target,
            !at_capacity ==> out@ + fitting_from(cs@, idx as int, target - width)
                == fitting_from(cs@, 0, target as int),
            at_capacity ==> out@ + escapes_from(cs@, idx as int) == fitting_from(
                cs@,
                0,
                target as int,
            ),
        decreases cs.len() - idx,
    {
        proof {
            lemma_escape_len_at(cs@, idx as int);
        }
        let ghost before = out@;
        match ansi_escape_len(&cs, idx) {
            Some(len) => {
                crate::text::push_range(&mut out, &cs, idx, idx + len);
                assert(out@ + fitting_from(cs@, idx + len, target - width) =~= before
                    + fitting_from(cs@, idx as int, target - width));
                assert(out@ + escapes_from(cs@, idx + len) =~= before + escapes_from(
                    cs@,
                    idx as int,
                ));
                idx += len;
            },
            None => {
                if !at_capacity {
                    let cw = char_width(cs[idx]);
                    if cw > target - width {
                        at_capacity = true;
                    } else {
                        out.push(cs[idx]);
                        assert(out@ + fitting_from(cs@, idx + 1, target - (width + cw))
                            =~= before + fitting_from(cs@, idx as int, target - width));
                        width += cw;
                    }
                }
                idx += 1;
            },
        }
    }
    assert(out@ + fitting_from(cs@, idx as int, target - width) =~= out@);
    assert(out@ + escapes_from(cs@, idx as int) =~= out@);
    out.push(ELLIPSIS);
    out
}

} // verus!
verus! {

/// The escape sequences at the very start of `s` (from index `i`), before any
/// visible character.
pub open spec fn leading_escapes_from(s: Seq<char>, i: int) -> Seq<char>
    decreases s.len() - i,
{
    if i < 0 || i >= s.len() {
        Seq::empty()
    } else {
        match escape_len_at(s, i) {
            Some(n) => if n > 0 {
                s.subrange(i, i + n) + leading_escapes_from(s, i + n)
            } else {
                Seq::empty()
            },
            None => Seq::empty(),
        }
    }
}

/// From index `i`, with `skip` columns still to drop: visible characters are
/// dropped while columns remain to drop; escape sequences met while dropping
/// are dropped too; everything after that is kept.
pub open spec fn tail_after_skip(s: Seq<char>, i: int, skip: int) -> Seq<char>
    decreases s.len() - i,
{
    if i < 0 || i >= s.len() {
        Seq::empty()
    } else {
        match escape_len_at(s, i) {
            Some(n) => if n > 0 {
                (if skip <= 0 {
                    s.subrange(i, i + n)
                } else {
                    Seq::empty()
                }) + tail_after_skip(s, i + n, skip)
            } else {
                Seq::empty()
            },
            None => if skip > 0 {
                tail_after_skip(s, i + 1, skip - char_cols(s[i]))
            } else {
                seq![s[i]] + tail_after_skip(s, i + 1, skip)
            },
        }
    }
}

/// What `truncate_from_start(s, max)` returns: `s` when it fits; otherwise the
/// leading escape sequences, an ellipsis, and the end of `s` that fits.
pub open spec fn truncated_from_start(s: Seq<char>, max: nat) -> Seq<char> {
    if display_width(s) <= max {
        s
    } else if max == 0 {
        Seq::empty()
    } else if max <= char_cols(ELLIPSIS) {
        seq![ELLIPSIS]
    } else {
        let keep = max - char_cols(ELLIPSIS);
        let skip = if display_width(s) >= keep {
            display_width(s) - keep
        } else {
            0
        };
        leading_escapes_from(s, 0) + seq![ELLIPSIS] + tail_after_skip(s, 0, skip)
    }
}

/// Cuts the start of `s` so that it takes at most `max_width` columns, putting
/// an ellipsis where text was cut. Escape sequences at the start are kept.
pub fn truncate_from_start(s: &str, max_width: usize) -> (r: String)
    requires
        measurable(s@),
    ensures
        r@ == truncated_from_start(s@, max_width as nat),
        display_width(r@) <= max_width,
{
    let ellipsis_width = char_width(ELLIPSIS);
    proof {
        crate::width_laws::law_truncated_from_start_width(s@, max_width as nat);
    }
    let total = visible_width(s);
    if total <= max_width {
        return s.to_owned();
    }
    if max_width == 0 {
        return String::new();
    }
    if max_width <= ellipsis_width {
        let mut one = String::new();
        one.push(ELLIPSIS);
        return one;
    }
    let keep_width = max_width - ellipsis_width;
    let cs = chars_of(s);
    let mut leading = String::new();
    let mut idx: usize = 0;
    let mut at_text = false;
    while idx < cs.len() && !at_text
        invariant
            idx <= cs.len(),
            cs@ == s@,
            leading@ + leading_escapes_from(cs@, idx as int) == leading_escapes_from(cs@, 0),
            at_text ==> leading_escapes_from(cs@, idx as int) =~= Seq::<char>::empty(),
        decreases cs.len() - idx + (if at_text { 0int } else { 1int }),
    {
        proof {
            lemma_escape_len_at(cs@, idx as int);
        }
        match ansi_escape_len(&cs, idx) {
            Some(len) => {
                let ghost before = leading@;
                crate::text::push_range(&mut leading, &cs, idx, idx + len);
                assert(leading@ + leading_escapes_from(cs@, idx + len) =~= before
                    + leading_escapes_from(cs@, idx as int));
                idx += len;
            },
            None => {
                at_text = true;
            },
        }
    }
    assert(leading@ + leading_escapes_from(cs@, idx as int) =~= leading@);
    let to_skip = if total >= keep_width {
        total - keep_width
    } else {
        0
    };
    let mut skipped: usize = 0;
    let mut out = String::new();
    idx = 0;
    while idx < cs.len()
        invariant
            idx <= cs.len(),
            cs@ == s@,
            to_skip <= total <= 3 * s@.len(),
            measurable(s@),
            skipped <= to_skip + 3,
            out@ + tail_after_skip(cs@, idx as int, to_skip - skipped) == tail_after_skip(
                cs@,
                0,
                to_skip as int,
            ),
        decreases cs.len() - idx,
    {
        proof {
            lemma_escape_len_at(cs@, idx as int);
        }
        let ghost before = out@;
        match ansi_escape_len(&cs, idx) {
            Some(len) => {
                if skipped >= to_skip {
                    crate::text::push_range(&mut out, &cs, idx, idx + len);
                }
                assert(out@ + tail_after_skip(cs@, idx + len, to_skip - skipped) =~= before
                    + tail_after_skip(cs@, idx as int, to_skip - skipped));
                idx += len;
                continue;
            },
            None => {},
        }
        let cw = char_width(cs[idx]);
        if skipped < to_skip {
            skipped += cw;
        } else {
            out.push(cs[idx]);
            assert(out@ + tail_after_skip(cs@, idx + 1, to_skip - skipped) =~= before
                + tail_after_skip(cs@, idx as int, to_skip - skipped));
        }
        idx += 1;
    }
    assert(out@ + tail_after_skip(cs@, idx as int, to_skip - skipped) =~= out@);
    let mut r = leading;
    r.push(ELLIPSIS);
    r.append(out.as_str());
    r
}

} // verus!
