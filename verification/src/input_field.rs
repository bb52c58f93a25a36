//! A single-line text input with a cursor, as the search box and the dialogs use it.
use vstd::prelude::*;
use vstd::string::StringExecFns;
use vstd::utf8::encode_utf8;
use crate::text::{is_ascii_alnum, ascii_alnum, string_of};
use crate::layout::{SegmentWriter, SegmentView};
use crate::ansi;

verus! {

/// What an input field holds: its text and the cursor, as an index into the
/// text's characters (0 ..= length).
pub struct InputView {
    pub text: Seq<char>,
    pub cursor: nat,
}

/// Start of the position `p` after skipping back over characters that are not
/// letters or digits.
pub open spec fn back_over_separators(t: Seq<char>, p: int) -> int
    decreases p,
{
    if p > 0 && p <= t.len() && !is_ascii_alnum(t[p - 1]) {
        back_over_separators(t, p - 1)
    } else {
        p
    }
}

/// Start of the position `p` after skipping back over letters and digits.
pub open spec fn back_over_word(t: Seq<char>, p: int) -> int
    decreases p,
{
    if p > 0 && p <= t.len() && is_ascii_alnum(t[p - 1]) {
        back_over_word(t, p - 1)
    } else {
        p
    }
}

/// Where a backward word kill from `cursor` stops: separators first, then a word.
pub open spec fn word_kill_start(t: Seq<char>, cursor: int) -> int {
    back_over_word(t, back_over_separators(t, cursor))
}

pub proof fn lemma_back_over(t: Seq<char>, p: int)
    requires
        0 <= p <= t.len(),
    ensures
        0 <= back_over_separators(t, p) <= p,
        0 <= back_over_word(t, p) <= p,
    decreases p,
{
    if p > 0 {
        lemma_back_over(t, p - 1);
    }
}

/// The input text as drawn: the character under the cursor (or a trailing
/// space when the cursor is at the end) in reverse video when colors are on.
pub open spec fn drawn_upto(t: Seq<char>, cursor: nat, colors: bool, n: int) -> Seq<char>
    decreases n,
{
    if n <= 0 {
        Seq::empty()
    } else {
        let c = t[n - 1];
        let piece = if n - 1 == cursor && colors {
            ansi::REVERSE@ + seq![c] + ansi::REVERSE_OFF@
        } else {
            seq![c]
        };
        drawn_upto(t, cursor, colors, n - 1) + piece
    }
}

pub open spec fn drawn_input(t: Seq<char>, cursor: nat, colors: bool) -> Seq<char> {
    drawn_upto(t, cursor, colors, t.len() as int) + if cursor == t.len() {
        if colors {
            ansi::REVERSE@ + seq![' '] + ansi::REVERSE_OFF@
        } else {
            seq![' ']
        }
    } else {
        Seq::empty()
    }
}

/// A change to an input field.
#[derive(Debug, Clone, Copy, PartialEq, Eq, Structural)]
pub enum Edit {
    Insert(char),
    DeleteBefore,
    DeleteAt,
    Left,
    Right,
    Start,
    End,
    KillToEnd,
    KillWord,
}

/// What an edit does to a field.
pub open spec fn edited(v: InputView, e: Edit) -> InputView {
    match e {
        Edit::Insert(ch) => InputView { text: v.text.insert(v.cursor as int, ch), cursor: v.cursor + 1 },
        Edit::DeleteBefore => if v.cursor == 0 {
            v
        } else {
            InputView { text: v.text.remove(v.cursor - 1), cursor: (v.cursor - 1) as nat }
        },
        Edit::DeleteAt => if v.cursor >= v.text.len() {
            v
        } else {
            InputView { text: v.text.remove(v.cursor as int), cursor: v.cursor }
        },
        Edit::Left => InputView {
            text: v.text,
            cursor: if v.cursor == 0 {
                0
            } else {
                (v.cursor - 1) as nat
            },
        },
        Edit::Right => InputView {
            text: v.text,
            cursor: if v.cursor >= v.text.len() {
                v.cursor
            } else {
                v.cursor + 1
            },
        },
        Edit::Start => InputView { text: v.text, cursor: 0 },
        Edit::End => InputView { text: v.text, cursor: v.text.len() },
        Edit::KillToEnd => InputView { text: v.text.take(v.cursor as int), cursor: v.cursor },
        Edit::KillWord => if v.cursor == 0 {
            v
        } else {
            InputView {
                text: v.text.take(word_kill_start(v.text, v.cursor as int)) + v.text.skip(v.cursor as int),
                cursor: word_kill_start(v.text, v.cursor as int) as nat,
            }
        },
    }
}

/// A field holding `t`, with the cursor at its end.
pub open spec fn filled(t: Seq<char>) -> InputView {
    InputView { text: t, cursor: t.len() }
}

/// A one-line text field with a cursor.
#[derive(Debug)]
pub struct InputField {
    chars: Vec<char>,
    buffer: String,
    cursor: usize,
}

impl View for InputField {
    type V = InputView;

    closed spec fn view(&self) -> InputView {
        InputView { text: self.chars@, cursor: self.cursor as nat }
    }
}

impl InputField {
    #[verifier::type_invariant]
    closed spec fn well_formed(&self) -> bool {
        &&& self.buffer@ == self.chars@
        &&& self.cursor <= self.chars@.len()
    }

    fn from_parts(chars: Vec<char>, cursor: usize) -> (f: Self)
        requires
            cursor <= chars@.len(),
        ensures
            f@ == (InputView { text: chars@, cursor: cursor as nat }),
    {
        let buffer = string_of(&chars);
        InputField { chars, buffer, cursor }
    }

    pub fn new() -> (f: Self)
        ensures
            f@ == (InputView { text: Seq::empty(), cursor: 0 }),
    {
        Self::from_parts(Vec::new(), 0)
    }

    /// The text typed so far.
    pub fn text(&self) -> (r: &str)
        ensures
            r@ == self@.text,
    {
        proof {
            use_type_invariant(self);
        }
        self.buffer.as_str()
    }

    /// Byte offset of the cursor in the UTF-8 text.
    pub fn cursor_pos(&self) -> (r: usize)
        ensures
            r == encode_utf8(self@.text.take(self@.cursor as int)).len() as usize,
    {
        proof {
            use_type_invariant(self);
        }
        let mut prefix: Vec<char> = Vec::new();
        let mut i: usize = 0;
        while i < self.cursor
            invariant
                i <= self.cursor <= self.chars@.len(),
                prefix@ == self.chars@.take(i as int),
            decreases self.cursor - i,
        {
            prefix.push(self.chars[i]);
            i += 1;
            assert(prefix@ =~= self.chars@.take(i as int));
        }
        let s = string_of(&prefix);
        s.as_str().len()
    }

    /// Empties the field.
    pub fn clear(&mut self)
        ensures
            final(self)@ == (InputView { text: Seq::empty(), cursor: 0 }),
    {
        *self = Self::from_parts(Vec::new(), 0);
    }

    /// Inserts `ch` at the cursor and moves past it.
    pub fn insert_char(&mut self, ch: char)
        ensures
            final(self)@ == (InputView {
                text: old(self)@.text.insert(old(self)@.cursor as int, ch),
                cursor: old(self)@.cursor + 1,
            }),
    {
        proof {
            use_type_invariant(&*self);
        }
        let mut chars = crate::text::copy_chars(&self.chars);
        let cursor = self.cursor;
        chars.insert(cursor, ch);
        let n = chars.len();
        assert(cursor < n);
        *self = Self::from_parts(chars, cursor + 1);
    }

    /// Deletes the character before the cursor (backspace).
    pub fn delete_char_before(&mut self)
        ensures
            old(self)@.cursor == 0 ==> final(self)@ == old(self)@,
            old(self)@.cursor > 0 ==> final(self)@ == (InputView {
                text: old(self)@.text.remove(old(self)@.cursor - 1),
                cursor: (old(self)@.cursor - 1) as nat,
            }),
    {
        proof {
            use_type_invariant(&*self);
        }
        if self.cursor == 0 {
            return;
        }
        let mut chars = crate::text::copy_chars(&self.chars);
        let idx = self.cursor - 1;
        chars.remove(idx);
        *self = Self::from_parts(chars, idx);
    }

    /// Deletes the character under the cursor.
    pub fn delete_char_at(&mut self)
        ensures
            old(self)@.cursor >= old(self)@.text.len() ==> final(self)@ == old(self)@,
            old(self)@.cursor < old(self)@.text.len() ==> final(self)@ == (InputView {
                text: old(self)@.text.remove(old(self)@.cursor as int),
                cursor: old(self)@.cursor,
            }),
    {
        proof {
            use_type_invariant(&*self);
        }
        if self.cursor >= self.chars.len() {
            return;
        }
        let mut chars = crate::text::copy_chars(&self.chars);
        let cursor = self.cursor;
        chars.remove(cursor);
        *self = Self::from_parts(chars, cursor);
    }

    fn with_cursor(&mut self, cursor: usize)
        requires
            cursor <= old(self)@.text.len(),
        ensures
            final(self)@ == (InputView { text: old(self)@.text, cursor: cursor as nat }),
    {
        proof {
            use_type_invariant(&*self);
        }
        let chars = crate::text::copy_chars(&self.chars);
        *self = Self::from_parts(chars, cursor);
    }

    /// Moves the cursor one character left.
    pub fn move_left(&mut self)
        ensures
            final(self)@ == (InputView {
                text: old(self)@.text,
                cursor: if old(self)@.cursor == 0 {
                    0
                } else {
                    (old(self)@.cursor - 1) as nat
                },
            }),
    {
        proof {
            use_type_invariant(&*self);
        }
        if self.cursor == 0 {
            return;
        }
        let c = self.cursor - 1;
        self.with_cursor(c);
    }

    /// Moves the cursor one character right.
    pub fn move_right(&mut self)
        ensures
            final(self)@ == (InputView {
                text: old(self)@.text,
                cursor: if old(self)@.cursor >= old(self)@.text.len() {
                    old(self)@.cursor
                } else {
                    old(self)@.cursor + 1
                },
            }),
    {
        proof {
            use_type_invariant(&*self);
        }
        if self.cursor >= self.chars.len() {
            return;
        }
        let c = self.cursor + 1;
        self.with_cursor(c);
    }

    /// Moves the cursor to the start of the text.
    pub fn move_to_start(&mut self)
        ensures
            final(self)@ == (InputView { text: old(self)@.text, cursor: 0 }),
    {
        self.with_cursor(0);
    }

    /// Moves the cursor to the end of the text.
    pub fn move_to_end(&mut self)
        ensures
            final(self)@ == (InputView { text: old(self)@.text, cursor: old(self)@.text.len() }),
    {
        proof {
            use_type_invariant(&*self);
        }
        let n = self.chars.len();
        self.with_cursor(n);
    }

    /// Deletes everything from the cursor to the end.
    pub fn kill_to_end(&mut self)
        ensures
            final(self)@ == (InputView {
                text: old(self)@.text.take(old(self)@.cursor as int),
                cursor: old(self)@.cursor,
            }),
    {
        proof {
            use_type_invariant(&*self);
        }
        let mut chars = crate::text::copy_chars(&self.chars);
        let cursor = self.cursor;
        chars.truncate(cursor);
        assert(chars@ =~= old(self)@.text.take(cursor as int));
        *self = Self::from_parts(chars, cursor);
    }

    /// Deletes backwards from the cursor over separators, then over one word.
    pub fn kill_word_backward(&mut self)
        ensures
            old(self)@.cursor == 0 ==> final(self)@ == old(self)@,
            old(self)@.cursor > 0 ==> final(self)@ == (InputView {
                text: old(self)@.text.take(word_kill_start(old(self)@.text, old(self)@.cursor as int))
                    + old(self)@.text.skip(old(self)@.cursor as int),
                cursor: word_kill_start(old(self)@.text, old(self)@.cursor as int) as nat,
            }),
    {
        proof {
            use_type_invariant(&*self);
        }
        if self.cursor == 0 {
            return;
        }
        let ghost t = self.chars@;
        let mut pos = self.cursor;
        while pos > 0 && !ascii_alnum(self.chars[pos - 1])
            invariant
                pos <= self.cursor <= self.chars@.len(),
                t == self.chars@,
                back_over_separators(t, pos as int) == back_over_separators(t, self.cursor as int),
            decreases pos,
        {
            pos -= 1;
        }
        let ghost mid = pos;
        while pos > 0 && ascii_alnum(self.chars[pos - 1])
            invariant
                pos <= mid <= self.chars@.len(),
                t == self.chars@,
                mid == back_over_separators(t, self.cursor as int),
                back_over_word(t, pos as int) == back_over_word(t, mid as int),
            decreases pos,
        {
            pos -= 1;
        }
        let mut chars: Vec<char> = Vec::new();
        let mut i: usize = 0;
        while i < pos
            invariant
                i <= pos <= self.chars@.len(),
                t == self.chars@,
                chars@ == t.take(i as int),
            decreases pos - i,
        {
            chars.push(self.chars[i]);
            i += 1;
            assert(chars@ =~= t.take(i as int));
        }
        let mut j: usize = self.cursor;
        while j < self.chars.len()
            invariant
                pos <= self.cursor <= j <= self.chars@.len(),
                t == self.chars@,
                chars@ == t.take(pos as int) + t.subrange(self.cursor as int, j as int),
            decreases self.chars.len() - j,
        {
            chars.push(self.chars[j]);
            j += 1;
            assert(chars@ =~= t.take(pos as int) + t.subrange(self.cursor as int, j as int));
        }
        assert(chars@ =~= t.take(pos as int) + t.skip(self.cursor as int));
        *self = Self::from_parts(chars, pos);
    }

    /// Writes the field into `writer`: the placeholder, dimmed, when the field
    /// is empty; otherwise the text with the cursor shown.
    pub fn render(&self, writer: &mut SegmentWriter, placeholder: &str, _width: usize, colors: bool)
        ensures
            final(writer)@ == old(writer)@.push(
                if self@.text.len() == 0 {
                    SegmentView::Text { content: placeholder@, style: ansi::DIM@ }
                } else {
                    SegmentView::Text {
                        content: drawn_input(self@.text, self@.cursor, colors),
                        style: Seq::empty(),
                    }
                },
            ),
    {
        proof {
            use_type_invariant(self);
        }
        if self.chars.len() == 0 {
            writer.write_dim(placeholder);
            return;
        }
        let mut buf = String::new();
        let mut i: usize = 0;
        while i < self.chars.len()
            invariant
                i <= self.chars@.len(),
                buf@ == drawn_upto(self.chars@, self.cursor as nat, colors, i as int),
            decreases self.chars.len() - i,
        {
            let ghost before = buf@;
            if i == self.cursor && colors {
                buf.append(ansi::REVERSE);
                buf.push(self.chars[i]);
                buf.append(ansi::REVERSE_OFF);
            } else {
                buf.push(self.chars[i]);
            }
            assert(buf@ =~= drawn_upto(self.chars@, self.cursor as nat, colors, i + 1));
            i += 1;
        }
        if self.cursor == self.chars.len() {
            if colors {
                buf.append(ansi::REVERSE);
            }
            buf.push(' ');
            if colors {
                buf.append(ansi::REVERSE_OFF);
            }
        }
        assert(buf@ =~= drawn_input(self.chars@, self.cursor as nat, colors));
        proof {
            reveal_strlit("");
        }
        assert(""@ =~= Seq::<char>::empty());
        writer.write(buf.as_str(), "");
    }
}


impl Default for InputField {
    fn default() -> (f: Self)
        ensures
            f@ == (InputView { text: Seq::empty(), cursor: 0 }),
    {
        InputField::new()
    }
}

impl InputField {
    /// Applies `e`.
    pub fn apply(&mut self, e: Edit)
        ensures
            final(self)@ == edited(old(self)@, e),
    {
        match e {
            Edit::Insert(ch) => self.insert_char(ch),
            Edit::DeleteBefore => self.delete_char_before(),
            Edit::DeleteAt => self.delete_char_at(),
            Edit::Left => self.move_left(),
            Edit::Right => self.move_right(),
            Edit::Start => self.move_to_start(),
            Edit::End => self.move_to_end(),
            Edit::KillToEnd => self.kill_to_end(),
            Edit::KillWord => self.kill_word_backward(),
        }
    }

    /// A field holding `text`, typed in one character at a time, so that the
    /// cursor ends after it.
    pub fn prefilled(text: &str) -> (f: Self)
        ensures
            f@ == filled(text@),
    {
        let cs = crate::text::chars_of(text);
        let mut f = InputField::new();
        let mut i: usize = 0;
        assert(cs@.take(0) =~= Seq::<char>::empty());
        while i < cs.len()
            invariant
                i <= cs@.len(),
                f@ == filled(cs@.take(i as int)),
            decreases cs@.len() - i,
        {
            f.insert_char(cs[i]);
            assert(cs@.take(i as int).insert(i as int, cs@[i as int]) =~= cs@.take(i + 1));
            i += 1;
        }
        assert(cs@.take(cs@.len() as int) =~= cs@);
        f
    }
}

} // verus!
