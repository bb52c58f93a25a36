//! The interactive selector: its state, what each key does to it, and the
//! screens it draws. Reading keys, listing the tries directory, scoring
//! matches and writing frames happen outside; they hand their results in.
use vstd::prelude::*;
use vstd::string::StringExecFns;
use crate::input_field::{InputField, InputView, Edit, edited, filled};
use crate::text::{is_ascii_alnum, is_white, dashed, trimmed, dash_words, trim_white, has_char, chars_of};
use crate::naming::{dated, versioned_from, resolved};
use crate::tokens::expansion_of;
use crate::paths::{path_joined, parent_or_dot, join_path, path_exists, parent_or_current};
use crate::keys::KeyInput;
use crate::layout::{Screen, SegmentView, LineView};
use crate::commands::{Key, KeyPress, Command, DialogKind, DialogCommand, browse_command, dialog_command, command_of, dialog_command_of};

verus! {

/// A try directory as the selector shows it.
pub struct TryEntry {
    pub name: String,
    pub path: String,
    pub is_symlink: bool,
    pub mtime: std::time::SystemTime,
    pub date_prefix: Option<String>,
}

/// An entry that matched the query: where the query's characters fall in its
/// name, and its score as the selector prints it.
pub struct MatchRow {
    pub data: TryEntry,
    pub positions: Vec<usize>,
    pub score_text: String,
}

/// What a row holds.
pub struct RowView {
    pub name: Seq<char>,
    pub path: Seq<char>,
    pub is_symlink: bool,
    pub date_prefix: Option<Seq<char>>,
    pub positions: Seq<usize>,
    pub score_text: Seq<char>,
}

impl View for MatchRow {
    type V = RowView;

    open spec fn view(&self) -> RowView {
        RowView {
            name: self.data.name@,
            path: self.data.path@,
            is_symlink: self.data.is_symlink,
            date_prefix: match self.data.date_prefix {
                Some(p) => Some(p@),
                None => None,
            },
            positions: self.positions@,
            score_text: self.score_text@,
        }
    }
}

/// Options for scripted runs: no alternate screen, and keys to replay.
#[derive(Debug, Clone)]
pub struct TestFlags {
    pub test_no_cls: bool,
    pub test_keys: Vec<KeyInput>,
}

impl Default for TestFlags {
    fn default() -> (r: Self)
        ensures
            !r.test_no_cls,
            r.test_keys@.len() == 0,
    {
        TestFlags { test_no_cls: false, test_keys: Vec::new() }
    }
}

/// How the selector ended: the shell commands to emit depend on it.
#[derive(Debug, Clone, PartialEq)]
pub enum SelectionResult {
    Cd(String),
    Mkdir(String),
    Delete(Vec<String>),
    Rename(String, String),
    Ascend(String, String),
    Cancelled,
}

/// The key press that a scripted key stands for.
pub open spec fn key_of_input(k: KeyInput) -> KeyPress {
    match k {
        KeyInput::Up => KeyPress { key: Key::Up, ctrl: false },
        KeyInput::Down => KeyPress { key: Key::Down, ctrl: false },
        KeyInput::Left => KeyPress { key: Key::Left, ctrl: false },
        KeyInput::Right => KeyPress { key: Key::Right, ctrl: false },
        KeyInput::Enter => KeyPress { key: Key::Enter, ctrl: false },
        KeyInput::Escape => KeyPress { key: Key::Esc, ctrl: false },
        KeyInput::Backspace => KeyPress { key: Key::Backspace, ctrl: false },
        KeyInput::CtrlA => KeyPress { key: Key::Char('a'), ctrl: true },
        KeyInput::CtrlB => KeyPress { key: Key::Char('b'), ctrl: true },
        KeyInput::CtrlC => KeyPress { key: Key::Char('c'), ctrl: true },
        KeyInput::CtrlD => KeyPress { key: Key::Char('d'), ctrl: true },
        KeyInput::CtrlE => KeyPress { key: Key::Char('e'), ctrl: true },
        KeyInput::CtrlF => KeyPress { key: Key::Char('f'), ctrl: true },
        KeyInput::CtrlG => KeyPress { key: Key::Char('g'), ctrl: true },
        KeyInput::CtrlJ => KeyPress { key: Key::Char('j'), ctrl: true },
        KeyInput::CtrlK => KeyPress { key: Key::Char('k'), ctrl: true },
        KeyInput::CtrlN => KeyPress { key: Key::Char('n'), ctrl: true },
        KeyInput::CtrlP => KeyPress { key: Key::Char('p'), ctrl: true },
        KeyInput::CtrlR => KeyPress { key: Key::Char('r'), ctrl: true },
        KeyInput::CtrlT => KeyPress { key: Key::Char('t'), ctrl: true },
        KeyInput::CtrlW => KeyPress { key: Key::Char('w'), ctrl: true },
        KeyInput::Char(c) => KeyPress { key: Key::Char(c), ctrl: false },
    }
}

/// The key press that a scripted key stands for.
pub fn key_event_from_test_input(k: KeyInput) -> (r: KeyPress)
    ensures
        r == key_of_input(k),
{
    match k {
        KeyInput::Up => KeyPress { key: Key::Up, ctrl: false },
        KeyInput::Down => KeyPress { key: Key::Down, ctrl: false },
        KeyInput::Left => KeyPress { key: Key::Left, ctrl: false },
        KeyInput::Right => KeyPress { key: Key::Right, ctrl: false },
        KeyInput::Enter => KeyPress { key: Key::Enter, ctrl: false },
        KeyInput::Escape => KeyPress { key: Key::Esc, ctrl: false },
        KeyInput::Backspace => KeyPress { key: Key::Backspace, ctrl: false },
        KeyInput::CtrlA => KeyPress { key: Key::Char('a'), ctrl: true },
        KeyInput::CtrlB => KeyPress { key: Key::Char('b'), ctrl: true },
        KeyInput::CtrlC => KeyPress { key: Key::Char('c'), ctrl: true },
        KeyInput::CtrlD => KeyPress { key: Key::Char('d'), ctrl: true },
        KeyInput::CtrlE => KeyPress { key: Key::Char('e'), ctrl: true },
        KeyInput::CtrlF => KeyPress { key: Key::Char('f'), ctrl: true },
        KeyInput::CtrlG => KeyPress { key: Key::Char('g'), ctrl: true },
        KeyInput::CtrlJ => KeyPress { key: Key::Char('j'), ctrl: true },
        KeyInput::CtrlK => KeyPress { key: Key::Char('k'), ctrl: true },
        KeyInput::CtrlN => KeyPress { key: Key::Char('n'), ctrl: true },
        KeyInput::CtrlP => KeyPress { key: Key::Char('p'), ctrl: true },
        KeyInput::CtrlR => KeyPress { key: Key::Char('r'), ctrl: true },
        KeyInput::CtrlT => KeyPress { key: Key::Char('t'), ctrl: true },
        KeyInput::CtrlW => KeyPress { key: Key::Char('w'), ctrl: true },
        KeyInput::Char(c) => KeyPress { key: Key::Char(c), ctrl: false },
    }
}

// ---------------------------------------------------------------------------
// Scrolling
// ---------------------------------------------------------------------------

/// `a` if it is smaller than `b`, else `b`.
pub open spec fn min_nat(a: nat, b: nat) -> nat {
    if a < b {
        a
    } else {
        b
    }
}

/// Rows left for the list between the header and the footer.
pub open spec fn list_height(height: nat, header_max: nat, footer_max: nat) -> nat {
    let header = min_nat(header_max, height);
    let footer = min_nat(footer_max, crate::layout::sat_sub(height as int, header as int));
    crate::layout::sat_sub(height as int, (header + footer) as int)
}

/// The scroll offset that keeps the cursor in view: scrolled up to the
/// cursor, or down so that it is the last visible row, and never past the
/// point where the last row reaches the bottom.
pub open spec fn scrolled(cursor: nat, scroll: nat, visible: nat, len: nat) -> nat {
    let s = if cursor < scroll {
        cursor
    } else if visible > 0 && cursor >= scroll + visible {
        (cursor - visible + 1) as nat
    } else {
        scroll
    };
    min_nat(s, crate::layout::sat_sub(len as int, visible as int))
}

/// The dialog open over the list, if any, with what it holds.
pub enum Dialog {
    Closed,
    Confirm { field: InputField },
    Rename { field: InputField, current_name: String, old_path: String, error: Option<String> },
    Graduate {
        field: InputField,
        current_name: String,
        src_path: String,
        projects_dir: String,
        from_env: bool,
    },
}

/// The selector over the tries directory.
pub struct TrySelector {
    pub tries: Vec<MatchRow>,
    pub cursor_pos: usize,
    pub scroll_offset: usize,
    pub input_field: InputField,
    pub screen: Screen,
    pub try_path: String,
    pub projects_env: Option<String>,
    pub needs_redraw: bool,
    pub test_no_cls: bool,
    pub delete_mode: bool,
    pub marked_for_delete: Vec<String>,
    pub test_keys: Vec<KeyInput>,
    pub dialog: Dialog,
}

/// No path is marked twice.
pub open spec fn distinct(marks: Seq<String>) -> bool {
    forall|i: int, j: int| 0 <= i < j < marks.len() ==> (#[trigger] marks[i])@ != (#[trigger] marks[j])@
}

/// The paths marked for deletion, as a set.
pub open spec fn mark_set(marks: Seq<String>) -> Set<Seq<char>> {
    Set::new(|p: Seq<char>| exists|i: int| 0 <= i < marks.len() && (#[trigger] marks[i])@ == p)
}

impl TrySelector {
    /// The selector's own rules: no path is marked twice.
    pub open spec fn wf(&self) -> bool {
        distinct(self.marked_for_delete@)
    }

    /// Rows that the list shows between the header and the footer.
    pub open spec fn visible_rows(&self) -> nat {
        list_height(self.screen.height as nat, self.screen.header.max_lines as nat, self.screen.footer.max_lines as nat)
    }

    /// A selector over `tries`, the matches of the empty query, in a screen of
    /// `width` by `height`; `projects_env` is the value of `TRY_PROJECTS`.
    pub fn new(
        try_path: &str,
        tries: Vec<MatchRow>,
        width: u16,
        height: u16,
        projects_env: Option<String>,
        test_flags: TestFlags,
    ) -> (s: Self)
        ensures
            s.wf(),
            s.tries@ == tries@,
            s.cursor_pos == 0,
            s.scroll_offset == 0,
            s.input_field@.text.len() == 0,
            s.screen.width == width,
            s.screen.height == height,
            s.screen.header.max_lines == 2,
            s.screen.footer.max_lines == 1,
            s.try_path@ == try_path@,
            s.needs_redraw,
            s.test_no_cls == test_flags.test_no_cls,
            !s.delete_mode,
            s.marked_for_delete@.len() == 0,
            s.test_keys@ == test_flags.test_keys@,
            s.dialog is Closed,
    {
        TrySelector {
            tries,
            cursor_pos: 0,
            scroll_offset: 0,
            input_field: InputField::new(),
            screen: Screen::new(width, height, 2, 1),
            try_path: String::from_str(try_path),
            projects_env,
            needs_redraw: true,
            test_no_cls: test_flags.test_no_cls,
            delete_mode: false,
            marked_for_delete: Vec::new(),
            test_keys: test_flags.test_keys,
            dialog: Dialog::Closed,
        }
    }

    /// The next scripted key, if any is left; it is taken off the queue.
    pub fn next_test_key(&mut self) -> (r: Option<KeyPress>)
        ensures
            old(self).test_keys@.len() == 0 ==> r is None && final(self).test_keys@.len() == 0,
            old(self).test_keys@.len() > 0 ==> r == Some(key_of_input(old(self).test_keys@[0]))
                && final(self).test_keys@ == old(self).test_keys@.skip(1),
            final(self).tries@ == old(self).tries@,
            final(self).cursor_pos == old(self).cursor_pos,
            final(self).marked_for_delete@ == old(self).marked_for_delete@,
    {
        if self.test_keys.len() == 0 {
            return None;
        }
        let k = self.test_keys.remove(0);
        assert(self.test_keys@ =~= old(self).test_keys@.skip(1));
        Some(key_event_from_test_input(k))
    }

    /// Rows that the list shows between the header and the footer.
    pub fn body_height(&self) -> (r: usize)
        ensures
            r == self.visible_rows(),
    {
        let total = self.screen.height as usize;
        let header = if self.screen.header.max_lines < total {
            self.screen.header.max_lines
        } else {
            total
        };
        let rest = total - header;
        let footer = if self.screen.footer.max_lines < rest {
            self.screen.footer.max_lines
        } else {
            rest
        };
        total - (header + footer)
    }

    /// The scroll offset that keeps row `cursor` in view.
    fn scroll_for(&self, cursor: usize) -> (r: usize)
        ensures
            r == scrolled(cursor as nat, self.scroll_offset as nat, self.visible_rows(), self.tries@.len()),
            r <= self.tries@.len(),
    {
        let visible_height = self.body_height();
        let mut s = self.scroll_offset;
        if cursor < s {
            s = cursor;
        } else if visible_height > 0 && cursor - s >= visible_height {
            s = cursor - visible_height + 1;
        }
        let max_offset = if self.tries.len() > visible_height {
            self.tries.len() - visible_height
        } else {
            0
        };
        if s > max_offset {
            s = max_offset;
        }
        s
    }

    /// Scrolls so that the cursor is in view.
    pub fn adjust_scroll(&mut self)
        ensures
            final(self).scroll_offset == scrolled(
                old(self).cursor_pos as nat,
                old(self).scroll_offset as nat,
                old(self).visible_rows(),
                old(self).tries@.len(),
            ),
            final(self).scroll_offset <= old(self).tries@.len(),
            final(self).cursor_pos == old(self).cursor_pos,
            final(self).tries@ == old(self).tries@,
            final(self).screen == old(self).screen,
            final(self).input_field@ == old(self).input_field@,
            final(self).marked_for_delete@ == old(self).marked_for_delete@,
            final(self).delete_mode == old(self).delete_mode,
            final(self).test_keys@ == old(self).test_keys@,
            final(self).try_path@ == old(self).try_path@,
            final(self).needs_redraw == old(self).needs_redraw,
            final(self).dialog == old(self).dialog,
            final(self).projects_env == old(self).projects_env,
            final(self).test_no_cls == old(self).test_no_cls,
    {
        self.scroll_offset = self.scroll_for(self.cursor_pos);
    }
}


// ---------------------------------------------------------------------------
// What keys do
// ---------------------------------------------------------------------------

/// What the selector asks of its caller after a key.
#[derive(Debug, Clone, PartialEq)]
pub enum KeyOutcome {
    /// Draw again and wait for the next key.
    Continue,
    /// The query changed: list the tries again, match them against the new
    /// query, hand the matches to `apply_filter`, then draw again.
    Refilter,
    /// Ask for a name on the terminal and hand it to `create_from_prompt`.
    PromptName,
    /// The selection is over.
    Exit(SelectionResult),
}

/// `p` is a path for a new try under `try_path` made from `base`: a date, a
/// dash and a version of `base` (see `versioned_from`) joined to it.
pub open spec fn dated_try(try_path: Seq<char>, base: Seq<char>, p: Seq<char>) -> bool {
    exists|date: Seq<char>, name: Seq<char>|
        #![trigger dated(date, name)]
        versioned_from(base, name) && p == path_joined(try_path, dated(date, name))
}

/// `p` is a path for a new try under `try_path` named `name`: its tokens
/// expanded, then dated and versioned as `dated_try` says.
pub open spec fn new_try_path(try_path: Seq<char>, name: Seq<char>, p: Seq<char>) -> bool {
    exists|e: Seq<char>| #[trigger] expansion_of(name, e) && dated_try(try_path, e, p)
}

/// The outcome of creating a try named `name`: a new directory under the
/// tries path, or, when no free name is left, nothing.
pub open spec fn creates_try(try_path: Seq<char>, name: Seq<char>, out: KeyOutcome) -> bool {
    match out {
        KeyOutcome::Exit(SelectionResult::Mkdir(p)) => new_try_path(try_path, name, p@),
        KeyOutcome::Continue => true,
        _ => false,
    }
}

/// Which dialog is open, if any.
pub open spec fn dialog_kind(d: Dialog) -> Option<DialogKind> {
    match d {
        Dialog::Closed => None,
        Dialog::Confirm { .. } => Some(DialogKind::Confirm),
        Dialog::Rename { .. } => Some(DialogKind::Rename),
        Dialog::Graduate { .. } => Some(DialogKind::Graduate),
    }
}

/// The field of an open dialog.
pub open spec fn dialog_field(d: Dialog) -> InputView {
    match d {
        Dialog::Closed => InputView { text: Seq::empty(), cursor: 0 },
        Dialog::Confirm { field } => field@,
        Dialog::Rename { field, .. } => field@,
        Dialog::Graduate { field, .. } => field@,
    }
}

/// The error shown in the rename dialog.
pub open spec fn dialog_error(d: Dialog) -> Option<Seq<char>> {
    match d {
        Dialog::Rename { error, .. } => match error {
            Some(e) => Some(e@),
            None => None,
        },
        _ => None,
    }
}

/// `b` is the dialog `a` with its field and error replaced, and nothing else.
pub open spec fn same_dialog_but(a: Dialog, b: Dialog, field: InputView, error: Option<Seq<char>>) -> bool {
    match (a, b) {
        (Dialog::Confirm { .. }, Dialog::Confirm { field: f }) => f@ == field,
        (
            Dialog::Rename { current_name: n1, old_path: p1, .. },
            Dialog::Rename { field: f, current_name: n2, old_path: p2, error: e },
        ) => f@ == field && n2@ == n1@ && p2@ == p1@ && match e {
            Some(x) => error == Some(x@),
            None => error is None,
        },
        (
            Dialog::Graduate { current_name: n1, src_path: s1, projects_dir: d1, from_env: v1, .. },
            Dialog::Graduate { field: f, current_name: n2, src_path: s2, projects_dir: d2, from_env: v2 },
        ) => f@ == field && n2@ == n1@ && s2@ == s1@ && d2@ == d1@ && v2 == v1,
        _ => false,
    }
}

/// Everything but the cursor, the scroll offset, the query, the marks and the
/// dialog is as before; the screen will be drawn again.
pub open spec fn keeps_list(a: TrySelector, b: TrySelector) -> bool {
    &&& b.tries@ == a.tries@
    &&& b.screen == a.screen
    &&& b.try_path@ == a.try_path@
    &&& b.projects_env == a.projects_env
    &&& b.test_no_cls == a.test_no_cls
    &&& b.test_keys@ == a.test_keys@
    &&& b.needs_redraw
}

/// The cursor and the scroll offset are as before.
pub open spec fn keeps_cursor(a: TrySelector, b: TrySelector) -> bool {
    b.cursor_pos == a.cursor_pos && b.scroll_offset == a.scroll_offset
}

/// The marks and the delete mode are as before.
pub open spec fn keeps_marks(a: TrySelector, b: TrySelector) -> bool {
    b.marked_for_delete@ == a.marked_for_delete@ && b.delete_mode == a.delete_mode
}

/// The cursor moved up one row, if it could, scrolling to stay in view.
pub open spec fn cursor_went_up(a: TrySelector, b: TrySelector) -> bool {
    if a.cursor_pos > 0 {
        b.cursor_pos == a.cursor_pos - 1 && b.scroll_offset == scrolled(
            (a.cursor_pos - 1) as nat,
            a.scroll_offset as nat,
            a.visible_rows(),
            a.tries@.len(),
        )
    } else {
        keeps_cursor(a, b)
    }
}

/// The cursor moved down one row, if there is one, scrolling to stay in view.
pub open spec fn cursor_went_down(a: TrySelector, b: TrySelector) -> bool {
    if a.cursor_pos + 1 < a.tries@.len() {
        b.cursor_pos == a.cursor_pos + 1 && b.scroll_offset == scrolled(
            (a.cursor_pos + 1) as nat,
            a.scroll_offset as nat,
            a.visible_rows(),
            a.tries@.len(),
        )
    } else {
        keeps_cursor(a, b)
    }
}

/// The name a graduated try takes: its name without the date prefix and the
/// dash after it, when it has both.
pub open spec fn undated_name(name: Seq<char>, date_prefix: Option<Seq<char>>) -> Seq<char> {
    match date_prefix {
        Some(p) => if crate::text::starts_with(name, p) && name.len() > p.len() && name[p.len() as int]
            == '-' {
            name.skip(p.len() + 1int)
        } else {
            name
        },
        None => name,
    }
}

/// Where graduated tries go: `TRY_PROJECTS`, else the parent of the tries
/// path, else `.`.
pub open spec fn projects_dir_of(projects_env: Option<String>, try_path: Seq<char>) -> Seq<char> {
    match projects_env {
        Some(d) => d@,
        None => parent_or_dot(try_path),
    }
}

/// The marks, after toggling `p`: removed when it was marked, else added.
pub open spec fn toggled(marks: Set<Seq<char>>, p: Seq<char>) -> Set<Seq<char>> {
    if marks.contains(p) {
        marks.remove(p)
    } else {
        marks.insert(p)
    }
}

/// What a key does with no dialog open: `a` before, `b` after, `out` what
/// the caller is asked.
pub open spec fn browse_step(a: TrySelector, b: TrySelector, k: KeyPress, out: KeyOutcome) -> bool {
    let text = a.input_field@.text;
    let len = a.tries@.len();
    let cursor = a.cursor_pos as int;
    let closed = b.dialog is Closed;
    match browse_command(k) {
        Command::Up => keeps_list(a, b) && cursor_went_up(a, b) && b.input_field@ == a.input_field@
            && keeps_marks(a, b) && closed && out == KeyOutcome::Continue,
        Command::Down => keeps_list(a, b) && cursor_went_down(a, b) && b.input_field@ == a.input_field@
            && keeps_marks(a, b) && closed && out == KeyOutcome::Continue,
        Command::Select => keeps_list(a, b) && keeps_cursor(a, b) && b.input_field@ == a.input_field@
            && keeps_marks(a, b) && if a.delete_mode && a.marked_for_delete@.len() > 0 {
            b.dialog is Confirm && dialog_field(b.dialog) == (InputView { text: Seq::empty(), cursor: 0 })
                && out == KeyOutcome::Continue
        } else if cursor < len {
            closed && (out matches KeyOutcome::Exit(SelectionResult::Cd(p)) && p@ == a.tries@[cursor]@.path)
        } else if text.len() > 0 {
            closed && creates_try(a.try_path@, text, out)
        } else {
            closed && out == KeyOutcome::Continue
        },
        Command::Cancel => keeps_list(a, b) && keeps_cursor(a, b) && b.input_field@ == a.input_field@
            && closed && if a.delete_mode {
            !b.delete_mode && b.marked_for_delete@.len() == 0 && out == KeyOutcome::Continue
        } else {
            keeps_marks(a, b) && out == KeyOutcome::Exit(SelectionResult::Cancelled)
        },
        Command::Type(e) => keeps_list(a, b) && keeps_cursor(a, b) && keeps_marks(a, b) && closed
            && b.input_field@ == edited(a.input_field@, e) && out == KeyOutcome::Refilter,
        Command::Move(e) => keeps_list(a, b) && keeps_cursor(a, b) && keeps_marks(a, b) && closed
            && b.input_field@ == edited(a.input_field@, e) && out == KeyOutcome::Continue,
        Command::CreateNew => keeps_list(a, b) && keeps_cursor(a, b) && keeps_marks(a, b) && closed
            && b.input_field@ == a.input_field@ && if text.len() == 0 {
            out == KeyOutcome::PromptName
        } else {
            creates_try(a.try_path@, text, out)
        },
        Command::ToggleMark => keeps_list(a, b) && keeps_cursor(a, b) && b.input_field@ == a.input_field@
            && closed && out == KeyOutcome::Continue && if !a.delete_mode {
            b.delete_mode && b.marked_for_delete@ == a.marked_for_delete@
        } else if cursor < len {
            let marks = toggled(mark_set(a.marked_for_delete@), a.tries@[cursor]@.path);
            mark_set(b.marked_for_delete@) == marks && b.delete_mode == !marks.is_empty()
        } else {
            keeps_marks(a, b)
        },
        Command::Rename => keeps_list(a, b) && keeps_cursor(a, b) && b.input_field@ == a.input_field@
            && keeps_marks(a, b) && out == KeyOutcome::Continue && if cursor < len {
            (b.dialog matches Dialog::Rename { field, current_name, old_path, error } && field@ == filled(
                a.tries@[cursor]@.name,
            ) && current_name@ == a.tries@[cursor]@.name && old_path@ == a.tries@[cursor]@.path
                && error is None)
        } else {
            closed
        },
        Command::Graduate => keeps_list(a, b) && keeps_cursor(a, b) && b.input_field@ == a.input_field@
            && keeps_marks(a, b) && out == KeyOutcome::Continue && if cursor < len {
            let row = a.tries@[cursor]@;
            let dir = projects_dir_of(a.projects_env, a.try_path@);
            (b.dialog matches Dialog::Graduate { field, current_name, src_path, projects_dir, from_env }
                && field@ == filled(dir + "/"@ + undated_name(row.name, row.date_prefix))
                && current_name@ == row.name && src_path@ == row.path && projects_dir@ == dir && from_env
                == a.projects_env is Some)
        } else {
            closed
        },
        Command::Nothing => keeps_list(a, b) && keeps_cursor(a, b) && b.input_field@ == a.input_field@
            && keeps_marks(a, b) && closed && out == KeyOutcome::Continue,
    }
}

/// What a key does with a dialog open, given whether the directory that a
/// submitted new name would take exists: `a` before, `b` after, `out` what the
/// caller is asked.
pub open spec fn dialog_step_with(
    a: TrySelector,
    b: TrySelector,
    k: KeyPress,
    out: KeyOutcome,
    target_exists: bool,
) -> bool {
    let kind = dialog_kind(a.dialog)->0;
    let field = dialog_field(a.dialog);
    &&& keeps_list(a, b)
    &&& keeps_cursor(a, b)
    &&& keeps_marks(a, b)
    &&& b.input_field@ == a.input_field@
    &&& match dialog_command(kind, k) {
        DialogCommand::Nothing => same_dialog_but(a.dialog, b.dialog, field, dialog_error(a.dialog)) && out
            == KeyOutcome::Continue,
        DialogCommand::Change(e, clears) => same_dialog_but(
            a.dialog,
            b.dialog,
            edited(field, e),
            if clears {
                None
            } else {
                dialog_error(a.dialog)
            },
        ) && out == KeyOutcome::Continue,
        DialogCommand::Cancel => b.dialog is Closed && out == KeyOutcome::Continue,
        DialogCommand::Submit => match a.dialog {
            Dialog::Confirm { .. } => b.dialog is Closed && if field.text == "YES"@ {
                (out matches KeyOutcome::Exit(SelectionResult::Delete(paths)) && paths@.map_values(
                    |p: String| p@,
                ) == a.marked_for_delete@.map_values(|p: String| p@))
            } else {
                out == KeyOutcome::Continue
            },
            Dialog::Rename { current_name, old_path, .. } => {
                let name = dashed(field.text);
                if name.len() == 0 {
                    same_dialog_but(a.dialog, b.dialog, field, Some("Name cannot be empty"@)) && out
                        == KeyOutcome::Continue
                } else if name.contains('/') {
                    same_dialog_but(a.dialog, b.dialog, field, Some("Name cannot contain /"@)) && out
                        == KeyOutcome::Continue
                } else if name == current_name@ {
                    b.dialog is Closed && out == KeyOutcome::Continue
                } else if target_exists {
                    same_dialog_but(a.dialog, b.dialog, field, Some("Directory exists: "@ + name)) && out
                        == KeyOutcome::Continue
                } else {
                    b.dialog is Closed && (out matches KeyOutcome::Exit(SelectionResult::Rename(from, to))
                        && from@ == old_path@ && to@ == path_joined(a.try_path@, name))
                }
            },
            Dialog::Graduate { src_path, .. } => b.dialog is Closed && if trimmed(field.text).len() == 0 {
                out == KeyOutcome::Continue
            } else {
                (out matches KeyOutcome::Exit(SelectionResult::Ascend(from, to)) && from@ == src_path@ && to@
                    == trimmed(field.text))
            },
            Dialog::Closed => false,
        },
    }
}

/// What a key does with a dialog open, whichever way the file system answers
/// whether a submitted new name is taken.
pub open spec fn dialog_step(a: TrySelector, b: TrySelector, k: KeyPress, out: KeyOutcome) -> bool {
    dialog_step_with(a, b, k, out, true) || dialog_step_with(a, b, k, out, false)
}

proof fn lemma_mark_set_push(marks: Seq<String>, x: String)
    ensures
        mark_set(marks.push(x)) == mark_set(marks).insert(x@),
{
    let m2 = marks.push(x);
    assert forall|p: Seq<char>| mark_set(m2).contains(p) <==> mark_set(marks).insert(x@).contains(p) by {
        if mark_set(m2).contains(p) {
            let i = choose|i: int| 0 <= i < m2.len() && (#[trigger] m2[i])@ == p;
            if i < marks.len() {
                assert(marks[i]@ == p);
            }
        }
        if mark_set(marks).contains(p) {
            let i = choose|i: int| 0 <= i < marks.len() && (#[trigger] marks[i])@ == p;
            assert(m2[i]@ == p);
        }
        if p == x@ {
            assert(m2[marks.len() as int]@ == p);
        }
    }
    assert(mark_set(m2) =~= mark_set(marks).insert(x@));
}

proof fn lemma_mark_set_remove(marks: Seq<String>, i: int)
    requires
        distinct(marks),
        0 <= i < marks.len(),
    ensures
        mark_set(marks.remove(i)) == mark_set(marks).remove(marks[i]@),
        distinct(marks.remove(i)),
{
    let m2 = marks.remove(i);
    assert forall|p: Seq<char>| mark_set(m2).contains(p) <==> mark_set(marks).remove(marks[i]@).contains(p) by {
        if mark_set(m2).contains(p) {
            let j = choose|j: int| 0 <= j < m2.len() && (#[trigger] m2[j])@ == p;
            if j < i {
                assert(m2[j] == marks[j]);
            } else {
                assert(m2[j] == marks[j + 1]);
            }
        }
        if mark_set(marks).contains(p) && p != marks[i]@ {
            let j = choose|j: int| 0 <= j < marks.len() && (#[trigger] marks[j])@ == p;
            if j < i {
                assert(m2[j] == marks[j]);
            } else {
                assert(m2[j - 1] == marks[j]);
            }
        }
    }
    assert(mark_set(m2) =~= mark_set(marks).remove(marks[i]@));
    assert forall|a: int, b: int| 0 <= a < b < m2.len() implies (#[trigger] m2[a])@ != (#[trigger] m2[b])@ by {
        let a1 = if a < i { a } else { a + 1 };
        let b1 = if b < i { b } else { b + 1 };
        assert(m2[a] == marks[a1]);
        assert(m2[b] == marks[b1]);
    }
}

/// A copy of a list of strings.
fn copy_strings(v: &Vec<String>) -> (r: Vec<String>)
    ensures
        r@.map_values(|p: String| p@) == v@.map_values(|p: String| p@),
{
    let mut r: Vec<String> = Vec::new();
    let mut i: usize = 0;
    while i < v.len()
        invariant
            i <= v@.len(),
            r@.len() == i,
            forall|k: int| 0 <= k < i ==> (#[trigger] r@[k])@ == v@[k]@,
        decreases v@.len() - i,
    {
        let c = v[i].clone();
        r.push(c);
        i += 1;
    }
    assert(r@.map_values(|p: String| p@) =~= v@.map_values(|p: String| p@));
    r
}

impl TrySelector {
    /// Moves the cursor up one row, if it can.
    pub fn move_cursor_up(&mut self)
        ensures
            cursor_went_up(*old(self), *final(self)),
            final(self).tries@ == old(self).tries@,
            final(self).input_field@ == old(self).input_field@,
            keeps_marks(*old(self), *final(self)),
            final(self).screen == old(self).screen,
            final(self).try_path@ == old(self).try_path@,
            final(self).projects_env == old(self).projects_env,
            final(self).test_no_cls == old(self).test_no_cls,
            final(self).test_keys@ == old(self).test_keys@,
            final(self).needs_redraw == old(self).needs_redraw,
            final(self).dialog == old(self).dialog,
    {
        if self.cursor_pos > 0 {
            let c = self.cursor_pos - 1;
            let s = self.scroll_for(c);
            self.cursor_pos = c;
            self.scroll_offset = s;
        }
    }

    /// Moves the cursor down one row, if there is one.
    pub fn move_cursor_down(&mut self)
        ensures
            cursor_went_down(*old(self), *final(self)),
            final(self).tries@ == old(self).tries@,
            final(self).input_field@ == old(self).input_field@,
            keeps_marks(*old(self), *final(self)),
            final(self).screen == old(self).screen,
            final(self).try_path@ == old(self).try_path@,
            final(self).projects_env == old(self).projects_env,
            final(self).test_no_cls == old(self).test_no_cls,
            final(self).test_keys@ == old(self).test_keys@,
            final(self).needs_redraw == old(self).needs_redraw,
            final(self).dialog == old(self).dialog,
    {
        if self.cursor_pos < self.tries.len() && self.cursor_pos + 1 < self.tries.len() {
            let c = self.cursor_pos + 1;
            let s = self.scroll_for(c);
            self.cursor_pos = c;
            self.scroll_offset = s;
        }
    }

    /// Takes the matches of the current query, when listing the tries
    /// succeeded (`None` keeps the rows shown), and puts the cursor back on
    /// the first row.
    pub fn apply_filter(&mut self, rows: Option<Vec<MatchRow>>)
        ensures
            final(self).cursor_pos == 0,
            final(self).scroll_offset == 0,
            match rows {
                Some(v) => final(self).tries@ == v@,
                None => final(self).tries@ == old(self).tries@,
            },
            final(self).input_field@ == old(self).input_field@,
            keeps_marks(*old(self), *final(self)),
            final(self).dialog == old(self).dialog,
            final(self).needs_redraw,
    {
        if let Some(v) = rows {
            self.tries = v;
        }
        self.cursor_pos = 0;
        self.scroll_offset = 0;
        self.needs_redraw = true;
    }

    /// The path of a new try named `name` under the tries path: its tokens
    /// expanded, dated today, with a free name; `None` when no free name is
    /// left. The date and the names taken come from the clock and the file
    /// system; `create_from_name_with` is this step for given ones.
    pub fn create_from_name(&self, name: &str) -> (r: Option<String>)
        ensures
            r matches Some(p) ==> new_try_path(self.try_path@, name@, p@),
    {
        let expanded = crate::tokens::expand_tokens(name);
        let date_prefix = crate::tokens::local_date();
        let taken = |c: &String| crate::naming::taken_in(self.try_path.as_str(), c);
        let r = self.create_from_name_with(expanded.as_str(), date_prefix.as_str(), taken);
        proof {
            if r is Some {
                let p = r->0;
                let n = choose|n: Seq<char>|
                    resolved(taken, date_prefix@, expanded@, Some(n)) && p@ == path_joined(
                        self.try_path@,
                        #[trigger] dated(date_prefix@, n),
                    );
                crate::naming::lemma_resolved_versioned(taken, date_prefix@, expanded@, n);
                assert(dated_try(self.try_path@, expanded@, p@));
            }
        }
        r
    }

    /// The path of a new try for `expanded` (a name whose tokens are already
    /// expanded) under the tries path, dated `date`: the tries path joined
    /// with `date`, a dash and the free name that resolving `expanded`
    /// against `taken` gives; `None` when no free name is left.
    pub fn create_from_name_with<F: Fn(&String) -> bool>(&self, expanded: &str, date: &str, taken: F) -> (r:
        Option<String>)
        requires
            forall|s: &String| taken.requires((s,)),
        ensures
            match r {
                Some(p) => exists|n: Seq<char>|
                    resolved(taken, date@, expanded@, Some(n)) && p@ == path_joined(
                        self.try_path@,
                        #[trigger] dated(date@, n),
                    ),
                None => resolved(taken, date@, expanded@, None),
            },
    {
        match crate::naming::resolve_unique_name_with(date, expanded, taken) {
            Some(unique_base) => {
                let mut full = String::from_str(date);
                full.append("-");
                full.append(unique_base.as_str());
                proof {
                    reveal_strlit("-");
                }
                assert(full@ == dated(date@, unique_base@));
                let p = join_path(self.try_path.as_str(), full.as_str());
                Some(p)
            },
            None => None,
        }
    }

    /// What creating a try named `name` answers: the new directory's path,
    /// dated today, when a free name is found, else carry on. The date and
    /// the names taken come from the clock and the file system;
    /// `create_outcome_with` is this step for given ones.
    fn create_outcome(&self, name: &str) -> (r: KeyOutcome)
        ensures
            creates_try(self.try_path@, name@, r),
    {
        let expanded = crate::tokens::expand_tokens(name);
        let date_prefix = crate::tokens::local_date();
        let taken = |c: &String| crate::naming::taken_in(self.try_path.as_str(), c);
        let r = self.create_outcome_with(expanded.as_str(), date_prefix.as_str(), taken);
        proof {
            if let KeyOutcome::Exit(SelectionResult::Mkdir(p)) = &r {
                let n = choose|n: Seq<char>|
                    resolved(taken, date_prefix@, expanded@, Some(n)) && p@ == path_joined(
                        self.try_path@,
                        #[trigger] dated(date_prefix@, n),
                    );
                crate::naming::lemma_resolved_versioned(taken, date_prefix@, expanded@, n);
                assert(dated_try(self.try_path@, expanded@, p@));
            }
        }
        r
    }

    /// What creating a try for `expanded` (a name whose tokens are already
    /// expanded) dated `date` answers, as `taken` says which names exist:
    /// exit with the path of the new directory when a free name resolves
    /// (see `create_from_name_with`), carry on when none is left.
    pub fn create_outcome_with<F: Fn(&String) -> bool>(&self, expanded: &str, date: &str, taken: F) -> (r:
        KeyOutcome)
        requires
            forall|s: &String| taken.requires((s,)),
        ensures
            match r {
                KeyOutcome::Exit(SelectionResult::Mkdir(p)) => exists|n: Seq<char>|
                    resolved(taken, date@, expanded@, Some(n)) && p@ == path_joined(
                        self.try_path@,
                        #[trigger] dated(date@, n),
                    ),
                KeyOutcome::Continue => resolved(taken, date@, expanded@, None),
                _ => false,
            },
    {
        match self.create_from_name_with(expanded, date, taken) {
            Some(p) => KeyOutcome::Exit(SelectionResult::Mkdir(p)),
            None => KeyOutcome::Continue,
        }
    }

    /// Where `path` stands among the marks.
    pub fn marked_index(&self, path: &String) -> (r: Option<usize>)
        ensures
            match r {
                Some(i) => i < self.marked_for_delete@.len() && self.marked_for_delete@[i as int]@ == path@,
                None => !mark_set(self.marked_for_delete@).contains(path@),
            },
    {
        let mut i: usize = 0;
        while i < self.marked_for_delete.len()
            invariant
                i <= self.marked_for_delete@.len(),
                forall|j: int| 0 <= j < i ==> (#[trigger] self.marked_for_delete@[j])@ != path@,
            decreases self.marked_for_delete@.len() - i,
        {
            if self.marked_for_delete[i] == *path {
                return Some(i);
            }
            i += 1;
        }
        None
    }
}


proof fn lemma_mark_set_empty(marks: Seq<String>)
    ensures
        mark_set(marks).is_empty() <==> marks.len() == 0,
{
    if marks.len() > 0 {
        assert(mark_set(marks).contains(marks[0]@));
    } else {
        assert(mark_set(marks) =~= Set::<Seq<char>>::empty());
    }
}

/// `name` without its date prefix and the dash after it, when it has both.
fn undated_name_of(name: &str, date_prefix: &Option<String>) -> (r: String)
    ensures
        r@ == undated_name(
            name@,
            match date_prefix {
                Some(p) => Some(p@),
                None => None,
            },
        ),
{
    match date_prefix {
        Some(p) => {
            let cs = chars_of(name);
            let n = chars_of(p.as_str()).len();
            if crate::text::has_prefix(&cs, p.as_str()) && cs.len() > n && cs[n] == '-' {
                let mut r = String::new();
                crate::text::push_range(&mut r, &cs, n + 1, cs.len());
                assert(r@ =~= name@.skip(p@.len() + 1int));
                r
            } else {
                String::from_str(name)
            }
        },
        None => String::from_str(name),
    }
}

impl TrySelector {
    fn open_rename(&mut self)
        requires
            old(self).cursor_pos < old(self).tries@.len(),
        ensures
            ({
                let row = old(self).tries@[old(self).cursor_pos as int]@;
                final(self).dialog matches Dialog::Rename { field, current_name, old_path, error } && field@
                    == filled(row.name) && current_name@ == row.name && old_path@ == row.path && error is None
            }),
            final(self).tries@ == old(self).tries@,
            final(self).screen == old(self).screen,
            final(self).try_path@ == old(self).try_path@,
            final(self).projects_env == old(self).projects_env,
            final(self).test_no_cls == old(self).test_no_cls,
            final(self).test_keys@ == old(self).test_keys@,
            final(self).needs_redraw == old(self).needs_redraw,
            keeps_cursor(*old(self), *final(self)),
            keeps_marks(*old(self), *final(self)),
            final(self).input_field@ == old(self).input_field@,
    {
        let c = self.cursor_pos;
        let name = self.tries[c].data.name.clone();
        let path = self.tries[c].data.path.clone();
        let field = InputField::prefilled(name.as_str());
        self.dialog = Dialog::Rename { field, current_name: name, old_path: path, error: None };
    }

    fn open_graduate(&mut self)
        requires
            old(self).cursor_pos < old(self).tries@.len(),
        ensures
            ({
                let row = old(self).tries@[old(self).cursor_pos as int]@;
                let dir = projects_dir_of(old(self).projects_env, old(self).try_path@);
                final(self).dialog matches Dialog::Graduate { field, current_name, src_path, projects_dir, from_env }
                    && field@ == filled(dir + "/"@ + undated_name(row.name, row.date_prefix)) && current_name@
                    == row.name && src_path@ == row.path && projects_dir@ == dir && from_env
                    == old(self).projects_env is Some
            }),
            final(self).tries@ == old(self).tries@,
            final(self).screen == old(self).screen,
            final(self).try_path@ == old(self).try_path@,
            final(self).projects_env == old(self).projects_env,
            final(self).test_no_cls == old(self).test_no_cls,
            final(self).test_keys@ == old(self).test_keys@,
            final(self).needs_redraw == old(self).needs_redraw,
            keeps_cursor(*old(self), *final(self)),
            keeps_marks(*old(self), *final(self)),
            final(self).input_field@ == old(self).input_field@,
    {
        let c = self.cursor_pos;
        let name = self.tries[c].data.name.clone();
        let path = self.tries[c].data.path.clone();
        let stripped = undated_name_of(name.as_str(), &self.tries[c].data.date_prefix);
        let (dir, from_env) = match &self.projects_env {
            Some(d) => (d.clone(), true),
            None => (parent_or_current(self.try_path.as_str()), false),
        };
        let mut dest = dir.clone();
        dest.append("/");
        dest.append(stripped.as_str());
        let field = InputField::prefilled(dest.as_str());
        self.dialog = Dialog::Graduate { field, current_name: name, src_path: path, projects_dir: dir, from_env };
    }

    fn toggle_mark(&mut self)
        requires
            old(self).wf(),
            old(self).delete_mode,
            old(self).cursor_pos < old(self).tries@.len(),
        ensures
            final(self).wf(),
            ({
                let marks = toggled(
                    mark_set(old(self).marked_for_delete@),
                    old(self).tries@[old(self).cursor_pos as int]@.path,
                );
                mark_set(final(self).marked_for_delete@) == marks && final(self).delete_mode == !marks.is_empty()
            }),
            final(self).tries@ == old(self).tries@,
            final(self).screen == old(self).screen,
            final(self).try_path@ == old(self).try_path@,
            final(self).projects_env == old(self).projects_env,
            final(self).test_no_cls == old(self).test_no_cls,
            final(self).test_keys@ == old(self).test_keys@,
            final(self).needs_redraw == old(self).needs_redraw,
            final(self).dialog == old(self).dialog,
            keeps_cursor(*old(self), *final(self)),
            final(self).input_field@ == old(self).input_field@,
    {
        let p = self.tries[self.cursor_pos].data.path.clone();
        let ghost before = self.marked_for_delete@;
        match self.marked_index(&p) {
            Some(i) => {
                self.marked_for_delete.remove(i);
                proof {
                    lemma_mark_set_remove(before, i as int);
                    assert(mark_set(before).contains(p@));
                }
            },
            None => {
                self.marked_for_delete.push(p);
                proof {
                    lemma_mark_set_push(before, p);
                    let m2 = self.marked_for_delete@;
                    assert forall|a: int, b: int| 0 <= a < b < m2.len() implies (#[trigger] m2[a])@ != (
                    #[trigger] m2[b])@ by {
                        if b == before.len() {
                            assert(mark_set(before).contains(m2[a]@));
                        } else {
                            assert(m2[a] == before[a] && m2[b] == before[b]);
                        }
                    }
                }
            },
        }
        proof {
            lemma_mark_set_empty(self.marked_for_delete@);
        }
        self.delete_mode = self.marked_for_delete.len() > 0;
    }

    /// What a key does with no dialog open.
    pub fn handle_browse_key(&mut self, k: KeyPress) -> (out: KeyOutcome)
        requires
            old(self).wf(),
            old(self).dialog is Closed,
        ensures
            final(self).wf(),
            browse_step(*old(self), *final(self), k, out),
    {
        self.needs_redraw = true;
        let empty = self.input_field.text().is_empty();
        match command_of(k) {
            Command::Up => {
                self.move_cursor_up();
                KeyOutcome::Continue
            },
            Command::Down => {
                self.move_cursor_down();
                KeyOutcome::Continue
            },
            Command::Select => {
                if self.delete_mode && self.marked_for_delete.len() > 0 {
                    self.dialog = Dialog::Confirm { field: InputField::new() };
                    KeyOutcome::Continue
                } else if self.cursor_pos < self.tries.len() {
                    let p = self.tries[self.cursor_pos].data.path.clone();
                    KeyOutcome::Exit(SelectionResult::Cd(p))
                } else if !empty {
                    let name = String::from_str(self.input_field.text());
                    self.create_outcome(name.as_str())
                } else {
                    KeyOutcome::Continue
                }
            },
            Command::Cancel => {
                if self.delete_mode {
                    self.delete_mode = false;
                    self.marked_for_delete.clear();
                    KeyOutcome::Continue
                } else {
                    KeyOutcome::Exit(SelectionResult::Cancelled)
                }
            },
            Command::Type(e) => {
                self.input_field.apply(e);
                KeyOutcome::Refilter
            },
            Command::Move(e) => {
                self.input_field.apply(e);
                KeyOutcome::Continue
            },
            Command::CreateNew => {
                if empty {
                    KeyOutcome::PromptName
                } else {
                    let name = String::from_str(self.input_field.text());
                    self.create_outcome(name.as_str())
                }
            },
            Command::ToggleMark => {
                if !self.delete_mode {
                    self.delete_mode = true;
                } else if self.cursor_pos < self.tries.len() {
                    self.toggle_mark();
                }
                KeyOutcome::Continue
            },
            Command::Rename => {
                if self.cursor_pos < self.tries.len() {
                    self.open_rename();
                }
                KeyOutcome::Continue
            },
            Command::Graduate => {
                if self.cursor_pos < self.tries.len() {
                    self.open_graduate();
                }
                KeyOutcome::Continue
            },
            Command::Nothing => KeyOutcome::Continue,
        }
    }
}


impl TrySelector {
    /// What a key does with a dialog open.
    pub fn handle_dialog_key(&mut self, k: KeyPress) -> (out: KeyOutcome)
        requires
            old(self).wf(),
            !(old(self).dialog is Closed),
        ensures
            final(self).wf(),
            dialog_step(*old(self), *final(self), k, out),
    {
        let target_exists = self.rename_target_exists(k);
        self.handle_dialog_key_with(k, target_exists)
    }

    /// Whether `k` submits a new name in the rename dialog whose directory
    /// already exists under the tries path. The file system is asked only
    /// then, about `entry_path(try_path, name)` for the dashed new name;
    /// otherwise the answer is `false`.
    fn rename_target_exists(&self, k: KeyPress) -> (r: bool)
        ensures
            r ==> (self.dialog matches Dialog::Rename { field, current_name, .. } && dialog_command(
                DialogKind::Rename,
                k,
            ) == DialogCommand::Submit && dashed(field@.text).len() > 0 && !dashed(field@.text).contains('/')
                && dashed(field@.text) != current_name@),
    {
        match &self.dialog {
            Dialog::Rename { field, current_name, .. } => match dialog_command_of(DialogKind::Rename, k) {
                DialogCommand::Submit => {
                    let name = dash_words(field.text());
                    if name.as_str().is_empty() || has_char(name.as_str(), '/') || name == *current_name {
                        false
                    } else {
                        let to = crate::paths::entry_path(self.try_path.as_str(), name.as_str());
                        path_exists(to.as_str())
                    }
                },
                _ => false,
            },
            _ => false,
        }
    }

    /// What a key does to the open dialog, given whether the directory that a
    /// submitted new name would take exists.
    pub fn handle_dialog_key_with(&mut self, k: KeyPress, target_exists: bool) -> (out: KeyOutcome)
        requires
            old(self).wf(),
            !(old(self).dialog is Closed),
        ensures
            final(self).wf(),
            dialog_step_with(*old(self), *final(self), k, out, target_exists),
    {
        self.needs_redraw = true;
        let mut d = Dialog::Closed;
        core::mem::swap(&mut d, &mut self.dialog);
        match d {
            Dialog::Closed => KeyOutcome::Continue,
            Dialog::Confirm { mut field } => match dialog_command_of(DialogKind::Confirm, k) {
                DialogCommand::Nothing => {
                    self.dialog = Dialog::Confirm { field };
                    KeyOutcome::Continue
                },
                DialogCommand::Change(e, _) => {
                    field.apply(e);
                    self.dialog = Dialog::Confirm { field };
                    KeyOutcome::Continue
                },
                DialogCommand::Cancel => KeyOutcome::Continue,
                DialogCommand::Submit => {
                    if crate::shell::str_is(field.text(), "YES") {
                        let paths = copy_strings(&self.marked_for_delete);
                        KeyOutcome::Exit(SelectionResult::Delete(paths))
                    } else {
                        KeyOutcome::Continue
                    }
                },
            },
            Dialog::Rename { mut field, current_name, old_path, error } => match dialog_command_of(
                DialogKind::Rename,
                k,
            ) {
                DialogCommand::Nothing => {
                    self.dialog = Dialog::Rename { field, current_name, old_path, error };
                    KeyOutcome::Continue
                },
                DialogCommand::Change(e, clears) => {
                    field.apply(e);
                    let error = if clears {
                        None
                    } else {
                        error
                    };
                    self.dialog = Dialog::Rename { field, current_name, old_path, error };
                    KeyOutcome::Continue
                },
                DialogCommand::Cancel => KeyOutcome::Continue,
                DialogCommand::Submit => {
                    let name = dash_words(field.text());
                    if name.as_str().is_empty() {
                        let error = Some(String::from_str("Name cannot be empty"));
                        self.dialog = Dialog::Rename { field, current_name, old_path, error };
                        KeyOutcome::Continue
                    } else if has_char(name.as_str(), '/') {
                        let error = Some(String::from_str("Name cannot contain /"));
                        self.dialog = Dialog::Rename { field, current_name, old_path, error };
                        KeyOutcome::Continue
                    } else if name == current_name {
                        KeyOutcome::Continue
                    } else {
                        let to = join_path(self.try_path.as_str(), name.as_str());
                        if target_exists {
                            let mut msg = String::from_str("Directory exists: ");
                            msg.append(name.as_str());
                            let error = Some(msg);
                            self.dialog = Dialog::Rename { field, current_name, old_path, error };
                            KeyOutcome::Continue
                        } else {
                            KeyOutcome::Exit(SelectionResult::Rename(old_path, to))
                        }
                    }
                },
            },
            Dialog::Graduate { mut field, current_name, src_path, projects_dir, from_env } =>
                match dialog_command_of(DialogKind::Graduate, k) {
                DialogCommand::Nothing => {
                    self.dialog = Dialog::Graduate { field, current_name, src_path, projects_dir, from_env };
                    KeyOutcome::Continue
                },
                DialogCommand::Change(e, _) => {
                    field.apply(e);
                    self.dialog = Dialog::Graduate { field, current_name, src_path, projects_dir, from_env };
                    KeyOutcome::Continue
                },
                DialogCommand::Cancel => KeyOutcome::Continue,
                DialogCommand::Submit => {
                    let dest = trim_white(field.text());
                    if dest.as_str().is_empty() {
                        KeyOutcome::Continue
                    } else {
                        KeyOutcome::Exit(SelectionResult::Ascend(src_path, dest))
                    }
                },
            },
        }
    }

    /// What a key does: to the open dialog, if there is one, else to the list.
    pub fn handle_key(&mut self, k: KeyPress) -> (out: KeyOutcome)
        requires
            old(self).wf(),
        ensures
            final(self).wf(),
            old(self).dialog is Closed ==> browse_step(*old(self), *final(self), k, out),
            !(old(self).dialog is Closed) ==> dialog_step(*old(self), *final(self), k, out),
    {
        if let Dialog::Closed = self.dialog {
            self.handle_browse_key(k)
        } else {
            self.handle_dialog_key(k)
        }
    }

    /// Creates a try named `name`, as typed at the prompt after Control-T,
    /// white space trimmed; an empty name creates nothing.
    pub fn create_from_prompt(&mut self, name: &str) -> (out: KeyOutcome)
        ensures
            final(self).tries@ == old(self).tries@,
            final(self).try_path@ == old(self).try_path@,
            final(self).needs_redraw,
            trimmed(name@).len() == 0 ==> out == KeyOutcome::Continue,
            trimmed(name@).len() > 0 ==> creates_try(old(self).try_path@, trimmed(name@), out),
    {
        self.needs_redraw = true;
        let t = trim_white(name);
        if t.as_str().is_empty() {
            KeyOutcome::Continue
        } else {
            self.create_outcome(t.as_str())
        }
    }
}

} // verus!
