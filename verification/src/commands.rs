//! What keys mean: in the list of tries, and in the dialogs over it.
use vstd::prelude::*;
use crate::input_field::Edit;
use crate::text::is_ascii_alnum;

verus! {

/// A key on the keyboard.
#[derive(Debug, Clone, Copy, PartialEq, Eq, Structural)]
pub enum Key {
    Up,
    Down,
    Left,
    Right,
    Enter,
    Esc,
    Backspace,
    Delete,
    Tab,
    BackTab,
    Char(char),
    Other,
}

/// A key press, with whether Control was held.
#[derive(Debug, Clone, Copy, PartialEq, Eq, Structural)]
pub struct KeyPress {
    pub key: Key,
    pub ctrl: bool,
}

/// What a key asks of the list.
#[derive(Debug, Clone, Copy, PartialEq, Eq, Structural)]
pub enum Command {
    Up,
    Down,
    Select,
    Cancel,
    Type(Edit),
    Move(Edit),
    CreateNew,
    ToggleMark,
    Rename,
    Graduate,
    Nothing,
}

/// Characters that go into the search box.
pub open spec fn is_input_char(c: char) -> bool {
    is_ascii_alnum(c) || c == '-' || c == '_' || c == '.' || c == ' '
}

/// What a Control-letter asks of the list.
pub open spec fn ctrl_command(c: char) -> Command {
    if c == 'p' || c == 'k' {
        Command::Up
    } else if c == 'n' || c == 'j' {
        Command::Down
    } else if c == 'c' {
        Command::Cancel
    } else if c == 'a' {
        Command::Move(Edit::Start)
    } else if c == 'e' {
        Command::Move(Edit::End)
    } else if c == 'b' {
        Command::Move(Edit::Left)
    } else if c == 'f' {
        Command::Move(Edit::Right)
    } else if c == 'w' {
        Command::Type(Edit::KillWord)
    } else if c == 't' {
        Command::CreateNew
    } else if c == 'd' {
        Command::ToggleMark
    } else if c == 'r' {
        Command::Rename
    } else if c == 'g' {
        Command::Graduate
    } else {
        Command::Nothing
    }
}

/// What a key asks of the list, with no dialog open. Arrow keys left and
/// right do nothing there; Escape cancels with or without Control.
pub open spec fn browse_command(k: KeyPress) -> Command {
    match k.key {
        Key::Up | Key::BackTab => Command::Up,
        Key::Down | Key::Tab => Command::Down,
        Key::Enter => Command::Select,
        Key::Esc => Command::Cancel,
        Key::Backspace => Command::Type(Edit::DeleteBefore),
        Key::Delete => Command::Type(Edit::DeleteAt),
        Key::Char(c) => if k.ctrl {
            ctrl_command(c)
        } else if is_input_char(c) {
            Command::Type(Edit::Insert(c))
        } else {
            Command::Nothing
        },
        _ => Command::Nothing,
    }
}

fn input_char(c: char) -> (r: bool)
    ensures
        r == is_input_char(c),
{
    crate::text::ascii_alnum(c) || c == '-' || c == '_' || c == '.' || c == ' '
}

fn ctrl_command_of(c: char) -> (r: Command)
    ensures
        r == ctrl_command(c),
{
    if c == 'p' || c == 'k' {
        Command::Up
    } else if c == 'n' || c == 'j' {
        Command::Down
    } else if c == 'c' {
        Command::Cancel
    } else if c == 'a' {
        Command::Move(Edit::Start)
    } else if c == 'e' {
        Command::Move(Edit::End)
    } else if c == 'b' {
        Command::Move(Edit::Left)
    } else if c == 'f' {
        Command::Move(Edit::Right)
    } else if c == 'w' {
        Command::Type(Edit::KillWord)
    } else if c == 't' {
        Command::CreateNew
    } else if c == 'd' {
        Command::ToggleMark
    } else if c == 'r' {
        Command::Rename
    } else if c == 'g' {
        Command::Graduate
    } else {
        Command::Nothing
    }
}

/// What a key asks of the list, with no dialog open.
pub fn command_of(k: KeyPress) -> (r: Command)
    ensures
        r == browse_command(k),
{
    match k.key {
        Key::Up | Key::BackTab => Command::Up,
        Key::Down | Key::Tab => Command::Down,
        Key::Enter => Command::Select,
        Key::Esc => Command::Cancel,
        Key::Backspace => Command::Type(Edit::DeleteBefore),
        Key::Delete => Command::Type(Edit::DeleteAt),
        Key::Char(c) => if k.ctrl {
            ctrl_command_of(c)
        } else if input_char(c) {
            Command::Type(Edit::Insert(c))
        } else {
            Command::Nothing
        },
        _ => Command::Nothing,
    }
}

/// Which dialog is open.
#[derive(Debug, Clone, Copy, PartialEq, Eq, Structural)]
pub enum DialogKind {
    Confirm,
    Rename,
    Graduate,
}

/// What a key asks of a dialog.
#[derive(Debug, Clone, Copy, PartialEq, Eq, Structural)]
pub enum DialogCommand {
    Submit,
    Cancel,
    /// An edit of the field; `true` when it also clears the error shown.
    Change(Edit, bool),
    Nothing,
}

/// Characters that the confirmation field takes: ASCII letters and ASCII
/// white space.
pub open spec fn is_confirm_char(c: char) -> bool {
    ('a' <= c && c <= 'z') || ('A' <= c && c <= 'Z') || c == ' ' || c == '\t' || c == '\n' || c
        == '\u{c}' || c == '\r'
}

/// Characters that a new name may hold.
pub open spec fn is_rename_char(c: char) -> bool {
    is_input_char(c) || c == '/'
}

/// Characters that a destination may hold.
pub open spec fn is_destination_char(c: char) -> bool {
    is_rename_char(c) || c == '~'
}

/// The field edits that Control-letters make in a dialog.
pub open spec fn ctrl_edit(c: char) -> Option<Edit> {
    if c == 'a' {
        Some(Edit::Start)
    } else if c == 'e' {
        Some(Edit::End)
    } else if c == 'b' {
        Some(Edit::Left)
    } else if c == 'f' {
        Some(Edit::Right)
    } else if c == 'w' {
        Some(Edit::KillWord)
    } else if c == 'k' {
        Some(Edit::KillToEnd)
    } else {
        None
    }
}

/// Whether a dialog's field takes character `c`; the rename dialog takes
/// none with Control held.
pub open spec fn dialog_takes(kind: DialogKind, c: char, ctrl: bool) -> bool {
    match kind {
        DialogKind::Confirm => is_confirm_char(c),
        DialogKind::Rename => !ctrl && is_rename_char(c),
        DialogKind::Graduate => is_destination_char(c),
    }
}

/// What a key asks of an open dialog; the first rule that applies wins.
/// Escape cancels, as Control-C does.
pub open spec fn dialog_command(kind: DialogKind, k: KeyPress) -> DialogCommand {
    let rename = kind == DialogKind::Rename;
    match k.key {
        Key::Enter => DialogCommand::Submit,
        Key::Esc => DialogCommand::Cancel,
        Key::Backspace => DialogCommand::Change(Edit::DeleteBefore, rename),
        Key::Delete => DialogCommand::Change(Edit::DeleteAt, rename),
        Key::Char(c) => if k.ctrl && c == 'c' {
            DialogCommand::Cancel
        } else if dialog_takes(kind, c, k.ctrl) {
            DialogCommand::Change(Edit::Insert(c), rename)
        } else if k.ctrl {
            match ctrl_edit(c) {
                Some(e) => DialogCommand::Change(e, rename && (c == 'w' || c == 'k')),
                None => DialogCommand::Nothing,
            }
        } else {
            DialogCommand::Nothing
        },
        _ => DialogCommand::Nothing,
    }
}

/// What a key asks of an open dialog.
pub fn dialog_command_of(kind: DialogKind, k: KeyPress) -> (r: DialogCommand)
    ensures
        r == dialog_command(kind, k),
{
    let rename = kind == DialogKind::Rename;
    match k.key {
        Key::Enter => DialogCommand::Submit,
        Key::Esc => DialogCommand::Cancel,
        Key::Backspace => DialogCommand::Change(Edit::DeleteBefore, rename),
        Key::Delete => DialogCommand::Change(Edit::DeleteAt, rename),
        Key::Char(c) => {
            let name_char = input_char(c) || c == '/';
            let takes = match kind {
                DialogKind::Confirm => ('a' <= c && c <= 'z') || ('A' <= c && c <= 'Z') || c == ' ' || c
                    == '\t' || c == '\n' || c == '\u{c}' || c == '\r',
                DialogKind::Rename => !k.ctrl && name_char,
                DialogKind::Graduate => name_char || c == '~',
            };
            if k.ctrl && c == 'c' {
                DialogCommand::Cancel
            } else if takes {
                DialogCommand::Change(Edit::Insert(c), rename)
            } else if k.ctrl {
                if c == 'a' {
                    DialogCommand::Change(Edit::Start, false)
                } else if c == 'e' {
                    DialogCommand::Change(Edit::End, false)
                } else if c == 'b' {
                    DialogCommand::Change(Edit::Left, false)
                } else if c == 'f' {
                    DialogCommand::Change(Edit::Right, false)
                } else if c == 'w' {
                    DialogCommand::Change(Edit::KillWord, rename)
                } else if c == 'k' {
                    DialogCommand::Change(Edit::KillToEnd, rename)
                } else {
                    DialogCommand::Nothing
                }
            } else {
                DialogCommand::Nothing
            }
        },
        _ => DialogCommand::Nothing,
    }
}

} // verus!
