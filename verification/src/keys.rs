use vstd::prelude::*;

verus! {

/// A key press, as far as the editor tells keys apart.
#[derive(Clone, Copy, PartialEq, Eq, Structural, Debug)]
pub enum Key {
    /// A printable character, Enter (`'\n'`) or Tab (`'\t'`).
    Char(char),
    /// A character typed with Ctrl held.
    Ctrl(char),
    Backspace,
    Esc,
    /// Any other key; the editor ignores it.
    Other,
}

/// The keyboard layout that the move-mode keys are chosen for.
#[derive(Clone, Copy, PartialEq, Eq, Structural, Debug)]
pub enum Layout {
    Dvorak,
    Qwerty,
}

/// What a key means in move mode.
#[derive(Clone, Copy, PartialEq, Eq, Structural, Debug)]
pub enum Command {
    Quit,
    ToggleLineNumbers,
    OpenFile,
    WriteFile,
    Left,
    Right,
    Up,
    Down,
    LeftFour,
    RightFour,
    UpTen,
    DownTen,
    Insert,
    Delete,
    Backspace,
    Kill,
    LineStart,
    LineEnd,
    Indentation,
    Ignore,
}

/// The move-mode meaning of `key` on the Dvorak layout.
pub open spec fn dvorak_command(key: Key) -> Command {
    match key {
        Key::Char(c) => if c == 'q' {
            Command::Quit
        } else if c == 'l' {
            Command::ToggleLineNumbers
        } else if c == 'f' {
            Command::OpenFile
        } else if c == 'w' {
            Command::WriteFile
        } else if c == 't' {
            Command::Right
        } else if c == 'h' {
            Command::Left
        } else if c == 'e' {
            Command::Down
        } else if c == 'u' {
            Command::Up
        } else if c == 'E' {
            Command::DownTen
        } else if c == 'U' {
            Command::UpTen
        } else if c == 'i' {
            Command::Insert
        } else if c == 'd' {
            Command::Delete
        } else if c == 'k' {
            Command::Kill
        } else if c == 'o' {
            Command::LineEnd
        } else if c == 'a' {
            Command::Indentation
        } else if c == '\t' || c == 'T' {
            Command::RightFour
        } else if c == 'H' {
            Command::LeftFour
        } else {
            Command::Ignore
        },
        Key::Backspace => Command::Backspace,
        Key::Esc => Command::LineStart,
        _ => Command::Ignore,
    }
}

/// The move-mode meaning of `key` on the Qwerty layout.
pub open spec fn qwerty_command(key: Key) -> Command {
    match key {
        Key::Char(c) => if c == 'q' {
            Command::Quit
        } else if c == 'p' {
            Command::ToggleLineNumbers
        } else if c == 'y' {
            Command::OpenFile
        } else if c == 'm' {
            Command::WriteFile
        } else if c == 'k' {
            Command::Right
        } else if c == 'j' {
            Command::Left
        } else if c == 'd' {
            Command::Down
        } else if c == 'f' {
            Command::Up
        } else if c == 'D' {
            Command::DownTen
        } else if c == 'F' {
            Command::UpTen
        } else if c == 'g' {
            Command::Insert
        } else if c == 'h' {
            Command::Delete
        } else if c == 'c' {
            Command::Kill
        } else if c == 'o' {
            Command::LineEnd
        } else if c == 'a' {
            Command::Indentation
        } else if c == '\t' || c == 'K' {
            Command::RightFour
        } else if c == 'J' {
            Command::LeftFour
        } else {
            Command::Ignore
        },
        Key::Backspace => Command::Backspace,
        Key::Esc => Command::LineStart,
        _ => Command::Ignore,
    }
}

/// The move-mode meaning of `key` on `layout`.
pub open spec fn command_of(layout: Layout, key: Key) -> Command {
    match layout {
        Layout::Dvorak => dvorak_command(key),
        Layout::Qwerty => qwerty_command(key),
    }
}

/// The Ctrl letter that writes four spaces in insert mode on `layout`.
pub open spec fn four_spaces_letter(layout: Layout) -> char {
    match layout {
        Layout::Dvorak => 't',
        Layout::Qwerty => 'k',
    }
}

/// The move-mode meaning of `key` on `layout`.
pub fn decode_command(layout: Layout, key: Key) -> (cmd: Command)
    ensures
        cmd == command_of(layout, key),
{
    match layout {
        Layout::Dvorak => match key {
            Key::Char(c) => if c == 'q' {
                Command::Quit
            } else if c == 'l' {
                Command::ToggleLineNumbers
            } else if c == 'f' {
                Command::OpenFile
            } else if c == 'w' {
                Command::WriteFile
            } else if c == 't' {
                Command::Right
            } else if c == 'h' {
                Command::Left
            } else if c == 'e' {
                Command::Down
            } else if c == 'u' {
                Command::Up
            } else if c == 'E' {
                Command::DownTen
            } else if c == 'U' {
                Command::UpTen
            } else if c == 'i' {
                Command::Insert
            } else if c == 'd' {
                Command::Delete
            } else if c == 'k' {
                Command::Kill
            } else if c == 'o' {
                Command::LineEnd
            } else if c == 'a' {
                Command::Indentation
            } else if c == '\t' || c == 'T' {
                Command::RightFour
            } else if c == 'H' {
                Command::LeftFour
            } else {
                Command::Ignore
            },
            Key::Backspace => Command::Backspace,
            Key::Esc => Command::LineStart,
            _ => Command::Ignore,
        },
        Layout::Qwerty => match key {
            Key::Char(c) => if c == 'q' {
                Command::Quit
            } else if c == 'p' {
                Command::ToggleLineNumbers
            } else if c == 'y' {
                Command::OpenFile
            } else if c == 'm' {
                Command::WriteFile
            } else if c == 'k' {
                Command::Right
            } else if c == 'j' {
                Command::Left
            } else if c == 'd' {
                Command::Down
            } else if c == 'f' {
                Command::Up
            } else if c == 'D' {
                Command::DownTen
            } else if c == 'F' {
                Command::UpTen
            } else if c == 'g' {
                Command::Insert
            } else if c == 'h' {
                Command::Delete
            } else if c == 'c' {
                Command::Kill
            } else if c == 'o' {
                Command::LineEnd
            } else if c == 'a' {
                Command::Indentation
            } else if c == '\t' || c == 'K' {
                Command::RightFour
            } else if c == 'J' {
                Command::LeftFour
            } else {
                Command::Ignore
            },
            Key::Backspace => Command::Backspace,
            Key::Esc => Command::LineStart,
            _ => Command::Ignore,
        },
    }
}

/// The Ctrl letter that writes four spaces in insert mode on `layout`.
pub fn four_spaces_key(layout: Layout) -> (c: char)
    ensures
        c == four_spaces_letter(layout),
{
    match layout {
        Layout::Dvorak => 't',
        Layout::Qwerty => 'k',
    }
}

} // verus!
