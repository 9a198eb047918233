use vstd::prelude::*;

use crate::keys::{Command, Key, Layout, command_of, four_spaces_letter};
use crate::text::{boundary_index, byte_len, char_width, is_boundary, leading_spaces, spaces};

verus! {

/// Which line of the screen takes key presses.
#[derive(Clone, Copy, PartialEq, Eq, Structural, Debug)]
pub enum FileMode {
    /// Keys edit the text.
    Edit,
    /// Keys edit the path of a file to open, shown in the bottom bar.
    Open,
    /// Keys edit the path to write the text to, shown in the bottom bar.
    SaveAsPrompt,
}

/// What the program around the editor has to do after a key.
#[derive(Clone, Copy, PartialEq, Eq, Structural, Debug)]
pub enum Action {
    Nothing,
    /// Put the directory of the current file into the bottom bar.
    FillOpenPrompt,
    /// Put the path of the current file into the bottom bar.
    FillSavePrompt,
    /// Try to open the path in the bottom bar.
    SubmitOpen,
    /// Try to write the text to the path in the bottom bar.
    SubmitSave,
}

/// The editor as a mathematical value.
#[verifier::ext_equal]
pub struct EditorState {
    pub lines: Seq<Seq<char>>,
    pub cursor_line: int,
    pub cursor_column: int,
    pub window_start: int,
    pub window_padding: int,
    pub show_line_nums: bool,
    pub running: bool,
    pub current_indentation: int,
    pub insert_mode: bool,
    pub file_mode: FileMode,
    pub bottom_bar: Seq<char>,
    pub layout: Layout,
}

pub open spec fn fits_isize(v: int) -> bool {
    isize::MIN <= v <= isize::MAX
}

/// A text that a string of this program can hold.
pub open spec fn fits_text(s: Seq<char>) -> bool {
    byte_len(s) <= isize::MAX
}

/// `s` holds no line break.
pub open spec fn no_newline(s: Seq<char>) -> bool {
    forall|i: int| 0 <= i < s.len() ==> s[i] != '\n'
}

/// What holds of every editor state that the editor reaches.
pub open spec fn state_wf(s: EditorState) -> bool {
    &&& s.lines.len() <= isize::MAX
    &&& forall|i: int| 0 <= i < s.lines.len() ==> #[trigger] fits_text(s.lines[i])
    &&& forall|i: int| 0 <= i < s.lines.len() ==> #[trigger] no_newline(s.lines[i])
    &&& fits_text(s.bottom_bar)
    &&& fits_isize(s.cursor_line)
    &&& fits_isize(s.cursor_column)
    &&& 0 <= s.current_indentation <= isize::MAX
    &&& 0 <= s.window_start <= usize::MAX
    &&& 0 <= s.window_padding <= usize::MAX
}

pub proof fn lemma_no_newline_parts(a: Seq<char>, b: Seq<char>, i: int, j: int, c: char, n: nat)
    requires
        no_newline(a),
        no_newline(b),
    ensures
        no_newline(a + b),
        0 <= i <= a.len() ==> no_newline(a.take(i)) && no_newline(a.skip(i)),
        0 <= i <= a.len() && c != '\n' ==> no_newline(a.insert(i, c)),
        0 <= j < a.len() ==> no_newline(a.remove(j)),
        no_newline(spaces(n)),
        a.len() > 0 ==> no_newline(a.drop_last()),
{
    assert forall|k: int| 0 <= k < (a + b).len() implies (a + b)[k] != '\n' by {
        if k < a.len() {
            assert((a + b)[k] == a[k]);
        } else {
            assert((a + b)[k] == b[k - a.len()]);
        }
    }
    if 0 <= i <= a.len() && c != '\n' {
        assert forall|k: int| 0 <= k < a.insert(i, c).len() implies a.insert(i, c)[k] != '\n' by {
            if k < i {
                assert(a.insert(i, c)[k] == a[k]);
            } else if k > i {
                assert(a.insert(i, c)[k] == a[k - 1]);
            }
        }
    }
    if 0 <= j < a.len() {
        assert forall|k: int| 0 <= k < a.remove(j).len() implies a.remove(j)[k] != '\n' by {
            if k < j {
                assert(a.remove(j)[k] == a[k]);
            } else {
                assert(a.remove(j)[k] == a[k + 1]);
            }
        }
    }
}

pub open spec fn min_int(a: int, b: int) -> int {
    if a < b {
        a
    } else {
        b
    }
}

/// The line under the cursor.
pub open spec fn cur(s: EditorState) -> Seq<char> {
    s.lines[s.cursor_line]
}

pub open spec fn on_line(s: EditorState) -> bool {
    0 <= s.cursor_line < s.lines.len()
}

/// The state with the line under the cursor replaced by `line`.
pub open spec fn with_line(s: EditorState, line: Seq<char>) -> EditorState {
    EditorState { lines: s.lines.update(s.cursor_line, line), ..s }
}

// ---------------------------------------------------------------------------
// Insert mode

/// Enter: the line breaks at the cursor, and the new line starts with the
/// indentation of the line.
pub open spec fn split_ok(s: EditorState) -> bool {
    &&& on_line(s)
    &&& s.cursor_column <= cur(s).len()
    &&& s.lines.len() < isize::MAX
    &&& byte_len(cur(s)) + s.current_indentation <= isize::MAX
}

pub open spec fn split_line(s: EditorState) -> EditorState {
    let k = if s.cursor_column < 0 {
        0
    } else {
        s.cursor_column
    };
    EditorState {
        lines: s.lines.update(s.cursor_line, cur(s).take(k)).insert(
            s.cursor_line + 1,
            spaces(s.current_indentation as nat) + cur(s).skip(k),
        ),
        cursor_line: s.cursor_line + 1,
        cursor_column: s.current_indentation,
        ..s
    }
}

/// The number of spaces that Tab writes at column `c`: up to the next
/// multiple of four.
pub open spec fn tab_width(c: int) -> int {
    4 - c % 4
}

pub open spec fn pad_ok(s: EditorState, n: int) -> bool {
    &&& on_line(s)
    &&& s.cursor_column >= 0
    &&& s.cursor_column + n <= isize::MAX
    &&& byte_len(cur(s)) + n <= isize::MAX
}

/// `n` spaces written at the cursor (at the end of the line where the cursor
/// is past it), with the cursor after them.
pub open spec fn pad_spaces(s: EditorState, n: int) -> EditorState {
    let pos = min_int(s.cursor_column, cur(s).len() as int);
    EditorState {
        lines: s.lines.update(
            s.cursor_line,
            cur(s).take(pos) + spaces(n as nat) + cur(s).skip(pos),
        ),
        cursor_column: s.cursor_column + n,
        ..s
    }
}

pub open spec fn insert_char_ok(s: EditorState, c: char) -> bool {
    &&& on_line(s)
    &&& s.cursor_column >= 0
    &&& s.cursor_column + 1 <= isize::MAX
    &&& byte_len(cur(s)) + char_width(c) <= isize::MAX
}

/// `c` written at the cursor (at the end where the cursor is past it).
pub open spec fn insert_char(s: EditorState, c: char) -> EditorState {
    let pos = min_int(s.cursor_column, cur(s).len() as int);
    EditorState {
        lines: s.lines.update(s.cursor_line, cur(s).insert(pos, c)),
        cursor_column: s.cursor_column + 1,
        ..s
    }
}

/// Typing `}` right after four spaces takes those four columns back first.
pub open spec fn brace_strips(line: Seq<char>, c: int) -> bool {
    &&& c >= 4
    &&& c - 1 < line.len()
    &&& line[c - 1] == ' '
    &&& line[c - 2] == ' '
    &&& line[c - 3] == ' '
    &&& line[c - 4] == ' '
}

/// The line once the four columns before the cursor are taken out, as byte
/// positions `c - 4 .. c`.
pub open spec fn brace_line(line: Seq<char>, c: int) -> Seq<char> {
    if brace_strips(line, c) {
        line.take(boundary_index(line, c - 4)) + line.skip(boundary_index(line, c))
    } else {
        line
    }
}

pub open spec fn brace_column(line: Seq<char>, c: int) -> int {
    if brace_strips(line, c) {
        c - 4
    } else {
        c
    }
}

pub open spec fn close_brace_ok(s: EditorState) -> bool {
    let line = cur(s);
    let c = s.cursor_column;
    let line1 = brace_line(line, c);
    let c1 = brace_column(line, c);
    &&& on_line(s)
    &&& !(c >= 4 && c - 1 >= line.len())
    &&& brace_strips(line, c) ==> is_boundary(line, c - 4) && is_boundary(line, c)
    &&& c1 >= 0
    &&& is_boundary(line1, c1)
    &&& c1 + 1 <= isize::MAX
    &&& byte_len(line1) + 1 <= isize::MAX
}

/// `}` written at byte position of the cursor column.
pub open spec fn close_brace(s: EditorState) -> EditorState {
    let line = cur(s);
    let c = s.cursor_column;
    let line1 = brace_line(line, c);
    let c1 = brace_column(line, c);
    EditorState {
        lines: s.lines.update(s.cursor_line, line1.insert(boundary_index(line1, c1), '}')),
        cursor_column: c1 + 1,
        ..s
    }
}

/// Backspace in insert mode: the character before the cursor goes, or at the
/// start of a line the line joins the one above.
pub open spec fn insert_backspace_ok(s: EditorState) -> bool {
    if s.cursor_column > 0 {
        on_line(s) && s.cursor_column - 1 < cur(s).len()
    } else if s.cursor_line > 0 {
        &&& s.cursor_line < s.lines.len()
        &&& byte_len(s.lines[s.cursor_line - 1]) + byte_len(s.lines[s.cursor_line])
            <= isize::MAX
    } else {
        true
    }
}

pub open spec fn insert_backspace(s: EditorState) -> EditorState {
    if s.cursor_column > 0 {
        EditorState {
            lines: s.lines.update(s.cursor_line, cur(s).remove(s.cursor_column - 1)),
            cursor_column: s.cursor_column - 1,
            ..s
        }
    } else if s.cursor_line > 0 {
        let prev = s.lines[s.cursor_line - 1];
        EditorState {
            lines: s.lines.update(s.cursor_line - 1, prev + s.lines[s.cursor_line]).remove(
                s.cursor_line,
            ),
            cursor_line: s.cursor_line - 1,
            cursor_column: prev.len() as int,
            ..s
        }
    } else {
        s
    }
}

pub open spec fn insert_key_ok(s: EditorState, key: Key) -> bool {
    match key {
        Key::Char(c) => if c == '\n' {
            split_ok(s)
        } else if c == '\t' {
            s.cursor_column >= 0 && pad_ok(s, tab_width(s.cursor_column))
        } else if c == '}' {
            close_brace_ok(s)
        } else {
            insert_char_ok(s, c)
        },
        Key::Ctrl(c) => c == four_spaces_letter(s.layout) ==> pad_ok(s, 4),
        Key::Backspace => insert_backspace_ok(s),
        _ => true,
    }
}

pub open spec fn insert_key(s: EditorState, key: Key) -> EditorState {
    match key {
        Key::Char(c) => if c == '\n' {
            split_line(s)
        } else if c == '\t' {
            pad_spaces(s, tab_width(s.cursor_column))
        } else if c == '}' {
            close_brace(s)
        } else {
            insert_char(s, c)
        },
        Key::Ctrl(c) => if c == four_spaces_letter(s.layout) {
            pad_spaces(s, 4)
        } else {
            s
        },
        Key::Backspace => insert_backspace(s),
        Key::Esc => EditorState { insert_mode: false, ..s },
        Key::Other => s,
    }
}

// ---------------------------------------------------------------------------
// Move mode

pub open spec fn move_ok(s: EditorState, dl: int, dc: int) -> bool {
    fits_isize(s.cursor_line + dl) && fits_isize(s.cursor_column + dc)
}

pub open spec fn move_by(s: EditorState, dl: int, dc: int) -> EditorState {
    EditorState {
        cursor_line: s.cursor_line + dl,
        cursor_column: s.cursor_column + dc,
        ..s
    }
}

/// `i`: lines are added up to the cursor's, the cursor's line is filled with
/// spaces up to the cursor column (counted in bytes), and insert mode starts.
pub open spec fn enter_insert_ok(s: EditorState) -> bool {
    &&& s.cursor_line >= 0
    &&& s.cursor_column >= 0
    &&& s.cursor_line + 1 <= isize::MAX
}

pub open spec fn lines_through(lines: Seq<Seq<char>>, l: int) -> Seq<Seq<char>> {
    if l < lines.len() {
        lines
    } else {
        lines + Seq::new((l + 1 - lines.len()) as nat, |i: int| Seq::<char>::empty())
    }
}

pub open spec fn pad_to_bytes(line: Seq<char>, c: int) -> Seq<char> {
    if c > byte_len(line) {
        line + spaces((c - byte_len(line)) as nat)
    } else {
        line
    }
}

pub open spec fn enter_insert(s: EditorState) -> EditorState {
    let lines1 = lines_through(s.lines, s.cursor_line);
    EditorState {
        lines: lines1.update(s.cursor_line, pad_to_bytes(lines1[s.cursor_line], s.cursor_column)),
        insert_mode: true,
        ..s
    }
}

/// `d`: the character under the cursor goes; past the end of a line the next
/// line joins it at the cursor column, counted in bytes.
pub open spec fn delete_ok(s: EditorState) -> bool {
    let c = s.cursor_column;
    let l = s.cursor_line;
    if on_line(s) && 0 <= c < cur(s).len() {
        true
    } else if l == -1 {
        false
    } else if 0 <= l && l + 1 < s.lines.len() {
        &&& c >= 0
        &&& is_boundary(cur(s), c)
        &&& byte_len(cur(s)) + byte_len(s.lines[l + 1]) <= isize::MAX
    } else {
        true
    }
}

pub open spec fn delete(s: EditorState) -> EditorState {
    let c = s.cursor_column;
    let l = s.cursor_line;
    if on_line(s) && 0 <= c < cur(s).len() {
        with_line(s, cur(s).remove(c))
    } else if 0 <= l && l + 1 < s.lines.len() {
        let i = boundary_index(cur(s), c);
        EditorState {
            lines: s.lines.update(l, cur(s).take(i) + s.lines[l + 1] + cur(s).skip(i)).remove(
                l + 1,
            ),
            ..s
        }
    } else {
        s
    }
}

/// Backspace in move mode.
pub open spec fn move_backspace_ok(s: EditorState) -> bool {
    let c = s.cursor_column;
    let l = s.cursor_line;
    if c > 0 {
        on_line(s) && c - 1 < cur(s).len()
    } else if l < 0 || l > s.lines.len() {
        l - 1 >= isize::MIN
    } else if l > 0 {
        l == s.lines.len() || byte_len(s.lines[l - 1]) + byte_len(s.lines[l]) <= isize::MAX
    } else {
        true
    }
}

pub open spec fn move_backspace(s: EditorState) -> EditorState {
    let c = s.cursor_column;
    let l = s.cursor_line;
    if c > 0 {
        EditorState {
            lines: s.lines.update(l, cur(s).remove(c - 1)),
            cursor_column: c - 1,
            ..s
        }
    } else if l < 0 || l > s.lines.len() {
        EditorState { cursor_line: l - 1, cursor_column: 0, ..s }
    } else if l > 0 {
        let prev = s.lines[l - 1];
        EditorState {
            lines: if l < s.lines.len() {
                s.lines.update(l - 1, prev + s.lines[l]).remove(l)
            } else {
                s.lines
            },
            cursor_line: l - 1,
            cursor_column: byte_len(prev) as int,
            ..s
        }
    } else {
        s
    }
}

/// `k`: the line is cut at the cursor column (in bytes); at or past its end
/// the next line joins it there.
pub open spec fn kill_joins(s: EditorState) -> bool {
    let c = s.cursor_column;
    on_line(s) && (c < 0 || c >= byte_len(cur(s))) && s.cursor_line + 1 < s.lines.len()
}

pub open spec fn kill_ok(s: EditorState) -> bool {
    let c = s.cursor_column;
    if kill_joins(s) {
        c >= 0 && c + byte_len(s.lines[s.cursor_line + 1]) <= isize::MAX
    } else if on_line(s) && 0 <= c < byte_len(cur(s)) {
        is_boundary(cur(s), c)
    } else {
        true
    }
}

pub open spec fn kill(s: EditorState) -> EditorState {
    let c = s.cursor_column;
    let l = s.cursor_line;
    if kill_joins(s) {
        EditorState {
            lines: s.lines.update(l, pad_to_bytes(cur(s), c) + s.lines[l + 1]).remove(l + 1),
            ..s
        }
    } else if on_line(s) && 0 <= c < byte_len(cur(s)) {
        with_line(s, cur(s).take(boundary_index(cur(s), c)))
    } else {
        s
    }
}

pub open spec fn command_ok(s: EditorState, cmd: Command) -> bool {
    match cmd {
        Command::Left => move_ok(s, 0, -1),
        Command::Right => move_ok(s, 0, 1),
        Command::Up => move_ok(s, -1, 0),
        Command::Down => move_ok(s, 1, 0),
        Command::LeftFour => move_ok(s, 0, -4),
        Command::RightFour => move_ok(s, 0, 4),
        Command::UpTen => move_ok(s, -10, 0),
        Command::DownTen => move_ok(s, 10, 0),
        Command::Insert => enter_insert_ok(s),
        Command::Delete => delete_ok(s),
        Command::Backspace => move_backspace_ok(s),
        Command::Kill => kill_ok(s),
        _ => true,
    }
}

pub open spec fn apply_command(s: EditorState, cmd: Command) -> (EditorState, Action) {
    match cmd {
        Command::Quit => (EditorState { running: false, ..s }, Action::Nothing),
        Command::ToggleLineNumbers => (
            EditorState { show_line_nums: !s.show_line_nums, ..s },
            Action::Nothing,
        ),
        Command::OpenFile => (
            EditorState { file_mode: FileMode::Open, bottom_bar: Seq::empty(), ..s },
            Action::FillOpenPrompt,
        ),
        Command::WriteFile => (
            EditorState { file_mode: FileMode::SaveAsPrompt, bottom_bar: Seq::empty(), ..s },
            Action::FillSavePrompt,
        ),
        Command::Left => (move_by(s, 0, -1), Action::Nothing),
        Command::Right => (move_by(s, 0, 1), Action::Nothing),
        Command::Up => (move_by(s, -1, 0), Action::Nothing),
        Command::Down => (move_by(s, 1, 0), Action::Nothing),
        Command::LeftFour => (move_by(s, 0, -4), Action::Nothing),
        Command::RightFour => (move_by(s, 0, 4), Action::Nothing),
        Command::UpTen => (move_by(s, -10, 0), Action::Nothing),
        Command::DownTen => (move_by(s, 10, 0), Action::Nothing),
        Command::Insert => (enter_insert(s), Action::Nothing),
        Command::Delete => (delete(s), Action::Nothing),
        Command::Backspace => (move_backspace(s), Action::Nothing),
        Command::Kill => (kill(s), Action::Nothing),
        Command::LineStart => (EditorState { cursor_column: 0, ..s }, Action::Nothing),
        Command::LineEnd => (
            EditorState {
                cursor_column: if on_line(s) {
                    cur(s).len() as int
                } else {
                    s.current_indentation
                },
                ..s
            },
            Action::Nothing,
        ),
        Command::Indentation => (
            EditorState { cursor_column: s.current_indentation, ..s },
            Action::Nothing,
        ),
        Command::Ignore => (s, Action::Nothing),
    }
}

// ---------------------------------------------------------------------------
// The bottom bar

pub open spec fn prompt_key_ok(s: EditorState, key: Key) -> bool {
    match key {
        Key::Char(c) => c != '\n' ==> byte_len(s.bottom_bar) + char_width(c) <= isize::MAX,
        _ => true,
    }
}

pub open spec fn prompt_key(s: EditorState, key: Key) -> (EditorState, Action) {
    match key {
        Key::Char(c) => if c == '\n' {
            (
                s,
                if s.file_mode == FileMode::Open {
                    Action::SubmitOpen
                } else {
                    Action::SubmitSave
                },
            )
        } else {
            (EditorState { bottom_bar: s.bottom_bar.push(c), ..s }, Action::Nothing)
        },
        Key::Backspace => (
            EditorState {
                bottom_bar: if s.bottom_bar.len() > 0 {
                    s.bottom_bar.drop_last()
                } else {
                    s.bottom_bar
                },
                ..s
            },
            Action::Nothing,
        ),
        Key::Esc => (EditorState { file_mode: FileMode::Edit, ..s }, Action::Nothing),
        _ => (s, Action::Nothing),
    }
}

// ---------------------------------------------------------------------------
// One key

/// The key can be handled without the arithmetic overflowing, a string
/// growing past what it can hold, or a position falling inside a character
/// or past the text it indexes.
pub open spec fn key_ok(s: EditorState, key: Key) -> bool {
    match s.file_mode {
        FileMode::Edit => if s.insert_mode {
            insert_key_ok(s, key)
        } else {
            command_ok(s, command_of(s.layout, key))
        },
        _ => prompt_key_ok(s, key),
    }
}

/// The state after `key`, and what the program around the editor must do.
pub open spec fn step(s: EditorState, key: Key) -> (EditorState, Action) {
    match s.file_mode {
        FileMode::Edit => if s.insert_mode {
            (insert_key(s, key), Action::Nothing)
        } else {
            apply_command(s, command_of(s.layout, key))
        },
        _ => prompt_key(s, key),
    }
}

} // verus!

verus! {

// ---------------------------------------------------------------------------
// The end of a frame

/// The number of decimal digits of `n` (one for zero).
pub open spec fn decimal_digits(n: nat) -> nat
    decreases n,
{
    if n < 10 {
        1
    } else {
        1 + decimal_digits(n / 10)
    }
}

/// The width of the line-number column: room for the largest line number,
/// a colon and padding.
pub open spec fn gutter_width(show: bool, line_count: nat) -> int {
    if show {
        3 + decimal_digits(line_count) as int
    } else {
        0
    }
}

pub open spec fn frame_ok(s: EditorState, height: int) -> bool {
    let cl = if s.cursor_line < 0 {
        0
    } else {
        s.cursor_line
    };
    &&& s.window_start + height <= usize::MAX
    &&& s.window_start + height >= 2
    &&& s.window_start + height - 2 <= cl ==> height >= 2
}

/// After the keys of a frame: the cursor is put back at or after the
/// start of the text, the window scrolls to show the cursor's line, the
/// line-number column is sized, and the indentation of the cursor's line is
/// taken.
pub open spec fn end_frame(s: EditorState, height: int) -> EditorState {
    let cl = if s.cursor_line < 0 {
        0
    } else {
        s.cursor_line
    };
    let cc = if s.cursor_column < 0 {
        0
    } else {
        s.cursor_column
    };
    let ws = if s.window_start + height - 2 <= cl {
        cl - (height - 2)
    } else if s.window_start > cl {
        cl
    } else {
        s.window_start
    };
    EditorState {
        cursor_line: cl,
        cursor_column: cc,
        window_start: ws,
        window_padding: gutter_width(s.show_line_nums, s.lines.len()),
        current_indentation: if 0 <= cl < s.lines.len() {
            leading_spaces(s.lines[cl]) as int
        } else {
            s.current_indentation
        },
        ..s
    }
}

// ---------------------------------------------------------------------------
// Files

/// `u` cut at its line breaks (one more piece than it has line breaks).
pub open spec fn split_at_newlines(u: Seq<char>) -> Seq<Seq<char>>
    decreases u.len(),
{
    if u.len() == 0 {
        seq![Seq::<char>::empty()]
    } else if u.last() == '\n' {
        split_at_newlines(u.drop_last()).push(Seq::<char>::empty())
    } else {
        let r = split_at_newlines(u.drop_last());
        r.update(r.len() - 1, r.last().push(u.last()))
    }
}

/// The lines read from the text of a file: each line ends at a line break,
/// and the last character of each line, the line break or else the last
/// character of the file, is dropped.
pub open spec fn file_lines(t: Seq<char>) -> Seq<Seq<char>> {
    if t.len() == 0 {
        Seq::empty()
    } else {
        split_at_newlines(t.drop_last())
    }
}

/// A text whose lines can be read: the last character, where it is not a
/// line break, takes one byte, so that dropping one byte drops it.
pub open spec fn loadable(t: Seq<char>) -> bool {
    &&& byte_len(t) <= isize::MAX
    &&& t.len() > 0 ==> (t.last() == '\n' || char_width(t.last()) == 1)
}

/// The lines of the editor after the lines of `t` are read into it over the
/// lines it had: the lines of the file replace the first ones, the line after
/// them is emptied (or added), and then the last line is dropped.
pub open spec fn loaded_lines(old_lines: Seq<Seq<char>>, t: Seq<char>) -> Seq<Seq<char>> {
    let f = file_lines(t);
    let rest = if f.len() + 1 < old_lines.len() {
        old_lines.skip(f.len() + 1 as int)
    } else {
        Seq::empty()
    };
    (f + seq![Seq::<char>::empty()] + rest).drop_last()
}

/// The text written for `lines`: each line followed by a line break.
pub open spec fn joined_text(lines: Seq<Seq<char>>) -> Seq<char>
    decreases lines.len(),
{
    if lines.len() == 0 {
        Seq::empty()
    } else {
        joined_text(lines.drop_last()) + lines.last() + seq!['\n']
    }
}

} // verus!
