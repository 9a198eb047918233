use vstd::prelude::*;

use crate::keys::{Command, Key, command_of, four_spaces_letter};
use crate::model::{EditorState, FileMode, key_ok, step};
use crate::screen::{gutter_text, row_text, row_y, shown_line};
use crate::terminal::{decimal, goto_text};
use crate::text::{
    boundary_index, byte_len, byte_offset, is_boundary, lemma_boundary_index,
    lemma_byte_offset_strict,
};

verus! {

/// `new` is `old` with `ins` put in at character index `p`: what came before
/// `p` stays in front, then `ins`, then the rest of `old` in order.
pub open spec fn holds_inserted(new: Seq<char>, old: Seq<char>, p: int, ins: Seq<char>) -> bool {
    &&& new.len() == old.len() + ins.len()
    &&& forall|i: int| 0 <= i < p ==> new[i] == old[i]
    &&& forall|i: int| 0 <= i < ins.len() ==> new[p + i] == ins[i]
    &&& forall|i: int| p <= i < old.len() ==> new[i + ins.len()] == old[i]
}

/// `n` spaces.
pub open spec fn blanks(n: int) -> Seq<char> {
    Seq::new(n as nat, |i: int| ' ')
}

/// Every line but line `l` is as it was.
pub open spec fn others_kept(new: Seq<Seq<char>>, old: Seq<Seq<char>>, l: int) -> bool {
    &&& new.len() == old.len()
    &&& forall|j: int| 0 <= j < old.len() && j != l ==> new[j] == old[j]
}

/// Line `l + 1` is gone and the lines after it moved up by one; the lines
/// before `l` are as they were.
pub open spec fn next_line_removed(new: Seq<Seq<char>>, old: Seq<Seq<char>>, l: int) -> bool {
    &&& new.len() == old.len() - 1
    &&& forall|j: int| 0 <= j < l ==> new[j] == old[j]
    &&& forall|j: int| l < j < new.len() ==> new[j] == old[j + 1]
}

pub open spec fn insert_mode_on(s: EditorState) -> bool {
    s.file_mode == FileMode::Edit && s.insert_mode
}

pub open spec fn move_mode_on(s: EditorState) -> bool {
    s.file_mode == FileMode::Edit && !s.insert_mode
}

/// Enter in insert mode cuts the cursor's line at the cursor: the text
/// before the cursor stays, and a new line below starts with as many spaces
/// as the indentation and then holds the text after the cursor, in order.
/// The cursor goes to the new line, after the spaces.
pub proof fn law_enter_splits_line(s: EditorState)
    requires
        insert_mode_on(s),
        key_ok(s, Key::Char('\n')),
        0 <= s.current_indentation,
    ensures
        ({
            let t = step(s, Key::Char('\n')).0;
            let l = s.cursor_line;
            let line = s.lines[l];
            let k = if s.cursor_column < 0 {
                0
            } else {
                s.cursor_column
            };
            let n = s.current_indentation;
            let fresh = t.lines[l + 1];
            &&& t.lines.len() == s.lines.len() + 1
            &&& t.lines[l] == line.take(k)
            &&& fresh.len() == n + line.len() - k
            &&& forall|i: int| 0 <= i < n ==> #[trigger] fresh[i] == ' '
            &&& forall|j: int| k <= j < line.len() ==> fresh[n + j - k] == #[trigger] line[j]
            &&& forall|j: int| 0 <= j < l ==> t.lines[j] == s.lines[j]
            &&& forall|j: int| l + 1 < j < t.lines.len() ==> t.lines[j] == s.lines[j - 1]
            &&& t.cursor_line == l + 1
            &&& t.cursor_column == n
        }),
{
    let t = step(s, Key::Char('\n')).0;
    let l = s.cursor_line;
    let line = s.lines[l];
    let k = if s.cursor_column < 0 {
        0
    } else {
        s.cursor_column
    };
    let n = s.current_indentation;
    let fresh = crate::text::spaces(n as nat) + line.skip(k);
    assert(t.lines == s.lines.update(l, line.take(k)).insert(l + 1, fresh));
    assert(t.lines[l + 1] == fresh);
    assert(t.lines[l] == line.take(k));
    assert(crate::text::spaces(n as nat).len() == n);
    assert(0 <= k <= line.len());
    assert forall|j: int| k <= j < line.len() implies fresh[n + j - k] == #[trigger] line[j] by {
        assert(fresh[n + j - k] == line.skip(k)[j - k]);
    }
    assert forall|i: int| 0 <= i < n implies #[trigger] fresh[i] == ' ' by {
        assert(fresh[i] == crate::text::spaces(n as nat)[i]);
    }
    assert forall|j: int| l + 1 < j < t.lines.len() implies t.lines[j] == s.lines[j - 1] by {}
}

/// Tab in insert mode writes spaces at the cursor (at the end of the line
/// where the cursor is past it), as many as reach the next multiple of four;
/// the text after the cursor moves right behind them.
pub proof fn law_tab_writes_at_cursor(s: EditorState)
    requires
        insert_mode_on(s),
        key_ok(s, Key::Char('\t')),
    ensures
        ({
            let t = step(s, Key::Char('\t')).0;
            let l = s.cursor_line;
            let line = s.lines[l];
            let c = s.cursor_column;
            let p = if c < line.len() {
                c
            } else {
                line.len() as int
            };
            let n = 4 - c % 4;
            &&& holds_inserted(t.lines[l], line, p, blanks(n))
            &&& others_kept(t.lines, s.lines, l)
            &&& t.cursor_column == c + n
            &&& t.cursor_column % 4 == 0
        }),
{
    let t = step(s, Key::Char('\t')).0;
    let l = s.cursor_line;
    assert(t.lines[l] == t.lines[l]);
}

/// The four-spaces key (Ctrl-t on Dvorak, Ctrl-k on Qwerty) in insert mode
/// writes four spaces at the cursor and moves the cursor after them.
pub proof fn law_four_spaces_at_cursor(s: EditorState)
    requires
        insert_mode_on(s),
        key_ok(s, Key::Ctrl(four_spaces_letter(s.layout))),
    ensures
        ({
            let t = step(s, Key::Ctrl(four_spaces_letter(s.layout))).0;
            let l = s.cursor_line;
            let line = s.lines[l];
            let c = s.cursor_column;
            let p = if c < line.len() {
                c
            } else {
                line.len() as int
            };
            &&& holds_inserted(t.lines[l], line, p, blanks(4))
            &&& others_kept(t.lines, s.lines, l)
            &&& t.cursor_column == c + 4
        }),
{
}

/// A character typed in insert mode goes in at the cursor (at the end of the
/// line where the cursor is past it), and the cursor moves past it.
pub proof fn law_char_typed_at_cursor(s: EditorState, ch: char)
    requires
        insert_mode_on(s),
        ch != '\n' && ch != '\t' && ch != '}',
        key_ok(s, Key::Char(ch)),
    ensures
        ({
            let t = step(s, Key::Char(ch)).0;
            let l = s.cursor_line;
            let line = s.lines[l];
            let c = s.cursor_column;
            let p = if c < line.len() {
                c
            } else {
                line.len() as int
            };
            &&& holds_inserted(t.lines[l], line, p, seq![ch])
            &&& others_kept(t.lines, s.lines, l)
            &&& t.cursor_column == c + 1
        }),
{
}

/// `}` in insert mode goes in at the cursor column, read as a byte position
/// of the line. Where the four characters before the cursor are spaces, they
/// (the bytes `c - 4 .. c`) are taken out first and the brace goes where
/// they began.
pub proof fn law_close_brace_at_cursor(s: EditorState)
    requires
        insert_mode_on(s),
        key_ok(s, Key::Char('}')),
    ensures
        ({
            let t = step(s, Key::Char('}')).0;
            let l = s.cursor_line;
            let line = s.lines[l];
            let c = s.cursor_column;
            let indent_before = c >= 4 && c - 1 < line.len() && line[c - 1] == ' ' && line[c - 2]
                == ' ' && line[c - 3] == ' ' && line[c - 4] == ' ';
            &&& others_kept(t.lines, s.lines, l)
            &&& !indent_before ==> t.cursor_column == c + 1 && forall|i: int|
                0 <= i <= line.len() && byte_offset(line, i) == c ==> holds_inserted(
                    #[trigger] t.lines[l],
                    line,
                    i,
                    seq!['}'],
                )
            &&& indent_before ==> t.cursor_column == c - 3 && forall|i: int, j: int|
                0 <= i <= j <= line.len() && byte_offset(line, i) == c - 4 && byte_offset(line, j)
                    == c ==> t.lines[l] == line.take(i) + seq!['}'] + line.skip(j)
        }),
{
    let t = step(s, Key::Char('}')).0;
    let l = s.cursor_line;
    let line = s.lines[l];
    let c = s.cursor_column;
    let indent_before = c >= 4 && c - 1 < line.len() && line[c - 1] == ' ' && line[c - 2] == ' '
        && line[c - 3] == ' ' && line[c - 4] == ' ';
    if !indent_before {
        assert forall|i: int|
            0 <= i <= line.len() && byte_offset(line, i) == c implies holds_inserted(
            #[trigger] t.lines[l],
            line,
            i,
            seq!['}'],
        ) by {
            lemma_boundary_index(line, c, i);
        }
    } else {
        assert forall|i: int, j: int|
            0 <= i <= j <= line.len() && byte_offset(line, i) == c - 4 && byte_offset(line, j)
                == c implies t.lines[l] == line.take(i) + seq!['}'] + line.skip(j) by {
            lemma_boundary_index(line, c - 4, i);
            lemma_boundary_index(line, c, j);
            let line1 = line.take(i) + line.skip(j);
            assert(line1.take(i) =~= line.take(i));
            lemma_boundary_index(line1, c - 4, i);
            assert(line1.insert(i, '}') =~= line.take(i) + seq!['}'] + line.skip(j));
        }
    }
}

/// `k` in move mode, on a line, with the cursor at or past the end of the
/// line (in bytes) and a line below: the line is filled with spaces up to
/// the cursor and the next line joins it there. Inside the line, the line is
/// cut at the cursor's byte position. On the last line past its end,
/// nothing changes.
pub proof fn law_kill(s: EditorState, key: Key)
    requires
        move_mode_on(s),
        command_of(s.layout, key) == Command::Kill,
        key_ok(s, key),
        0 <= s.cursor_line < s.lines.len(),
        0 <= s.cursor_column,
    ensures
        ({
            let t = step(s, key).0;
            let l = s.cursor_line;
            let line = s.lines[l];
            let c = s.cursor_column;
            let bl = byte_len(line) as int;
            &&& (c >= bl && l + 1 < s.lines.len()) ==> next_line_removed(t.lines, s.lines, l)
                && t.lines[l] == line + blanks(c - bl) + s.lines[l + 1]
            &&& (c < bl) ==> others_kept(t.lines, s.lines, l) && forall|i: int|
                0 <= i <= line.len() && byte_offset(line, i) == c ==> #[trigger] t.lines[l]
                    == line.take(i)
            &&& (c >= bl && l + 1 >= s.lines.len()) ==> t.lines == s.lines
            &&& t.cursor_line == s.cursor_line && t.cursor_column == s.cursor_column
        }),
{
    let t = step(s, key).0;
    let l = s.cursor_line;
    let line = s.lines[l];
    let c = s.cursor_column;
    let bl = byte_len(line) as int;
    if c >= bl && l + 1 < s.lines.len() {
        assert(crate::model::pad_to_bytes(line, c) =~= line + blanks(c - bl));
    }
    if c < bl {
        assert forall|i: int|
            0 <= i <= line.len() && byte_offset(line, i) == c implies #[trigger] t.lines[l]
            == line.take(i) by {
            lemma_boundary_index(line, c, i);
        }
    }
}

/// `d` in move mode: the character under the cursor goes; at or past the
/// end of the line (in characters) the next line joins it at the cursor
/// column, read as a byte position.
pub proof fn law_delete(s: EditorState, key: Key)
    requires
        move_mode_on(s),
        command_of(s.layout, key) == Command::Delete,
        key_ok(s, key),
        0 <= s.cursor_line < s.lines.len(),
        0 <= s.cursor_column,
    ensures
        ({
            let t = step(s, key).0;
            let l = s.cursor_line;
            let line = s.lines[l];
            let c = s.cursor_column;
            &&& c < line.len() ==> others_kept(t.lines, s.lines, l) && t.lines[l].len()
                == line.len() - 1 && (forall|i: int| 0 <= i < c ==> t.lines[l][i] == line[i])
                && (forall|i: int| c < i < line.len() ==> t.lines[l][i - 1] == line[i])
            &&& (c >= line.len() && l + 1 < s.lines.len()) ==> next_line_removed(
                t.lines,
                s.lines,
                l,
            ) && forall|i: int|
                0 <= i <= line.len() && byte_offset(line, i) == c ==> holds_inserted(
                    #[trigger] t.lines[l],
                    line,
                    i,
                    s.lines[l + 1],
                )
            &&& (c >= line.len() && l + 1 >= s.lines.len()) ==> t.lines == s.lines
        }),
{
    let t = step(s, key).0;
    let l = s.cursor_line;
    let line = s.lines[l];
    let c = s.cursor_column;
    if c >= line.len() && l + 1 < s.lines.len() {
        assert forall|i: int|
            0 <= i <= line.len() && byte_offset(line, i) == c implies holds_inserted(
            #[trigger] t.lines[l],
            line,
            i,
            s.lines[l + 1],
        ) by {
            lemma_boundary_index(line, c, i);
        }
    }
}

/// With line numbers shown, the number drawn in the gutter of screen line
/// `i` is the one-based number of the text line shown on it, `window_start
/// + i + 1`; it comes right after the move to the row and the blank gutter.
pub proof fn law_gutter_numbers_shown_line(s: EditorState, width: int, i: int, skips: int)
    requires
        s.show_line_nums,
        0 <= s.window_start,
        0 <= i,
        0 <= s.window_padding,
    ensures
        ({
            let n = s.window_start + i + 1;
            let y = row_y(i + skips);
            let a = 2 * goto_text(0, y).len() + s.window_padding;
            &&& shown_line(s, i) == s.lines[n - 1]
            &&& row_text(s, width, i, skips).subrange(a, a + decimal(n as nat).len())
                == decimal(n as nat)
            &&& row_text(s, width, i, skips).subrange(0, goto_text(0, y).len() as int) == goto_text(
                0,
                y,
            )
        }),
{
    reveal(row_text);
    let n = s.window_start + i + 1;
    let y = row_y(i + skips);
    let g = goto_text(0, y);
    let a = 2 * g.len() + s.window_padding;
    let r = row_text(s, width, i, skips);
    let gt = gutter_text(s, i, y);
    assert(r.subrange(0, gt.len() as int) =~= gt);
    assert(gt.subrange(a, a + decimal(n as nat).len()) =~= decimal(n as nat));
    assert(gt.subrange(0, g.len() as int) =~= g);
}

/// Backspace in insert mode: with the cursor after the start of its line,
/// the character before the cursor goes and the cursor moves onto its
/// place; at the start of a line below the first, the line joins the end of
/// the one above and the cursor goes to where they meet, counted in
/// characters; at the start of the text nothing changes.
pub proof fn law_insert_backspace(s: EditorState)
    requires
        insert_mode_on(s),
        key_ok(s, Key::Backspace),
    ensures
        ({
            let t = step(s, Key::Backspace).0;
            let l = s.cursor_line;
            let c = s.cursor_column;
            &&& c > 0 ==> t.lines[l].len() + 1 == s.lines[l].len() && holds_inserted(
                s.lines[l],
                t.lines[l],
                c - 1,
                seq![s.lines[l][c - 1]],
            ) && others_kept(t.lines, s.lines, l) && t.cursor_column == c - 1 && t.cursor_line
                == l
            &&& (c <= 0 && l > 0) ==> next_line_removed(t.lines, s.lines, l - 1) && t.lines[l - 1]
                == s.lines[l - 1] + s.lines[l] && t.cursor_line == l - 1 && t.cursor_column
                == s.lines[l - 1].len()
            &&& (c <= 0 && l <= 0) ==> t == s
        }),
{
    let t = step(s, Key::Backspace).0;
    let l = s.cursor_line;
    let c = s.cursor_column;
    if c > 0 {
        assert(s.lines[l] =~= s.lines[l].remove(c - 1).insert(c - 1, s.lines[l][c - 1]));
    }
}

/// Backspace in move mode: like in insert mode within a line; at the start
/// of a line below the first (and at most one past the last), the line
/// joins the one above and the cursor goes to where they meet, counted in
/// bytes; above the text or further below it, the cursor only moves up a
/// line to the start.
pub proof fn law_move_backspace(s: EditorState, key: Key)
    requires
        move_mode_on(s),
        command_of(s.layout, key) == Command::Backspace,
        key_ok(s, key),
    ensures
        ({
            let t = step(s, key).0;
            let l = s.cursor_line;
            let c = s.cursor_column;
            &&& c > 0 ==> t.lines[l].len() + 1 == s.lines[l].len() && holds_inserted(
                s.lines[l],
                t.lines[l],
                c - 1,
                seq![s.lines[l][c - 1]],
            ) && others_kept(t.lines, s.lines, l) && t.cursor_column == c - 1 && t.cursor_line
                == l
            &&& (c <= 0 && 0 < l < s.lines.len()) ==> next_line_removed(t.lines, s.lines, l - 1)
                && t.lines[l - 1] == s.lines[l - 1] + s.lines[l] && t.cursor_line == l - 1
                && t.cursor_column == byte_len(s.lines[l - 1])
            &&& (c <= 0 && l == s.lines.len() && l > 0) ==> t.lines == s.lines && t.cursor_line
                == l - 1 && t.cursor_column == byte_len(s.lines[l - 1])
            &&& (c <= 0 && (l < 0 || l > s.lines.len())) ==> t.lines == s.lines && t.cursor_line
                == l - 1 && t.cursor_column == 0
            &&& (c <= 0 && l == 0) ==> t == s
        }),
{
    let t = step(s, key).0;
    let l = s.cursor_line;
    let c = s.cursor_column;
    if c > 0 {
        assert(s.lines[l] =~= s.lines[l].remove(c - 1).insert(c - 1, s.lines[l][c - 1]));
    }
}

/// `i` in move mode starts insert mode; empty lines are added so that the
/// cursor's line exists, and that line is filled with spaces up to the
/// cursor column, counted in bytes. Nothing else changes.
pub proof fn law_enter_insert_mode(s: EditorState, key: Key)
    requires
        move_mode_on(s),
        command_of(s.layout, key) == Command::Insert,
        key_ok(s, key),
    ensures
        ({
            let t = step(s, key).0;
            let l = s.cursor_line;
            let c = s.cursor_column;
            let n = if l < s.lines.len() {
                s.lines.len() as int
            } else {
                l + 1
            };
            let old_line = if l < s.lines.len() {
                s.lines[l]
            } else {
                Seq::<char>::empty()
            };
            let bl = byte_len(old_line) as int;
            &&& t.insert_mode
            &&& t.lines.len() == n
            &&& forall|j: int| 0 <= j < s.lines.len() && j != l ==> t.lines[j] == s.lines[j]
            &&& forall|j: int| s.lines.len() <= j < n && j != l ==> t.lines[j].len() == 0
            &&& c > bl ==> t.lines[l] == old_line + blanks(c - bl)
            &&& c <= bl ==> t.lines[l] == old_line
            &&& t.cursor_line == l && t.cursor_column == c
        }),
{
    let t = step(s, key).0;
    let l = s.cursor_line;
    let c = s.cursor_column;
    let old_line = if l < s.lines.len() {
        s.lines[l]
    } else {
        Seq::<char>::empty()
    };
    let bl = byte_len(old_line) as int;
    if c > bl {
        assert(crate::model::pad_to_bytes(old_line, c) =~= old_line + blanks(c - bl));
    }
}

/// In move mode the moving keys move the cursor by their amount: one column
/// or line, four columns, or ten lines; Esc goes to the start of the line,
/// the line-end key to just after its last character, and the indentation
/// key to the indentation. The text stays as it is.
pub proof fn law_motion_amounts(s: EditorState, key: Key)
    requires
        move_mode_on(s),
        key_ok(s, key),
    ensures
        ({
            let t = step(s, key).0;
            let cmd = command_of(s.layout, key);
            let l = s.cursor_line;
            let c = s.cursor_column;
            &&& cmd == Command::Left ==> t.cursor_line == l && t.cursor_column == c - 1
            &&& cmd == Command::Right ==> t.cursor_line == l && t.cursor_column == c + 1
            &&& cmd == Command::Up ==> t.cursor_line == l - 1 && t.cursor_column == c
            &&& cmd == Command::Down ==> t.cursor_line == l + 1 && t.cursor_column == c
            &&& cmd == Command::LeftFour ==> t.cursor_line == l && t.cursor_column == c - 4
            &&& cmd == Command::RightFour ==> t.cursor_line == l && t.cursor_column == c + 4
            &&& cmd == Command::UpTen ==> t.cursor_line == l - 10 && t.cursor_column == c
            &&& cmd == Command::DownTen ==> t.cursor_line == l + 10 && t.cursor_column == c
            &&& cmd == Command::LineStart ==> t.cursor_line == l && t.cursor_column == 0
            &&& cmd == Command::LineEnd ==> t.cursor_line == l && t.cursor_column == (if 0 <= l
                < s.lines.len() {
                s.lines[l].len() as int
            } else {
                s.current_indentation
            })
            &&& cmd == Command::Indentation ==> t.cursor_line == l && t.cursor_column
                == s.current_indentation
            &&& cmd == Command::ToggleLineNumbers ==> t.show_line_nums == !s.show_line_nums
                && t.running == s.running
            &&& cmd == Command::Quit ==> !t.running && t.show_line_nums == s.show_line_nums
            &&& (cmd != Command::Insert && cmd != Command::Delete && cmd != Command::Backspace
                && cmd != Command::Kill) ==> t.lines == s.lines && t.insert_mode == s.insert_mode
        }),
{
}

/// While the bottom bar asks for a path, a character goes at its end,
/// Backspace takes its last character off, Esc goes back to editing, and
/// Enter leaves everything as it is and asks the program to open or write
/// the path. The text never changes.
pub proof fn law_prompt_keys(s: EditorState, key: Key)
    requires
        s.file_mode != FileMode::Edit,
        key_ok(s, key),
    ensures
        ({
            let (t, a) = step(s, key);
            let bar = s.bottom_bar;
            &&& t.lines == s.lines && t.cursor_line == s.cursor_line && t.cursor_column
                == s.cursor_column
            &&& key == Key::Char('\n') ==> t == s && a == (if s.file_mode == FileMode::Open {
                crate::model::Action::SubmitOpen
            } else {
                crate::model::Action::SubmitSave
            })
            &&& (forall|ch: char| key == Key::Char(ch) && ch != '\n' ==> t.bottom_bar.len() == bar.len()
                + 1 && t.bottom_bar.take(bar.len() as int) == bar && t.bottom_bar.last() == ch
                && t.file_mode == s.file_mode)
            &&& key == Key::Backspace && bar.len() > 0 ==> t.bottom_bar == bar.take(bar.len() - 1)
            &&& key == Key::Backspace && bar.len() == 0 ==> t.bottom_bar.len() == 0
            &&& key == Key::Esc ==> t.file_mode == FileMode::Edit && t.bottom_bar == bar
        }),
{
    let (t, a) = step(s, key);
    let bar = s.bottom_bar;
    assert forall|ch: char| key == Key::Char(ch) && ch != '\n' implies t.bottom_bar.len() == bar.len()
        + 1 && t.bottom_bar.take(bar.len() as int) == bar && t.bottom_bar.last() == ch
        && t.file_mode == s.file_mode by {
        assert(t.bottom_bar.take(bar.len() as int) =~= bar);
    }
    if key == Key::Backspace && bar.len() > 0 {
        assert(bar.drop_last() =~= bar.take(bar.len() - 1));
    }
}

/// Keys without a meaning change nothing: in move mode those that no
/// command is bound to, and in insert mode Ctrl with another letter than the
/// four-spaces one and the other keys. Esc in insert mode only leaves insert
/// mode.
pub proof fn law_idle_keys(s: EditorState, key: Key)
    requires
        s.file_mode == FileMode::Edit,
        key_ok(s, key),
    ensures
        !s.insert_mode && command_of(s.layout, key) == Command::Ignore ==> step(s, key) == (
        s,
        crate::model::Action::Nothing,
        ),
        s.insert_mode && key == Key::Other ==> step(s, key).0 == s,
        s.insert_mode && (key matches Key::Ctrl(c) && c != four_spaces_letter(s.layout)) ==> step(
            s,
            key,
        ).0 == s,
        s.insert_mode && key == Key::Esc ==> step(s, key).0 == (EditorState {
            insert_mode: false,
            ..s
        }),
{
}

} // verus!
