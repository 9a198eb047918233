use vstd::prelude::*;

use crate::keys::{Command, Key, Layout, decode_command, four_spaces_key};
use crate::model::{
    Action, EditorState, FileMode, apply_command, brace_line, brace_strips,
    close_brace, close_brace_ok, command_ok, cur, delete, delete_ok, enter_insert,
    enter_insert_ok, fits_text, insert_backspace, insert_backspace_ok, insert_char,
    insert_char_ok, insert_key, insert_key_ok, key_ok, kill, kill_ok, lines_through,
    move_backspace, move_backspace_ok, no_newline, on_line, pad_ok,
    pad_spaces, pad_to_bytes, prompt_key, prompt_key_ok, split_line, split_ok, state_wf, step,
    lemma_no_newline_parts, decimal_digits, end_frame, frame_ok,
    file_lines, loadable, loaded_lines, joined_text, split_at_newlines,
};
use crate::text::{
    byte_len, byte_len_of, fits_in_string, char_index_at_byte, char_width_of, count_leading_spaces, lemma_boundary_index,
    lemma_byte_len_concat, lemma_byte_len_insert, lemma_byte_len_remove, lemma_byte_len_spaces,
    lemma_byte_len_take_skip, lemma_byte_offset_strict, lemma_byte_len_at_least_len,
    push_spaces, spaces, lemma_leading_spaces_at_most,
};

verus! {

/// The text being edited with the cursor, the view on it and the input mode.
pub struct Editor {
    /// The lines of the text, without line breaks.
    pub lines: Vec<Vec<char>>,
    /// The line of the cursor; it may leave the text for a moment between
    /// frames, and is put back at the end of each frame.
    pub cursor_line: isize,
    /// The column of the cursor.
    pub cursor_column: isize,
    /// The first line shown on the screen.
    pub window_start: usize,
    /// The width of the line-number column.
    pub window_padding: usize,
    pub show_line_nums: bool,
    /// False once the user has asked to quit.
    pub running: bool,
    /// The number of spaces that the cursor's line starts with, as of the
    /// last frame.
    pub current_indentation: usize,
    pub insert_mode: bool,
    pub file_mode: FileMode,
    /// The text of the bottom bar while a path is asked for.
    pub bottom_bar: Vec<char>,
    pub layout: Layout,
}

/// The lines of a text, each as a sequence of characters.
pub open spec fn lines_view(v: Seq<Vec<char>>) -> Seq<Seq<char>> {
    Seq::new(v.len(), |i: int| v[i]@)
}

impl View for Editor {
    type V = EditorState;

    open spec fn view(&self) -> EditorState {
        EditorState {
            lines: lines_view(self.lines@),
            cursor_line: self.cursor_line as int,
            cursor_column: self.cursor_column as int,
            window_start: self.window_start as int,
            window_padding: self.window_padding as int,
            show_line_nums: self.show_line_nums,
            running: self.running,
            current_indentation: self.current_indentation as int,
            insert_mode: self.insert_mode,
            file_mode: self.file_mode,
            bottom_bar: self.bottom_bar@,
            layout: self.layout,
        }
    }
}

/// The number of decimal digits of `n` (one for zero).
pub fn count_digits(n: usize) -> (d: usize)
    ensures
        d == decimal_digits(n as nat),
        1 <= d <= n + 1,
{
    let mut m = n;
    let mut d: usize = 1;
    proof {
        lemma_digits_at_most(n as nat);
    }
    while m >= 10
        invariant
            d + decimal_digits(m as nat) == 1 + decimal_digits(n as nat),
            1 <= d,
            n >= 1 ==> decimal_digits(n as nat) <= n,
        decreases m,
    {
        assert(decimal_digits(m as nat) >= 2) by {
            reveal_with_fuel(decimal_digits, 2);
        }
        m = m / 10;
        d = d + 1;
    }
    proof {
        reveal_with_fuel(decimal_digits, 2);
    }
    d
}

/// Whether the lines of `text` can be read: it fits in a string, and its
/// last character, unless a line break, takes one byte.
pub fn can_load(text: &Vec<char>) -> (b: bool)
    ensures
        b == loadable(text@),
{
    if !fits_in_string(text) {
        return false;
    }
    if text.len() == 0 {
        return true;
    }
    let last = text[text.len() - 1];
    last == '\n' || char_width_of(last) == 1
}

/// The lines of the text of a file, as `file_lines` says.
pub fn read_lines(text: &Vec<char>) -> (r: Vec<Vec<char>>)
    requires
        loadable(text@),
    ensures
        lines_view(r@) == file_lines(text@),
        r@.len() <= text@.len(),
        forall|i: int| 0 <= i < r@.len() ==> #[trigger] fits_text(r@[i]@),
        forall|i: int| 0 <= i < r@.len() ==> #[trigger] no_newline(r@[i]@),
{
    if text.len() == 0 {
        let r: Vec<Vec<char>> = Vec::new();
        assert(lines_view(r@) =~= file_lines(text@));
        return r;
    }
    let end = text.len() - 1;
    let mut r: Vec<Vec<char>> = Vec::new();
    let mut cur: Vec<char> = Vec::new();
    let mut i: usize = 0;
    proof {
        lemma_byte_len_take_skip(text@, end as int);
        assert(text@.take(0) =~= Seq::<char>::empty());
        assert(lines_view(r@).push(cur@) =~= split_at_newlines(text@.take(0)));
    }
    while i < end
        invariant
            end == text@.len() - 1,
            i <= end,
            lines_view(r@).push(cur@) == split_at_newlines(text@.take(i as int)),
            byte_len(cur@) <= byte_len(text@.take(i as int)),
            byte_len(text@.take(end as int)) <= byte_len(text@),
            loadable(text@),
            no_newline(cur@),
            r@.len() <= i,
            forall|k: int| 0 <= k < r@.len() ==> #[trigger] fits_text(r@[k]@),
            forall|k: int| 0 <= k < r@.len() ==> #[trigger] no_newline(r@[k]@),
        decreases end - i,
    {
        let ghost before = text@.take(i as int);
        proof {
            assert(text@.take(i + 1).drop_last() =~= before);
            assert(text@.take(i + 1).last() == text@[i as int]);
            lemma_byte_len_take_skip(text@.take(end as int), i + 1);
            assert(text@.take(end as int).take(i + 1) =~= text@.take(i + 1));
            lemma_byte_len_take_skip(text@.take(end as int), i as int);
            assert(text@.take(end as int).take(i as int) =~= text@.take(i as int));
        }
        let c = text[i];
        if c == '\n' {
            assert(fits_text(cur@));
            let ghost old_r = r@;
            let ghost cv = cur@;
            r.push(cur);
            cur = Vec::new();
            proof {
                assert forall|k: int| 0 <= k < r@.len() implies fits_text(r@[k]@) && no_newline(
                    r@[k]@,
                ) by {
                    if k < old_r.len() {
                        assert(r@[k] == old_r[k]);
                    } else {
                        assert(r@[k]@ == cv);
                    }
                }
                assert(byte_len(Seq::<char>::empty()) == 0);
                assert(lines_view(r@).push(cur@) =~= split_at_newlines(before).push(
                    Seq::<char>::empty(),
                ));
            }
        } else {
            let ghost old_cur = cur@;
            cur.push(c);
            proof {
                assert(cur@.drop_last() =~= old_cur);
                lemma_no_newline_parts(old_cur, seq![c], old_cur.len() as int, 0, c, 0);
                assert(old_cur.insert(old_cur.len() as int, c) =~= cur@);
                let prev = split_at_newlines(before);
                assert(lines_view(r@).push(cur@) =~= prev.update(prev.len() - 1, prev.last().push(c)));
            }
        }
        i = i + 1;
    }
    assert(fits_text(cur@));
    let ghost old_r = r@;
    let ghost cv = cur@;
    r.push(cur);
    proof {
        assert forall|k: int| 0 <= k < r@.len() implies fits_text(r@[k]@) && no_newline(r@[k]@) by {
            if k < old_r.len() {
                assert(r@[k] == old_r[k]);
            } else {
                assert(r@[k]@ == cv);
            }
        }
        assert(text@.take(end as int) =~= text@.drop_last());
        assert(lines_view(r@) =~= file_lines(text@));
        lemma_byte_len_at_least_len(text@);
    }
    r
}

/// Adds empty lines to `lines` until it has a line with index `l`.
fn grow_to(lines: &mut Vec<Vec<char>>, l: usize)
    ensures
        lines_view(final(lines)@) == lines_through(lines_view(old(lines)@), l as int),
{
    let ghost n = old(lines)@.len();
    while lines.len() <= l
        invariant
            n <= lines@.len(),
            n <= l ==> lines@.len() <= l + 1,
            n > l ==> lines@.len() == n,
            forall|i: int| 0 <= i < n ==> lines@[i] == old(lines)@[i],
            forall|i: int| n <= i < lines@.len() ==> lines@[i]@ == Seq::<char>::empty(),
        decreases l + 1 - lines.len(),
    {
        lines.push(Vec::new());
    }
    assert(lines_view(lines@) =~= lines_through(lines_view(old(lines)@), l as int));
}

proof fn lemma_digits_at_most(n: nat)
    ensures
        n >= 1 ==> decimal_digits(n) <= n,
    decreases n,
{
    if n >= 10 {
        lemma_digits_at_most(n / 10);
    }
}

/// The editor as it starts: one empty line, the cursor at its start, line
/// numbers shown, move mode.
pub open spec fn initial_state(layout: Layout) -> EditorState {
    EditorState {
        lines: seq![Seq::<char>::empty()],
        cursor_line: 0,
        cursor_column: 0,
        window_start: 0,
        window_padding: 0,
        show_line_nums: true,
        running: true,
        current_indentation: 0,
        insert_mode: false,
        file_mode: FileMode::Edit,
        bottom_bar: Seq::empty(),
        layout,
    }
}

impl Editor {
    /// The editor's invariant.
    pub open spec fn wf(&self) -> bool {
        state_wf(self@)
    }

    /// A fresh editor with one empty line.
    pub fn new(layout: Layout) -> (e: Editor)
        ensures
            e.wf(),
            e@ == initial_state(layout),
    {
        let mut lines: Vec<Vec<char>> = Vec::new();
        lines.push(Vec::new());
        let e = Editor {
            lines,
            cursor_line: 0,
            cursor_column: 0,
            window_start: 0,
            window_padding: 0,
            show_line_nums: true,
            running: true,
            current_indentation: 0,
            insert_mode: false,
            file_mode: FileMode::Edit,
            bottom_bar: Vec::new(),
            layout,
        };
        assert(e@.lines =~= seq![Seq::<char>::empty()]);
        proof {
            assert(byte_len(Seq::<char>::empty()) == 0);
        }
        e
    }

    /// Writes `c` at the cursor (at the end of the line where the cursor is
    /// past it).
    fn write_char(&mut self, c: char)
        requires
            old(self).wf(),
            insert_char_ok(old(self)@, c),
            c != '\n',
        ensures
            final(self).wf(),
            final(self)@ == insert_char(old(self)@, c),
    {
        let l = self.cursor_line as usize;
        let len = self.lines[l].len();
        let pos: usize = if (self.cursor_column as usize) < len {
            self.cursor_column as usize
        } else {
            len
        };
        proof {
            let line = self.lines@[l as int]@;
            assert(fits_text(old(self)@.lines[l as int]));
            assert(no_newline(old(self)@.lines[l as int]));
            lemma_byte_len_insert(line, pos as int, c);
            lemma_no_newline_parts(line, line, pos as int, 0, c, 0);
        }
        self.lines[l].insert(pos, c);
        self.cursor_column = self.cursor_column + 1;
        assert(self@.lines =~= old(self)@.lines.update(
            l as int,
            old(self)@.lines[l as int].insert(pos as int, c),
        ));
    }

    /// Writes `n` spaces at the cursor (at the end of the line where the
    /// cursor is past it) and moves the cursor after them.
    fn write_spaces(&mut self, n: usize)
        requires
            old(self).wf(),
            pad_ok(old(self)@, n as int),
        ensures
            final(self).wf(),
            final(self)@ == pad_spaces(old(self)@, n as int),
    {
        let l = self.cursor_line as usize;
        let ghost line = self.lines@[l as int]@;
        let len = self.lines[l].len();
        let pos: usize = if (self.cursor_column as usize) < len {
            self.cursor_column as usize
        } else {
            len
        };
        let mut tail = self.lines[l].split_off(pos);
        push_spaces(&mut self.lines[l], n);
        self.lines[l].append(&mut tail);
        self.cursor_column = self.cursor_column + n as isize;
        proof {
            let new_line = line.take(pos as int) + spaces(n as nat) + line.skip(pos as int);
            assert(no_newline(old(self)@.lines[l as int]));
            lemma_no_newline_parts(line, line, pos as int, 0, ' ', n as nat);
            lemma_no_newline_parts(line.take(pos as int), spaces(n as nat), 0, 0, ' ', 0);
            lemma_no_newline_parts(line.take(pos as int) + spaces(n as nat), line.skip(pos as int), 0, 0, ' ', 0);
            assert(self.lines@[l as int]@ =~= new_line);
            lemma_byte_len_take_skip(line, pos as int);
            lemma_byte_len_spaces(n as nat);
            lemma_byte_len_concat(line.take(pos as int), spaces(n as nat));
            lemma_byte_len_concat(line.take(pos as int) + spaces(n as nat), line.skip(pos as int));
            assert(self@.lines =~= old(self)@.lines.update(l as int, new_line));
            assert(no_newline(new_line));
        }
    }

    /// Enter in insert mode: the line breaks at the cursor and the new line
    /// starts with the indentation.
    fn break_line(&mut self)
        requires
            old(self).wf(),
            split_ok(old(self)@),
        ensures
            final(self).wf(),
            final(self)@ == split_line(old(self)@),
    {
        let l = self.cursor_line as usize;
        let ghost line = self.lines@[l as int]@;
        let k: usize = if self.cursor_column < 0 {
            0
        } else {
            self.cursor_column as usize
        };
        let mut tail = self.lines[l].split_off(k);
        let mut fresh: Vec<char> = Vec::new();
        push_spaces(&mut fresh, self.current_indentation);
        fresh.append(&mut tail);
        self.lines.insert(l + 1, fresh);
        self.cursor_column = self.current_indentation as isize;
        self.cursor_line = self.cursor_line + 1;
        proof {
            let ind = old(self).current_indentation as nat;
            let head = line.take(k as int);
            let rest = spaces(ind) + line.skip(k as int);
            lemma_byte_len_take_skip(line, k as int);
            lemma_byte_len_spaces(ind);
            assert(no_newline(old(self)@.lines[l as int]));
            lemma_no_newline_parts(line, line, k as int, 0, ' ', ind);
            lemma_no_newline_parts(spaces(ind), line.skip(k as int), 0, 0, ' ', 0);
            lemma_byte_len_concat(spaces(ind), line.skip(k as int));
            assert(self@.lines =~= old(self)@.lines.update(l as int, head).insert(
                l + 1,
                rest,
            ));
            assert(no_newline(head));
            assert(no_newline(rest));
        }
    }

    /// `}` in insert mode.
    fn write_close_brace(&mut self)
        requires
            old(self).wf(),
            close_brace_ok(old(self)@),
        ensures
            final(self).wf(),
            final(self)@ == close_brace(old(self)@),
    {
        let l = self.cursor_line as usize;
        let c = self.cursor_column;
        let ghost line = self.lines@[l as int]@;
        proof {
            assert(no_newline(old(self)@.lines[l as int]));
        }
        let len = self.lines[l].len();
        let strips = c >= 4 && ((c - 1) as usize) < len && self.lines[l][(c - 1) as usize] == ' '
            && self.lines[l][(c - 2) as usize] == ' ' && self.lines[l][(c - 3) as usize] == ' '
            && self.lines[l][(c - 4) as usize] == ' ';
        assert(strips == brace_strips(line, c as int));
        let mut col = c;
        if strips {
            let i = match char_index_at_byte(&self.lines[l], (c - 4) as usize) {
                Some(i) => i,
                // Not reached: the key was accepted only at a boundary.
                None => {
                    return;
                },
            };
            let j = match char_index_at_byte(&self.lines[l], c as usize) {
                Some(j) => j,
                // Not reached: the key was accepted only at a boundary.
                None => {
                    return;
                },
            };
            proof {
                if i > j {
                    lemma_byte_offset_strict(line, j as int, i as int);
                }
            }
            let mut tail = self.lines[l].split_off(j);
            self.lines[l].truncate(i);
            self.lines[l].append(&mut tail);
            col = c - 4;
            proof {
                assert(self.lines@[l as int]@ =~= line.take(i as int) + line.skip(j as int));
                lemma_no_newline_parts(line, line, i as int, 0, ' ', 0);
                lemma_no_newline_parts(line, line, j as int, 0, ' ', 0);
                lemma_no_newline_parts(line.take(i as int), line.skip(j as int), 0, 0, ' ', 0);
            }
        }
        let ghost line1 = self.lines@[l as int]@;
        assert(line1 == brace_line(line, c as int));
        let k = match char_index_at_byte(&self.lines[l], col as usize) {
            Some(k) => k,
            // Not reached: the key was accepted only at a boundary.
            None => {
                return;
            },
        };
        proof {
            lemma_byte_len_insert(line1, k as int, '}');
            lemma_no_newline_parts(line1, line1, k as int, 0, '}', 0);
        }
        self.lines[l].insert(k, '}');
        self.cursor_column = col + 1;
        assert(self@.lines =~= old(self)@.lines.update(l as int, line1.insert(k as int, '}')));
    }

    /// Backspace in insert mode.
    fn insert_mode_backspace(&mut self)
        requires
            old(self).wf(),
            insert_backspace_ok(old(self)@),
        ensures
            final(self).wf(),
            final(self)@ == insert_backspace(old(self)@),
    {
        if self.cursor_column > 0 {
            let l = self.cursor_line as usize;
            let k = (self.cursor_column - 1) as usize;
            let ghost line = self.lines@[l as int]@;
            proof {
                assert(no_newline(old(self)@.lines[l as int]));
                assert(fits_text(old(self)@.lines[l as int]));
                lemma_byte_len_remove(line, k as int);
                lemma_no_newline_parts(line, line, 0, k as int, ' ', 0);
            }
            self.lines[l].remove(k);
            self.cursor_column = self.cursor_column - 1;
            assert(self@.lines =~= old(self)@.lines.update(l as int, line.remove(k as int)));
        } else if self.cursor_line > 0 {
            let l = self.cursor_line as usize;
            let ghost prev = self.lines@[l - 1]@;
            let ghost this = self.lines@[l as int]@;
            proof {
                assert(no_newline(old(self)@.lines[l as int]));
                assert(no_newline(old(self)@.lines[l - 1]));
                assert(fits_text(old(self)@.lines[l - 1]));
                lemma_byte_len_concat(prev, this);
                lemma_no_newline_parts(prev, this, 0, 0, ' ', 0);
                lemma_byte_len_at_least_len(prev);
            }
            let mut moved = self.lines.remove(l);
            let n = self.lines[l - 1].len();
            self.lines[l - 1].append(&mut moved);
            self.cursor_line = self.cursor_line - 1;
            self.cursor_column = n as isize;
            assert(self@.lines =~= old(self)@.lines.update(l - 1, prev + this).remove(l as int));
        }
    }

    /// `i`: adds lines up to the cursor's, fills the cursor's line with
    /// spaces up to the cursor column (counted in bytes) and starts insert
    /// mode.
    fn start_insert(&mut self)
        requires
            old(self).wf(),
            enter_insert_ok(old(self)@),
        ensures
            final(self).wf(),
            final(self)@ == enter_insert(old(self)@),
    {
        let l = self.cursor_line as usize;
        let c = self.cursor_column as usize;
        grow_to(&mut self.lines, l);
        let ghost lines1 = self@.lines;
        assert(lines1 =~= lines_through(old(self)@.lines, l as int));
        proof {
            if l < old(self)@.lines.len() {
                assert(no_newline(old(self)@.lines[l as int]));
                assert(fits_text(old(self)@.lines[l as int]));
            } else {
                assert(lines1[l as int] == Seq::<char>::empty());
                assert(byte_len(Seq::<char>::empty()) == 0);
            }
        }
        let ghost line = lines1[l as int];
        let bl = byte_len_of(&self.lines[l]);
        if c > bl {
            push_spaces(&mut self.lines[l], c - bl);
            proof {
                lemma_byte_len_spaces((c - bl) as nat);
                lemma_byte_len_concat(line, spaces((c - bl) as nat));
                lemma_no_newline_parts(line, spaces((c - bl) as nat), 0, 0, ' ', (c - bl) as nat);
            }
        }
        self.insert_mode = true;
        proof {
            assert(self@.lines =~= lines1.update(l as int, pad_to_bytes(line, c as int)));
            assert forall|i: int| 0 <= i < self@.lines.len() implies #[trigger] fits_text(
                self@.lines[i],
            ) && no_newline(self@.lines[i]) by {
                if i != l && i < old(self)@.lines.len() {
                    assert(fits_text(old(self)@.lines[i]));
                    assert(no_newline(old(self)@.lines[i]));
                } else if i != l {
                    assert(self@.lines[i] == Seq::<char>::empty());
                    assert(byte_len(Seq::<char>::empty()) == 0);
                }
            }
        }
    }

    /// `d` in move mode.
    fn delete_at_cursor(&mut self)
        requires
            old(self).wf(),
            delete_ok(old(self)@),
        ensures
            final(self).wf(),
            final(self)@ == delete(old(self)@),
    {
        let c = self.cursor_column;
        if self.cursor_line >= 0 && (self.cursor_line as usize) < self.lines.len() && c >= 0 && (c
            as usize) < self.lines[self.cursor_line as usize].len() {
            let l = self.cursor_line as usize;
            let k = c as usize;
            let ghost line = self.lines@[l as int]@;
            proof {
                assert(no_newline(old(self)@.lines[l as int]));
                assert(fits_text(old(self)@.lines[l as int]));
                lemma_byte_len_remove(line, k as int);
                lemma_no_newline_parts(line, line, 0, k as int, ' ', 0);
            }
            self.lines[l].remove(k);
            assert(self@.lines =~= old(self)@.lines.update(l as int, line.remove(k as int)));
        } else if self.cursor_line >= 0 && (self.cursor_line as usize) + 1 < self.lines.len() {
            let l = self.cursor_line as usize;
            let ghost line = self.lines@[l as int]@;
            let ghost next = self.lines@[l + 1]@;
            let i = match char_index_at_byte(&self.lines[l], c as usize) {
                Some(i) => i,
                // Not reached: the key was accepted only at a boundary.
                None => {
                    return;
                },
            };
            proof {
                assert(no_newline(old(self)@.lines[l as int]));
                assert(no_newline(old(self)@.lines[l + 1]));
                lemma_byte_len_take_skip(line, i as int);
                lemma_byte_len_concat(line.take(i as int), next);
                lemma_byte_len_concat(line.take(i as int) + next, line.skip(i as int));
                lemma_no_newline_parts(line, line, i as int, 0, ' ', 0);
                lemma_no_newline_parts(line.take(i as int), next, 0, 0, ' ', 0);
                lemma_no_newline_parts(line.take(i as int) + next, line.skip(i as int), 0, 0, ' ', 0);
            }
            let mut joined = self.lines.remove(l + 1);
            let mut tail = self.lines[l].split_off(i);
            self.lines[l].append(&mut joined);
            self.lines[l].append(&mut tail);
            assert(self@.lines =~= old(self)@.lines.update(
                l as int,
                line.take(i as int) + next + line.skip(i as int),
            ).remove(l + 1));
        }
    }

    /// Backspace in move mode.
    fn move_mode_backspace(&mut self)
        requires
            old(self).wf(),
            move_backspace_ok(old(self)@),
        ensures
            final(self).wf(),
            final(self)@ == move_backspace(old(self)@),
    {
        if self.cursor_column > 0 {
            let l = self.cursor_line as usize;
            let k = (self.cursor_column - 1) as usize;
            let ghost line = self.lines@[l as int]@;
            proof {
                assert(no_newline(old(self)@.lines[l as int]));
                assert(fits_text(old(self)@.lines[l as int]));
                lemma_byte_len_remove(line, k as int);
                lemma_no_newline_parts(line, line, 0, k as int, ' ', 0);
            }
            self.lines[l].remove(k);
            self.cursor_column = self.cursor_column - 1;
            assert(self@.lines =~= old(self)@.lines.update(l as int, line.remove(k as int)));
        } else if self.cursor_line < 0 || (self.cursor_line as usize) > self.lines.len() {
            self.cursor_line = self.cursor_line - 1;
            self.cursor_column = 0;
        } else if self.cursor_line > 0 {
            let l = self.cursor_line as usize;
            let ghost prev = self.lines@[l - 1]@;
            proof {
                assert(no_newline(old(self)@.lines[l - 1]));
                assert(fits_text(old(self)@.lines[l - 1]));
            }
            let n = byte_len_of(&self.lines[l - 1]);
            if l < self.lines.len() {
                let ghost this = self.lines@[l as int]@;
                proof {
                    assert(no_newline(old(self)@.lines[l as int]));
                    lemma_byte_len_concat(prev, this);
                    lemma_no_newline_parts(prev, this, 0, 0, ' ', 0);
                }
                let mut moved = self.lines.remove(l);
                self.lines[l - 1].append(&mut moved);
                assert(self@.lines =~= old(self)@.lines.update(l - 1, prev + this).remove(
                    l as int,
                ));
            }
            self.cursor_line = self.cursor_line - 1;
            self.cursor_column = n as isize;
        }
    }

    /// `k` in move mode.
    fn kill_at_cursor(&mut self)
        requires
            old(self).wf(),
            kill_ok(old(self)@),
        ensures
            final(self).wf(),
            final(self)@ == kill(old(self)@),
    {
        let c = self.cursor_column;
        if self.cursor_line >= 0 && (self.cursor_line as usize) < self.lines.len() {
            let l = self.cursor_line as usize;
            let ghost line = self.lines@[l as int]@;
            proof {
                assert(no_newline(old(self)@.lines[l as int]));
                assert(fits_text(old(self)@.lines[l as int]));
            }
            let bl = byte_len_of(&self.lines[l]);
            if (c < 0 || c as usize >= bl) && l + 1 < self.lines.len() {
                let ghost next = self.lines@[l + 1]@;
                proof {
                    assert(no_newline(old(self)@.lines[l + 1]));
                    assert(fits_text(old(self)@.lines[l + 1]));
                }
                if c as usize > bl {
                    push_spaces(&mut self.lines[l], c as usize - bl);
                }
                let ghost padded = pad_to_bytes(line, c as int);
                proof {
                    assert(self.lines@[l as int]@ =~= padded);
                    if c as usize > bl {
                        lemma_byte_len_spaces((c - bl) as nat);
                        lemma_byte_len_concat(line, spaces((c - bl) as nat));
                        lemma_no_newline_parts(line, spaces((c - bl) as nat), 0, 0, ' ', (c - bl) as nat);
                    }
                    lemma_byte_len_concat(padded, next);
                    lemma_no_newline_parts(padded, next, 0, 0, ' ', 0);
                }
                let mut joined = self.lines.remove(l + 1);
                self.lines[l].append(&mut joined);
                assert(self@.lines =~= old(self)@.lines.update(l as int, padded + next).remove(
                    l + 1,
                ));
            } else if c >= 0 && (c as usize) < bl {
                let i = match char_index_at_byte(&self.lines[l], c as usize) {
                    Some(i) => i,
                    // Not reached: the key was accepted only at a boundary.
                    None => {
                        return;
                    },
                };
                proof {
                    lemma_byte_len_take_skip(line, i as int);
                    lemma_no_newline_parts(line, line, i as int, 0, ' ', 0);
                }
                self.lines[l].truncate(i);
                assert(self@.lines =~= old(self)@.lines.update(l as int, line.take(i as int)));
            }
        }
    }

    /// A key in insert mode.
    fn insert_mode_key(&mut self, key: Key)
        requires
            old(self).wf(),
            old(self).file_mode == FileMode::Edit,
            old(self).insert_mode,
            insert_key_ok(old(self)@, key),
        ensures
            final(self).wf(),
            final(self)@ == insert_key(old(self)@, key),
    {
        match key {
            Key::Char(c) => {
                if c == '\n' {
                    self.break_line();
                } else if c == '\t' {
                    let n = (4 - self.cursor_column % 4) as usize;
                    self.write_spaces(n);
                } else if c == '}' {
                    self.write_close_brace();
                } else {
                    self.write_char(c);
                }
            },
            Key::Ctrl(c) => {
                if c == four_spaces_key(self.layout) {
                    self.write_spaces(4);
                }
            },
            Key::Backspace => {
                self.insert_mode_backspace();
            },
            Key::Esc => {
                self.insert_mode = false;
            },
            Key::Other => {},
        }
    }

    /// A command in move mode.
    fn run_command(&mut self, cmd: Command) -> (a: Action)
        requires
            old(self).wf(),
            command_ok(old(self)@, cmd),
        ensures
            final(self).wf(),
            (final(self)@, a) == apply_command(old(self)@, cmd),
    {
        match cmd {
            Command::Quit => {
                self.running = false;
            },
            Command::ToggleLineNumbers => {
                self.show_line_nums = !self.show_line_nums;
            },
            Command::OpenFile => {
                self.file_mode = FileMode::Open;
                self.bottom_bar = Vec::new();
                proof {
                    assert(byte_len(Seq::<char>::empty()) == 0);
                }
                return Action::FillOpenPrompt;
            },
            Command::WriteFile => {
                self.file_mode = FileMode::SaveAsPrompt;
                self.bottom_bar = Vec::new();
                proof {
                    assert(byte_len(Seq::<char>::empty()) == 0);
                }
                return Action::FillSavePrompt;
            },
            Command::Left => {
                self.cursor_column = self.cursor_column - 1;
            },
            Command::Right => {
                self.cursor_column = self.cursor_column + 1;
            },
            Command::Up => {
                self.cursor_line = self.cursor_line - 1;
            },
            Command::Down => {
                self.cursor_line = self.cursor_line + 1;
            },
            Command::LeftFour => {
                self.cursor_column = self.cursor_column - 4;
            },
            Command::RightFour => {
                self.cursor_column = self.cursor_column + 4;
            },
            Command::UpTen => {
                self.cursor_line = self.cursor_line - 10;
            },
            Command::DownTen => {
                self.cursor_line = self.cursor_line + 10;
            },
            Command::Insert => {
                self.start_insert();
            },
            Command::Delete => {
                self.delete_at_cursor();
            },
            Command::Backspace => {
                self.move_mode_backspace();
            },
            Command::Kill => {
                self.kill_at_cursor();
            },
            Command::LineStart => {
                self.cursor_column = 0;
            },
            Command::LineEnd => {
                if self.cursor_line >= 0 && (self.cursor_line as usize) < self.lines.len() {
                    let l = self.cursor_line as usize;
                    proof {
                        assert(fits_text(old(self)@.lines[l as int]));
                        lemma_byte_len_at_least_len(old(self)@.lines[l as int]);
                    }
                    self.cursor_column = self.lines[l].len() as isize;
                } else {
                    self.cursor_column = self.current_indentation as isize;
                }
            },
            Command::Indentation => {
                self.cursor_column = self.current_indentation as isize;
            },
            Command::Ignore => {},
        }
        Action::Nothing
    }

    /// A key while the bottom bar asks for a path.
    fn prompt_mode_key(&mut self, key: Key) -> (a: Action)
        requires
            old(self).wf(),
            old(self).file_mode != FileMode::Edit,
            prompt_key_ok(old(self)@, key),
        ensures
            final(self).wf(),
            (final(self)@, a) == prompt_key(old(self)@, key),
    {
        match key {
            Key::Char(c) => {
                if c == '\n' {
                    if self.file_mode == FileMode::Open {
                        Action::SubmitOpen
                    } else {
                        Action::SubmitSave
                    }
                } else {
                    proof {
                        assert(old(self).bottom_bar@.push(c).drop_last() =~= old(self).bottom_bar@);
                    }
                    self.bottom_bar.push(c);
                    Action::Nothing
                }
            },
            Key::Backspace => {
                proof {
                    if self.bottom_bar@.len() > 0 {
                        lemma_byte_len_remove(self.bottom_bar@, self.bottom_bar@.len() - 1);
                        assert(self.bottom_bar@.remove(self.bottom_bar@.len() - 1)
                            =~= self.bottom_bar@.drop_last());
                    }
                }
                self.bottom_bar.pop();
                Action::Nothing
            },
            Key::Esc => {
                self.file_mode = FileMode::Edit;
                Action::Nothing
            },
            _ => Action::Nothing,
        }
    }

    /// Handles one key press: edits the text, moves the cursor or changes
    /// mode, and says what the program around the editor must do next.
    pub fn handle_key(&mut self, key: Key) -> (a: Action)
        requires
            old(self).wf(),
            key_ok(old(self)@, key),
        ensures
            final(self).wf(),
            (final(self)@, a) == step(old(self)@, key),
    {
        match self.file_mode {
            FileMode::Edit => {
                if self.insert_mode {
                    self.insert_mode_key(key);
                    Action::Nothing
                } else {
                    let cmd = decode_command(self.layout, key);
                    self.run_command(cmd)
                }
            },
            _ => self.prompt_mode_key(key),
        }
    }

    /// The byte length of line `l`.
    fn line_bytes(&self, l: usize) -> (n: usize)
        requires
            self.wf(),
            l < self.lines@.len(),
        ensures
            n == byte_len(self@.lines[l as int]),
            n <= isize::MAX,
            self@.lines[l as int].len() <= n,
    {
        proof {
            assert(fits_text(self@.lines[l as int]));
            lemma_byte_len_at_least_len(self@.lines[l as int]);
        }
        byte_len_of(&self.lines[l])
    }

    fn cursor_on_line(&self) -> (b: bool)
        ensures
            b == on_line(self@),
    {
        self.cursor_line >= 0 && (self.cursor_line as usize) < self.lines.len()
    }

    fn pad_accepts(&self, n: usize) -> (b: bool)
        requires
            self.wf(),
            n <= 4,
        ensures
            b == pad_ok(self@, n as int),
    {
        if !self.cursor_on_line() || self.cursor_column < 0 {
            return false;
        }
        let bl = self.line_bytes(self.cursor_line as usize);
        self.cursor_column <= isize::MAX - n as isize && bl <= (isize::MAX as usize) - n
    }

    fn brace_accepts(&self) -> (b: bool)
        requires
            self.wf(),
        ensures
            b == close_brace_ok(self@),
    {
        if !self.cursor_on_line() {
            return false;
        }
        let l = self.cursor_line as usize;
        let c = self.cursor_column;
        let ghost line = self@.lines[l as int];
        let len = self.lines[l].len();
        if c >= 4 && (c - 1) as usize >= len {
            return false;
        }
        let bl = self.line_bytes(l);
        let strips = c >= 4 && ((c - 1) as usize) < len && self.lines[l][(c - 1) as usize] == ' '
            && self.lines[l][(c - 2) as usize] == ' ' && self.lines[l][(c - 3) as usize] == ' '
            && self.lines[l][(c - 4) as usize] == ' ';
        assert(strips == brace_strips(line, c as int));
        if strips {
            let bi = char_index_at_byte(&self.lines[l], (c - 4) as usize);
            let bj = char_index_at_byte(&self.lines[l], c as usize);
            match (bi, bj) {
                (Some(i), Some(j)) => {
                    proof {
                        if i > j {
                            lemma_byte_offset_strict(line, j as int, i as int);
                        }
                        let line1 = line.take(i as int) + line.skip(j as int);
                        assert(line1 == brace_line(line, c as int));
                        assert(line1.take(i as int) =~= line.take(i as int));
                        lemma_boundary_index(line1, c - 4, i as int);
                        lemma_byte_len_take_skip(line, j as int);
                        lemma_byte_len_concat(line.take(i as int), line.skip(j as int));
                    }
                    true
                },
                _ => false,
            }
        } else {
            c >= 0 && char_index_at_byte(&self.lines[l], c as usize).is_some() && c < isize::MAX
                && bl < isize::MAX as usize
        }
    }

    fn insert_accepts(&self, key: Key) -> (b: bool)
        requires
            self.wf(),
        ensures
            b == insert_key_ok(self@, key),
    {
        match key {
            Key::Char(c) => {
                if c == '\n' {
                    if !self.cursor_on_line() {
                        return false;
                    }
                    let l = self.cursor_line as usize;
                    let bl = self.line_bytes(l);
                    self.cursor_column <= self.lines[l].len() as isize && self.lines.len()
                        < isize::MAX as usize && bl <= (isize::MAX as usize)
                        - self.current_indentation
                } else if c == '\t' {
                    if self.cursor_column < 0 {
                        return false;
                    }
                    let n = (4 - self.cursor_column % 4) as usize;
                    self.pad_accepts(n)
                } else if c == '}' {
                    self.brace_accepts()
                } else {
                    if !self.cursor_on_line() || self.cursor_column < 0 {
                        return false;
                    }
                    let bl = self.line_bytes(self.cursor_line as usize);
                    self.cursor_column < isize::MAX && bl <= (isize::MAX as usize) - char_width_of(
                        c,
                    )
                }
            },
            Key::Ctrl(c) => {
                if c == four_spaces_key(self.layout) {
                    self.pad_accepts(4)
                } else {
                    true
                }
            },
            Key::Backspace => {
                if self.cursor_column > 0 {
                    self.cursor_on_line() && ((self.cursor_column - 1) as usize)
                        < self.lines[self.cursor_line as usize].len()
                } else if self.cursor_line > 0 {
                    let l = self.cursor_line as usize;
                    if l >= self.lines.len() {
                        return false;
                    }
                    let a = self.line_bytes(l - 1);
                    let b = self.line_bytes(l);
                    a <= (isize::MAX as usize) - b
                } else {
                    true
                }
            },
            _ => true,
        }
    }

    fn command_accepts(&self, cmd: Command) -> (b: bool)
        requires
            self.wf(),
        ensures
            b == command_ok(self@, cmd),
    {
        let l = self.cursor_line;
        let c = self.cursor_column;
        match cmd {
            Command::Left => c > isize::MIN,
            Command::Right => c < isize::MAX,
            Command::Up => l > isize::MIN,
            Command::Down => l < isize::MAX,
            Command::LeftFour => c >= isize::MIN + 4,
            Command::RightFour => c <= isize::MAX - 4,
            Command::UpTen => l >= isize::MIN + 10,
            Command::DownTen => l <= isize::MAX - 10,
            Command::Insert => l >= 0 && c >= 0 && l < isize::MAX,
            Command::Delete => {
                if self.cursor_on_line() && c >= 0 && (c as usize) < self.lines[l as usize].len() {
                    true
                } else if l == -1 {
                    false
                } else if l >= 0 && (l as usize) + 1 < self.lines.len() {
                    let lu = l as usize;
                    if c < 0 || char_index_at_byte(&self.lines[lu], c as usize).is_none() {
                        return false;
                    }
                    let a = self.line_bytes(lu);
                    let b = self.line_bytes(lu + 1);
                    a <= (isize::MAX as usize) - b
                } else {
                    true
                }
            },
            Command::Backspace => {
                if c > 0 {
                    self.cursor_on_line() && ((c - 1) as usize) < self.lines[l as usize].len()
                } else if l < 0 || (l as usize) > self.lines.len() {
                    l > isize::MIN
                } else if l > 0 {
                    let lu = l as usize;
                    if lu == self.lines.len() {
                        true
                    } else {
                        let a = self.line_bytes(lu - 1);
                        let b = self.line_bytes(lu);
                        a <= (isize::MAX as usize) - b
                    }
                } else {
                    true
                }
            },
            Command::Kill => {
                if !self.cursor_on_line() {
                    return true;
                }
                let lu = l as usize;
                let bl = self.line_bytes(lu);
                if (c < 0 || c as usize >= bl) && lu + 1 < self.lines.len() {
                    let b = self.line_bytes(lu + 1);
                    c >= 0 && (c as usize) <= (isize::MAX as usize) - b
                } else if c >= 0 && (c as usize) < bl {
                    char_index_at_byte(&self.lines[lu], c as usize).is_some()
                } else {
                    true
                }
            },
            _ => true,
        }
    }

    /// Whether `key` can be handled now; where it cannot, the key would make
    /// the arithmetic overflow, a string grow past what it can hold, or a
    /// position fall inside a character or past the text it indexes.
    pub fn accepts(&self, key: Key) -> (b: bool)
        requires
            self.wf(),
        ensures
            b == key_ok(self@, key),
    {
        match self.file_mode {
            FileMode::Edit => {
                if self.insert_mode {
                    self.insert_accepts(key)
                } else {
                    self.command_accepts(decode_command(self.layout, key))
                }
            },
            _ => match key {
                Key::Char(c) => {
                    if c == '\n' {
                        true
                    } else {
                        byte_len_of(&self.bottom_bar) <= (isize::MAX as usize) - char_width_of(c)
                    }
                },
                _ => true,
            },
        }
    }

    /// Whether the end of a frame can be computed for a screen `height`
    /// rows high without the arithmetic overflowing.
    pub fn frame_fits(&self, height: usize) -> (b: bool)
        requires
            self.wf(),
        ensures
            b == frame_ok(self@, height as int),
    {
        let cl: usize = if self.cursor_line < 0 {
            0
        } else {
            self.cursor_line as usize
        };
        if self.window_start > usize::MAX - height {
            return false;
        }
        let top = self.window_start + height;
        top >= 2 && (top - 2 > cl || height >= 2)
    }

    /// The bookkeeping at the end of each frame: the cursor is put back at
    /// or after the start of the text, the window scrolls so that the
    /// cursor's line is on screen, the line-number column is sized for the
    /// number of lines, and the indentation of the cursor's line is taken.
    pub fn finish_frame(&mut self, height: usize)
        requires
            old(self).wf(),
            frame_ok(old(self)@, height as int),
        ensures
            final(self).wf(),
            final(self)@ == end_frame(old(self)@, height as int),
            height >= 2 ==> final(self).window_start <= final(self).cursor_line
                <= final(self).window_start + height - 2,
            final(self).cursor_line >= 0,
            final(self).cursor_column >= 0,
    {
        if self.cursor_line < 0 {
            self.cursor_line = 0;
        }
        if self.cursor_column < 0 {
            self.cursor_column = 0;
        }
        let cl = self.cursor_line as usize;
        if self.window_start + height - 2 <= cl {
            self.window_start = cl - (height - 2);
        } else if self.window_start > cl {
            self.window_start = cl;
        }
        if self.show_line_nums {
            self.window_padding = 3 + count_digits(self.lines.len());
        } else {
            self.window_padding = 0;
        }
        if cl < self.lines.len() {
            proof {
                assert(fits_text(old(self)@.lines[cl as int]));
                lemma_leading_spaces_at_most(self@.lines[cl as int]);
                lemma_byte_len_at_least_len(self@.lines[cl as int]);
            }
            self.current_indentation = count_leading_spaces(&self.lines[cl]);
        }
    }

    /// Puts the directory of the current file and a slash into the bottom
    /// bar, for the user to complete the path of a file to open.
    pub fn fill_open_prompt(&mut self, dir: Vec<char>)
        requires
            old(self).wf(),
            byte_len(dir@) < isize::MAX,
        ensures
            final(self).wf(),
            final(self)@ == (EditorState { bottom_bar: dir@.push('/'), ..old(self)@ }),
    {
        self.bottom_bar = dir;
        self.bottom_bar.push('/');
        proof {
            assert(self.bottom_bar@.drop_last() =~= dir@);
        }
    }

    /// Puts the path of the current file into the bottom bar, for the user
    /// to confirm or change the path to write to.
    pub fn fill_save_prompt(&mut self, path: Vec<char>)
        requires
            old(self).wf(),
            fits_text(path@),
        ensures
            final(self).wf(),
            final(self)@ == (EditorState { bottom_bar: path@, ..old(self)@ }),
    {
        self.bottom_bar = path;
    }

    /// The path in the bottom bar was accepted as a file to open: where the
    /// current file exists and the new one does not, the text is emptied;
    /// editing goes on at the start of the text.
    pub fn confirm_open(&mut self, current_exists: bool, new_exists: bool)
        requires
            old(self).wf(),
            current_exists && !new_exists ==> old(self).lines@.len() >= 1,
        ensures
            final(self).wf(),
            final(self)@ == (EditorState {
                lines: if current_exists && !new_exists {
                    seq![Seq::<char>::empty()]
                } else {
                    old(self)@.lines
                },
                file_mode: FileMode::Edit,
                cursor_line: 0,
                cursor_column: 0,
                ..old(self)@
            }),
    {
        if current_exists && !new_exists {
            self.lines.truncate(1);
            self.lines[0].clear();
            proof {
                assert(self@.lines =~= seq![Seq::<char>::empty()]);
                assert(byte_len(Seq::<char>::empty()) == 0);
            }
        }
        self.file_mode = FileMode::Edit;
        self.cursor_line = 0;
        self.cursor_column = 0;
    }

    /// The text was written: editing goes on.
    pub fn finish_save(&mut self)
        requires
            old(self).wf(),
        ensures
            final(self).wf(),
            final(self)@ == (EditorState { file_mode: FileMode::Edit, ..old(self)@ }),
    {
        self.file_mode = FileMode::Edit;
    }

    /// Reads the lines of the text of a file into the editor, over the lines
    /// that it has: the lines of the file replace the first ones, the line
    /// after them is emptied (or added), and then the last line is dropped.
    pub fn load_text(&mut self, text: &Vec<char>)
        requires
            old(self).wf(),
            loadable(text@),
        ensures
            final(self).wf(),
            final(self)@ == (EditorState {
                lines: loaded_lines(old(self)@.lines, text@),
                ..old(self)@
            }),
    {
        let mut result = read_lines(text);
        let ghost r0 = result@;
        let n = result.len();
        proof {
            lemma_byte_len_at_least_len(text@);
        }
        result.push(Vec::new());
        if n + 1 < self.lines.len() {
            let mut tail = self.lines.split_off(n + 1);
            result.append(&mut tail);
        }
        result.pop();
        proof {
            let f = file_lines(text@);
            let rest = if f.len() + 1 < old(self)@.lines.len() {
                old(self)@.lines.skip(f.len() + 1 as int)
            } else {
                Seq::empty()
            };
            assert(lines_view(result@) =~= (f + seq![Seq::<char>::empty()] + rest).drop_last());
            assert(byte_len(Seq::<char>::empty()) == 0);
            assert(result@.len() <= isize::MAX);
            assert forall|i: int| 0 <= i < result@.len() implies #[trigger] fits_text(
                lines_view(result@)[i],
            ) && no_newline(lines_view(result@)[i]) by {
                if i < n {
                    assert(result@[i] == r0[i]);
                    assert(fits_text(r0[i]@) && no_newline(r0[i]@));
                } else if i == n {
                    assert(lines_view(result@)[i] == Seq::<char>::empty());
                } else {
                    assert(lines_view(result@)[i] == old(self)@.lines[i]);
                    assert(fits_text(old(self)@.lines[i]));
                    assert(no_newline(old(self)@.lines[i]));
                }
            }
        }
        self.lines = result;
    }

    /// The text to write for the editor's lines: each line followed by a
    /// line break.
    pub fn save_text(&self) -> (t: Vec<char>)
        ensures
            t@ == joined_text(self@.lines),
    {
        let mut t: Vec<char> = Vec::new();
        let mut i: usize = 0;
        assert(self@.lines.take(0) =~= Seq::<Seq<char>>::empty());
        while i < self.lines.len()
            invariant
                i <= self.lines@.len(),
                t@ == joined_text(self@.lines.take(i as int)),
            decreases self.lines@.len() - i,
        {
            let ghost before = t@;
            let line = &self.lines[i];
            let mut j: usize = 0;
            while j < line.len()
                invariant
                    j <= line@.len(),
                    t@ == before + line@.take(j as int),
                decreases line@.len() - j,
            {
                t.push(line[j]);
                j = j + 1;
                assert(t@ =~= before + line@.take(j as int));
            }
            t.push('\n');
            proof {
                assert(self@.lines.take(i + 1).drop_last() =~= self@.lines.take(i as int));
                assert(line@.take(j as int) =~= line@);
                assert(t@ =~= joined_text(self@.lines.take(i as int)) + self@.lines[i as int]
                    + seq!['\n']);
            }
            i = i + 1;
        }
        assert(self@.lines.take(i as int) =~= self@.lines);
        t
    }
}

} // verus!
