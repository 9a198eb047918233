use vstd::prelude::*;

use crate::keys::{Command, Key, command_of};
use crate::model::{
    EditorState, FileMode, cur, decimal_digits, end_frame, file_lines, fits_text, gutter_width,
    joined_text, key_ok, loadable, loaded_lines, no_newline, split_at_newlines, state_wf, step,
};
use crate::terminal::decimal;
use crate::text::{byte_len, lemma_byte_len_take_skip, spaces};

verus! {

proof fn lemma_split_joined(p: Seq<Seq<char>>, x: Seq<char>)
    requires
        no_newline(x),
        forall|i: int| 0 <= i < p.len() ==> #[trigger] no_newline(p[i]),
    ensures
        split_at_newlines(joined_text(p) + x) == p.push(x),
    decreases p.len(), x.len(),
{
    if x.len() == 0 {
        assert(joined_text(p) + x =~= joined_text(p));
        if p.len() == 0 {
            assert(split_at_newlines(Seq::<char>::empty()) =~= seq![Seq::<char>::empty()]);
            assert(p.push(x) =~= seq![Seq::<char>::empty()]);
        } else {
            let q = p.drop_last();
            let j = joined_text(p);
            assert(j == joined_text(q) + p.last() + seq!['\n']);
            assert(j.last() == '\n');
            assert(j.drop_last() =~= joined_text(q) + p.last());
            assert(no_newline(p[p.len() - 1]));
            lemma_split_joined(q, p.last());
            assert(x =~= Seq::<char>::empty());
            assert(q.push(p.last()) =~= p);
        }
    } else {
        let y = joined_text(p) + x;
        assert(y.last() == x.last());
        assert(y.drop_last() =~= joined_text(p) + x.drop_last());
        assert(no_newline(x.drop_last()));
        lemma_split_joined(p, x.drop_last());
        assert(x.last() != '\n');
        assert(x.drop_last().push(x.last()) =~= x);
        assert(p.push(x.drop_last()).update(p.len() as int, x) =~= p.push(x));
    }
}

/// Writing the lines of a text and reading them back into an editor that
/// has no more lines than that text gives the same lines.
pub proof fn law_load_after_save(old_lines: Seq<Seq<char>>, lines: Seq<Seq<char>>)
    requires
        forall|i: int| 0 <= i < lines.len() ==> #[trigger] no_newline(lines[i]),
        old_lines.len() <= lines.len(),
    ensures
        loaded_lines(old_lines, joined_text(lines)) == lines,
        byte_len(joined_text(lines)) <= isize::MAX ==> loadable(joined_text(lines)),
{
    let t = joined_text(lines);
    if lines.len() == 0 {
        assert(file_lines(t) =~= Seq::<Seq<char>>::empty());
        assert((Seq::<Seq<char>>::empty() + seq![Seq::<char>::empty()]).drop_last() =~= lines);
    } else {
        let q = lines.drop_last();
        assert(no_newline(lines.last()) ) by {
            assert(no_newline(lines[lines.len() - 1]));
        }
        assert(t == joined_text(q) + lines.last() + seq!['\n']);
        assert(t.drop_last() =~= joined_text(q) + lines.last());
        lemma_split_joined(q, lines.last());
        assert(q.push(lines.last()) =~= lines);
        assert(file_lines(t) == lines);
        assert((lines + seq![Seq::<char>::empty()] + Seq::<Seq<char>>::empty()).drop_last()
            =~= lines);
        assert(t.last() == '\n');
    }
}

/// Typing a character in insert mode and then Backspace gives back the
/// editor as it was, where the cursor was within its line.
pub proof fn law_backspace_undoes_typing(s: EditorState, c: char)
    requires
        state_wf(s),
        s.file_mode == FileMode::Edit,
        s.insert_mode,
        c != '\n' && c != '\t' && c != '}',
        key_ok(s, Key::Char(c)),
        s.cursor_column <= cur(s).len(),
    ensures
        key_ok(step(s, Key::Char(c)).0, Key::Backspace),
        step(step(s, Key::Char(c)).0, Key::Backspace).0 == s,
{
    let s1 = step(s, Key::Char(c)).0;
    let line = cur(s);
    let k = s.cursor_column;
    assert(s1.lines[s1.cursor_line] == line.insert(k, c));
    assert(line.insert(k, c).remove(k) =~= line);
    assert(s.lines.update(s.cursor_line, line) =~= s.lines);
    assert(step(s1, Key::Backspace).0 =~= s);
}

/// Enter and then Backspace in insert mode give back the editor as it was,
/// where the cursor was within its line and the line was not indented.
pub proof fn law_backspace_undoes_enter(s: EditorState)
    requires
        state_wf(s),
        s.file_mode == FileMode::Edit,
        s.insert_mode,
        key_ok(s, Key::Char('\n')),
        0 <= s.cursor_column,
        s.current_indentation == 0,
    ensures
        key_ok(step(s, Key::Char('\n')).0, Key::Backspace),
        step(step(s, Key::Char('\n')).0, Key::Backspace).0 == s,
{
    let s1 = step(s, Key::Char('\n')).0;
    let line = cur(s);
    let k = s.cursor_column;
    let l = s.cursor_line;
    assert(spaces(0) + line.skip(k) =~= line.skip(k));
    assert(s1.lines[l] == line.take(k));
    assert(s1.lines[l + 1] == line.skip(k));
    assert(line.take(k) + line.skip(k) =~= line);
    lemma_byte_len_take_skip(line, k);
    assert(fits_text(s.lines[l]));
    assert(s1.lines.update(l, line.take(k) + line.skip(k)).remove(l + 1) =~= s.lines);
    assert(step(s1, Key::Backspace).0 =~= s);
}

/// In move mode, moving one column right and then one column left (on
/// either layout) comes back to the same place, and neither key changes
/// the text.
pub proof fn law_left_undoes_right(s: EditorState, right: Key, left: Key)
    requires
        state_wf(s),
        s.file_mode == FileMode::Edit,
        !s.insert_mode,
        command_of(s.layout, right) == Command::Right,
        command_of(s.layout, left) == Command::Left,
        key_ok(s, right),
    ensures
        step(s, right).0.lines == s.lines,
        key_ok(step(s, right).0, left),
        step(step(s, right).0, left).0 == s,
{
    assert(step(step(s, right).0, left).0 =~= s);
}

/// In move mode, the keys that move the cursor, toggle line numbers or
/// quit leave the text as it is.
pub proof fn law_motion_keeps_text(s: EditorState, key: Key)
    requires
        s.file_mode == FileMode::Edit,
        !s.insert_mode,
        command_of(s.layout, key) != Command::Insert,
        command_of(s.layout, key) != Command::Delete,
        command_of(s.layout, key) != Command::Backspace,
        command_of(s.layout, key) != Command::Kill,
    ensures
        step(s, key).0.lines == s.lines,
{
}

/// Tab in insert mode writes spaces up to the next column that is a multiple
/// of four, at least one.
pub proof fn law_tab_reaches_tab_stop(s: EditorState)
    requires
        state_wf(s),
        s.file_mode == FileMode::Edit,
        s.insert_mode,
        key_ok(s, Key::Char('\t')),
    ensures
        step(s, Key::Char('\t')).0.cursor_column % 4 == 0,
        s.cursor_column < step(s, Key::Char('\t')).0.cursor_column <= s.cursor_column + 4,
{
}

/// Asking for a file to open or a path to write to, and then pressing Esc,
/// leaves the text, the cursor and the mode as they were.
pub proof fn law_escape_cancels_prompt(s: EditorState, ask: Key)
    requires
        state_wf(s),
        s.file_mode == FileMode::Edit,
        !s.insert_mode,
        command_of(s.layout, ask) == Command::OpenFile || command_of(s.layout, ask)
            == Command::WriteFile,
    ensures
        key_ok(step(s, ask).0, Key::Esc),
        step(step(s, ask).0, Key::Esc).0 == (EditorState { bottom_bar: Seq::empty(), ..s }),
{
    assert(step(step(s, ask).0, Key::Esc).0 =~= (EditorState { bottom_bar: Seq::empty(), ..s }));
}

/// The end of a frame changes nothing the second time.
pub proof fn law_frame_end_settles(s: EditorState, height: int)
    requires
        height >= 2,
    ensures
        end_frame(end_frame(s, height), height) == end_frame(s, height),
{
    assert(end_frame(end_frame(s, height), height) =~= end_frame(s, height));
}

proof fn lemma_decimal_len(n: nat)
    ensures
        decimal(n).len() == decimal_digits(n),
    decreases n,
{
    if n >= 10 {
        lemma_decimal_len(n / 10);
    }
}

proof fn lemma_digits_monotone(a: nat, b: nat)
    requires
        a <= b,
    ensures
        decimal_digits(a) <= decimal_digits(b),
    decreases b,
{
    if a >= 10 {
        lemma_digits_monotone(a / 10, b / 10);
    }
}

/// The line-number column is wide enough for the number of every line of
/// the text, with room for the colon after it.
pub proof fn law_line_numbers_fit(n: nat, line_count: nat)
    requires
        1 <= n <= line_count,
    ensures
        decimal(n).len() + 3 <= gutter_width(true, line_count),
{
    lemma_decimal_len(n);
    lemma_digits_monotone(n, line_count);
}

} // verus!
