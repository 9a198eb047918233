use vstd::prelude::*;

use crate::model::{EditorState, FileMode, end_frame, file_lines, joined_text, no_newline, split_at_newlines};
use crate::screen::{
    bottom_text, gutter_text, insert_label, kept_len, move_label, open_prompt_label, percents,
    row_text, row_y, save_prompt_label, shown_line,
};
use crate::terminal::{decimal, goto_text, reset_bg_text, show_text, underline_text};
use crate::screen::{cursor_x, cursor_y, footer_text, frame_rows, low16, row_wraps, tabs_before};
use crate::text::byte_len;

verus! {

proof fn lemma_decimal_len(n: nat)
    ensures
        decimal(n).len() == crate::model::decimal_digits(n),
    decreases n,
{
    if n >= 10 {
        lemma_decimal_len(n / 10);
    }
}

/// At the end of a frame (on a screen at least two rows high): the cursor
/// is put back at or after the start of the text; the window keeps its
/// place where the cursor's line is already shown above the last text row,
/// and otherwise puts that line at its top or on its last text row; the
/// line-number column is exactly as wide as the number of lines written in
/// decimal, plus three; the indentation is the run of spaces that starts
/// the cursor's line; the text and the modes are as they were.
pub proof fn law_frame_end(s: EditorState, height: int)
    requires
        height >= 2,
        0 <= s.window_start,
    ensures
        ({
            let t = end_frame(s, height);
            let cl = if s.cursor_line < 0 {
                0
            } else {
                s.cursor_line
            };
            &&& t.cursor_line == cl
            &&& t.cursor_column == if s.cursor_column < 0 {
                0
            } else {
                s.cursor_column
            }
            &&& t.window_start <= t.cursor_line <= t.window_start + height - 2
            &&& s.window_start <= cl < s.window_start + height - 2 ==> t.window_start
                == s.window_start
            &&& cl < s.window_start ==> t.window_start == cl
            &&& cl >= s.window_start + height - 2 ==> t.cursor_line == t.window_start + height - 2
            &&& s.show_line_nums ==> t.window_padding == decimal(s.lines.len()).len() + 3
            &&& !s.show_line_nums ==> t.window_padding == 0
            &&& (0 <= cl < s.lines.len()) ==> {
                let line = s.lines[cl];
                let n = t.current_indentation;
                &&& 0 <= n <= line.len()
                &&& forall|i: int| 0 <= i < n ==> #[trigger] line[i] == ' '
                &&& n < line.len() ==> line[n] != ' '
            }
            &&& t.lines == s.lines && t.insert_mode == s.insert_mode && t.file_mode == s.file_mode
                && t.bottom_bar == s.bottom_bar
        }),
{
    lemma_decimal_len(s.lines.len());
    let cl = if s.cursor_line < 0 {
        0
    } else {
        s.cursor_line
    };
    if 0 <= cl < s.lines.len() {
        lemma_leading_run(s.lines[cl]);
    }
}

proof fn lemma_leading_run(line: Seq<char>)
    ensures
        ({
            let n = crate::text::leading_spaces(line) as int;
            &&& 0 <= n <= line.len()
            &&& forall|i: int| 0 <= i < n ==> #[trigger] line[i] == ' '
            &&& n < line.len() ==> line[n] != ' '
        }),
    decreases line.len(),
{
    if line.len() > 0 && line[0] == ' ' {
        let rest = line.drop_first();
        lemma_leading_run(rest);
        let n = crate::text::leading_spaces(line) as int;
        assert forall|i: int| 0 <= i < n implies #[trigger] line[i] == ' ' by {
            if i > 0 {
                assert(line[i] == rest[i - 1]);
            }
        }
        if n < line.len() {
            assert(line[n] == rest[n - 1]);
        }
    }
}

proof fn lemma_joined_split(u: Seq<char>)
    ensures
        joined_text(split_at_newlines(u)) == u.push('\n'),
        split_at_newlines(u).len() > 0,
        forall|i: int|
            0 <= i < split_at_newlines(u).len() ==> #[trigger] no_newline(split_at_newlines(u)[i]),
    decreases u.len(),
{
    if u.len() == 0 {
        let r = split_at_newlines(u);
        assert(r =~= seq![Seq::<char>::empty()]);
        assert(r.drop_last() =~= Seq::<Seq<char>>::empty());
        assert(joined_text(r.drop_last()) == Seq::<char>::empty());
        assert(r.last() == Seq::<char>::empty());
        assert(joined_text(r) == Seq::<char>::empty() + Seq::<char>::empty() + seq!['\n']);
        assert(joined_text(r) =~= u.push('\n'));
    } else {
        let v = u.drop_last();
        lemma_joined_split(v);
        let r = split_at_newlines(v);
        if u.last() == '\n' {
            let r2 = r.push(Seq::<char>::empty());
            assert(r2.drop_last() =~= r);
            assert(joined_text(r2) =~= v.push('\n') + Seq::<char>::empty() + seq!['\n']);
            assert(u =~= v.push('\n'));
            assert(joined_text(r2) =~= u.push('\n'));
        } else {
            let x = r.last();
            let r2 = r.update(r.len() - 1, x.push(u.last()));
            assert(r2.drop_last() =~= r.drop_last());
            assert(joined_text(r) == joined_text(r.drop_last()) + x + seq!['\n']);
            let a = joined_text(r.drop_last()) + x;
            assert(joined_text(r) =~= a.push('\n'));
            assert(a.push('\n').drop_last() =~= a);
            assert(v.push('\n').drop_last() =~= v);
            assert(a =~= v);
            assert(r2.last() == x.push(u.last()));
            assert(joined_text(r2) == joined_text(r2.drop_last()) + r2.last() + seq!['\n']);
            assert(u =~= v.push(u.last()));
            assert(joined_text(r2) =~= u.push('\n'));
            assert forall|i: int| 0 <= i < r2.len() implies #[trigger] no_newline(r2[i]) by {
                if i < r.len() - 1 {
                    assert(r2[i] == r[i]);
                } else {
                    assert(no_newline(r[r.len() - 1]));
                    assert forall|k: int| 0 <= k < r2[i].len() implies r2[i][k] != '\n' by {
                        if k < x.len() {
                            assert(r2[i][k] == x[k]);
                        }
                    }
                }
            }
        }
    }
}

/// Reading the lines of a text and writing them out again gives the text
/// with its last character replaced by a line break: the same text where it
/// ends with one. No line read holds a line break.
pub proof fn law_save_after_load(t: Seq<char>)
    requires
        t.len() > 0,
    ensures
        joined_text(file_lines(t)) == t.drop_last().push('\n'),
        t.last() == '\n' ==> joined_text(file_lines(t)) == t,
        forall|i: int| 0 <= i < file_lines(t).len() ==> #[trigger] no_newline(file_lines(t)[i]),
{
    lemma_joined_split(t.drop_last());
    if t.last() == '\n' {
        assert(t.drop_last().push('\n') =~= t);
    }
}

/// Reading a text into an editor: where the editor had more lines than the
/// text has plus one, the lines of the text come first, then an empty line,
/// then the editor's old lines after that point but for its last one;
/// otherwise the editor holds just the lines of the text.
pub proof fn law_load_over_old_lines(old_lines: Seq<Seq<char>>, t: Seq<char>)
    ensures
        ({
            let f = file_lines(t);
            let n = f.len() as int;
            let r = crate::model::loaded_lines(old_lines, t);
            &&& old_lines.len() <= n + 1 ==> r == f
            &&& old_lines.len() > n + 1 ==> {
                &&& r.len() == old_lines.len() - 1
                &&& forall|i: int| 0 <= i < n ==> r[i] == f[i]
                &&& r[n].len() == 0
                &&& forall|i: int| n < i < r.len() ==> r[i] == old_lines[i]
            }
        }),
{
    let f = file_lines(t);
    let n = f.len() as int;
    let r = crate::model::loaded_lines(old_lines, t);
    if old_lines.len() <= n + 1 {
        assert(r =~= f);
    } else {
        assert(r =~= (f + seq![Seq::<char>::empty()] + old_lines.skip(n + 1)).drop_last());
    }
}

/// Rows of `width` columns: a text of `len` bytes takes `wrap_count` extra
/// rows, the fewest that hold it.
pub proof fn law_wrap_count(len: nat, width: nat)
    requires
        width > 0,
    ensures
        ({
            let t = crate::wrap::wrap_count(len, width);
            &&& len <= (t + 1) * width
            &&& t > 0 ==> t * width < len
        }),
{
    let t = crate::wrap::wrap_count(len, width);
    if len > width {
        let m: int = len - 1;
        let w: int = width as int;
        let q: int = m / w;
        vstd::arithmetic::div_mod::lemma_fundamental_div_mod(m, w);
        assert(t == q);
        assert((t + 1) * width == (q + 1) * w);
        assert(t * width == q * w);
        assert(len <= (q + 1) * w) by (nonlinear_arith)
            requires
                m == w * q + m % w,
                m % w < w,
                len == m + 1;
        assert(q * w < len) by (nonlinear_arith)
            requires
                m == w * q + m % w,
                m % w >= 0,
                len == m + 1;
    } else {
        assert(t == 0);
        assert((t + 1) * width == width) by (nonlinear_arith)
            requires
                t == 0;
    }
}

/// The value of a text of decimal digits.
pub open spec fn digits_value(d: Seq<char>) -> int
    decreases d.len(),
{
    if d.len() == 0 {
        0
    } else {
        digits_value(d.drop_last()) * 10 + (d.last() as int - '0' as int)
    }
}

proof fn lemma_digit_char(d: nat)
    requires
        d < 10,
    ensures
        crate::terminal::digit_char(d) as int - '0' as int == d,
        '0' <= crate::terminal::digit_char(d) <= '9',
{
    assert('0' as int == 48);
    assert('9' as int == 57);
    if d == 0 {
    } else if d == 1 {
        assert('1' as int == 49);
    } else if d == 2 {
        assert('2' as int == 50);
    } else if d == 3 {
        assert('3' as int == 51);
    } else if d == 4 {
        assert('4' as int == 52);
    } else if d == 5 {
        assert('5' as int == 53);
    } else if d == 6 {
        assert('6' as int == 54);
    } else if d == 7 {
        assert('7' as int == 55);
    } else if d == 8 {
        assert('8' as int == 56);
    }
}

/// A number written in decimal is a nonempty run of digits with no leading
/// zero (but for zero itself) whose value is the number.
pub proof fn law_decimal(n: nat)
    ensures
        decimal(n).len() > 0,
        forall|i: int| 0 <= i < decimal(n).len() ==> '0' <= #[trigger] decimal(n)[i] <= '9',
        n > 0 ==> decimal(n)[0] != '0',
        digits_value(decimal(n)) == n,
    decreases n,
{
    if n < 10 {
        lemma_digit_char(n);
        assert(decimal(n).drop_last() =~= Seq::<char>::empty());
        assert(digits_value(Seq::<char>::empty()) == 0);
        assert(decimal(n).last() == crate::terminal::digit_char(n));
        assert(digits_value(decimal(n)) == 0 * 10 + (crate::terminal::digit_char(n) as int - '0' as int));
    } else {
        law_decimal(n / 10);
        lemma_digit_char(n % 10);
        let d = decimal(n / 10);
        assert(decimal(n).drop_last() =~= d);
        assert forall|i: int| 0 <= i < decimal(n).len() implies '0' <= #[trigger] decimal(n)[i]
            <= '9' by {
            if i < d.len() {
                assert(decimal(n)[i] == d[i]);
            }
        }
        assert(digits_value(decimal(n)) == digits_value(d) * 10 + (n % 10));
        assert((n / 10) * 10 + n % 10 == n);
    }
}

proof fn lemma_kept_len(line: Seq<char>, r: int, cursor: int, on: bool)
    requires
        0 <= r <= line.len(),
        0 <= cursor,
    ensures
        ({
            let k = kept_len(line, r, cursor, on);
            &&& 0 <= k <= r
            &&& forall|i: int| k <= i < r ==> #[trigger] line[i] == ' '
            &&& k == 0 || line[k - 1] != ' ' || (on && k <= cursor)
            &&& on ==> k >= if cursor < r {
                cursor
            } else {
                r
            }
        }),
    decreases r,
{
    if r > 0 && line[r - 1] == ' ' && (r > cursor || !on) {
        lemma_kept_len(line, r - 1, cursor, on);
    }
}

/// A shown line is drawn as its characters up to its trailing spaces, then
/// one underlined `%` for each trailing space; on the cursor's line, the
/// spaces before the cursor column are drawn as they are. The text drawn
/// comes right after the gutter.
pub proof fn law_row_marks_trailing_spaces(s: EditorState, width: int, i: int, skips: int)
    requires
        0 <= s.cursor_column,
    ensures
        ({
            let line = shown_line(s, i);
            let on = s.window_start + i == s.cursor_line;
            let k = kept_len(line, line.len() as int, s.cursor_column, on);
            let row = row_text(s, width, i, skips);
            let g = gutter_text(s, i, row_y(i + skips)).len() as int;
            let u = underline_text().len() as int;
            &&& 0 <= k <= line.len()
            &&& forall|j: int| k <= j < line.len() ==> #[trigger] line[j] == ' '
            &&& k == 0 || line[k - 1] != ' ' || (on && k <= s.cursor_column)
            &&& on ==> k >= if s.cursor_column < line.len() {
                s.cursor_column
            } else {
                line.len() as int
            }
            &&& row.subrange(g, g + k) == line.take(k)
            &&& row.subrange(g + k, g + k + u) == underline_text()
            &&& row.subrange(g + k + u, g + k + u + (line.len() - k)) == percents(
                (line.len() - k) as nat,
            )
        }),
{
    reveal(row_text);
    let line = shown_line(s, i);
    let on = s.window_start + i == s.cursor_line;
    lemma_kept_len(line, line.len() as int, s.cursor_column, on);
    let k = kept_len(line, line.len() as int, s.cursor_column, on);
    let row = row_text(s, width, i, skips);
    let g = gutter_text(s, i, row_y(i + skips)).len() as int;
    let u = underline_text().len() as int;
    assert(row.subrange(g, g + k) =~= line.take(k));
    assert(row.subrange(g + k, g + k + u) =~= underline_text());
    assert(row.subrange(g + k + u, g + k + u + (line.len() - k)) =~= percents(
        (line.len() - k) as nat,
    ));
}

/// The bottom line ends with the mode while editing, and with the question
/// and the path typed so far while a path is asked for.
pub proof fn law_bottom_line(s: EditorState, width: int, height: int, path: Seq<char>)
    ensures
        ({
            let b = bottom_text(s, width, height, path);
            let tail = match s.file_mode {
                FileMode::Edit => if s.insert_mode {
                    insert_label()
                } else {
                    move_label()
                },
                FileMode::Open => open_prompt_label() + s.bottom_bar,
                FileMode::SaveAsPrompt => save_prompt_label() + s.bottom_bar,
            };
            &&& b.len() >= tail.len()
            &&& b.subrange(b.len() - tail.len(), b.len() as int) == tail
            &&& s.file_mode == FileMode::Edit ==> b.subrange(
                b.len() - tail.len() - crate::terminal::goto_text(0, height).len() - path.len(),
                b.len() - tail.len() - crate::terminal::goto_text(0, height).len(),
            ) == path
        }),
{
    let b = bottom_text(s, width, height, path);
    let tail = match s.file_mode {
        FileMode::Edit => if s.insert_mode {
            insert_label()
        } else {
            move_label()
        },
        FileMode::Open => open_prompt_label() + s.bottom_bar,
        FileMode::SaveAsPrompt => save_prompt_label() + s.bottom_bar,
    };
    assert(b.subrange(b.len() - tail.len(), b.len() as int) =~= tail);
    if s.file_mode == FileMode::Edit {
        let g = crate::terminal::goto_text(0, height);
        assert(b.subrange(b.len() - tail.len() - g.len() - path.len(), b.len() - tail.len() - g.len())
            =~= path);
    }
}

/// The number of tabs in `t`, counted from its front.
pub open spec fn tab_count(t: Seq<char>) -> int
    decreases t.len(),
{
    if t.len() == 0 {
        0
    } else {
        (if t[0] == '\t' {
            1int
        } else {
            0int
        }) + tab_count(t.drop_first())
    }
}

proof fn lemma_tab_count_push(t: Seq<char>, c: char)
    ensures
        tab_count(t.push(c)) == tab_count(t) + if c == '\t' {
            1int
        } else {
            0int
        },
    decreases t.len(),
{
    if t.len() > 0 {
        assert(t.push(c).drop_first() =~= t.drop_first().push(c));
        assert(t.push(c)[0] == t[0]);
        lemma_tab_count_push(t.drop_first(), c);
    } else {
        assert(t.push(c).drop_first() =~= Seq::<char>::empty());
        assert(t.push(c)[0] == c);
        assert(tab_count(Seq::<char>::empty()) == 0);
    }
}

proof fn lemma_tabs_before(line: Seq<char>, k: int)
    requires
        0 <= k <= line.len(),
    ensures
        tabs_before(line, k) == tab_count(line.take(k)),
    decreases k,
{
    if k > 0 {
        lemma_tabs_before(line, k - 1);
        assert(line.take(k) =~= line.take(k - 1).push(line[k - 1]));
        lemma_tab_count_push(line.take(k - 1), line[k - 1]);
    } else {
        assert(line.take(0) =~= Seq::<char>::empty());
    }
}

/// The frame ends by showing the cursor where it is: on the column after the
/// gutter given by the cursor column, each tab before the cursor on its line
/// counting four columns, wrapped to the width left of the gutter; on the
/// row of the cursor's line below the window's start, moved down by the
/// rows that wrapped lines above it took.
pub proof fn law_cursor_drawn(
    s: EditorState,
    width: int,
    height: int,
    path: Seq<char>,
    index: int,
    skips: int,
    before: int,
)
    requires
        0 <= s.window_padding < width <= 65535,
        0 <= s.cursor_column,
        0 <= s.window_start <= s.cursor_line,
        0 <= before,
    ensures
        ({
            let f = footer_text(s, width, height, path, index, skips, before);
            let pad = s.window_padding;
            let l = s.cursor_line;
            let tabs = if l < s.lines.len() {
                let line = s.lines[l];
                tab_count(
                    line.take(
                        if s.cursor_column < line.len() {
                            s.cursor_column
                        } else {
                            line.len() as int
                        },
                    ),
                )
            } else {
                0
            };
            let x = pad + (s.cursor_column + 4 * tabs - tabs) % (width - pad);
            let y = 1 + (l - s.window_start + before) % 65536;
            let tail = goto_text(x, y) + show_text();
            &&& f.len() >= tail.len()
            &&& f.subrange(f.len() - tail.len(), f.len() as int) == tail
        }),
{
    let pad = s.window_padding;
    let l = s.cursor_line;
    if l < s.lines.len() {
        let line = s.lines[l];
        let k = if s.cursor_column < line.len() {
            s.cursor_column
        } else {
            line.len() as int
        };
        lemma_tabs_before(line, k);
    }
    let m = s.cursor_column + crate::screen::cursor_tabs(s) * 3;
    assert(0 <= m % (width - pad) < width - pad);
    assert(low16(pad + m % (width - pad)) == pad + m % (width - pad));
    let f = footer_text(s, width, height, path, index, skips, before);
    let tail = goto_text(cursor_x(s, width), cursor_y(s, before)) + show_text();
    assert(f.subrange(f.len() - tail.len(), f.len() as int) =~= tail);
}

/// With line numbers shown, a row starts with the move to its row, blanks as
/// wide as the gutter, the line number, a colon two columns before the
/// gutter's end, and the move to the text; and where the line fits on its
/// row, it ends with blanks to the end of the row and one more, right after
/// the colours are reset.
pub proof fn law_row_gutter_and_end(s: EditorState, width: int, i: int, skips: int)
    requires
        s.show_line_nums,
        0 <= s.window_start,
        0 <= i,
        2 <= s.window_padding < width <= 65535,
    ensures
        ({
            let pad = s.window_padding;
            let y = row_y(i + skips);
            let row = row_text(s, width, i, skips);
            let g0 = goto_text(0, y).len() as int;
            let num = decimal((s.window_start + i + 1) as nat);
            let a = 2 * g0 + pad + num.len();
            let mid = goto_text(pad - 2, y) + seq![':'] + goto_text(pad, y);
            let bl = byte_len(shown_line(s, i)) as int;
            let blank_tail = Seq::new((width - pad - bl + 1) as nat, |j: int| ' ');
            &&& row.subrange(g0, g0 + pad) == Seq::new(pad as nat, |j: int| ' ')
            &&& row.subrange(a, a + mid.len()) == mid
            &&& bl <= width - pad ==> row.len() >= blank_tail.len() + reset_bg_text().len()
                && row.subrange(row.len() - blank_tail.len(), row.len() as int) == blank_tail
                && row.subrange(
                row.len() - blank_tail.len() - reset_bg_text().len(),
                row.len() - blank_tail.len(),
            ) == reset_bg_text()
        }),
{
    reveal(row_text);
    let pad = s.window_padding;
    let y = row_y(i + skips);
    let row = row_text(s, width, i, skips);
    let g0 = goto_text(0, y).len() as int;
    let num = decimal((s.window_start + i + 1) as nat);
    let a = 2 * g0 + pad + num.len();
    let mid = goto_text(pad - 2, y) + seq![':'] + goto_text(pad, y);
    assert(low16(pad) == pad);
    let gt = gutter_text(s, i, y);
    assert(row.subrange(0, gt.len() as int) =~= gt);
    assert(row.subrange(g0, g0 + pad) =~= Seq::new(pad as nat, |j: int| ' '));
    assert(row.subrange(a, a + mid.len()) =~= mid);
    let bl = byte_len(shown_line(s, i)) as int;
    if bl <= width - pad {
        assert(crate::wrap::wrap_count(bl as nat, (width - pad + 1) as nat) == 0);
        let blank_tail = Seq::new((width - pad - bl + 1) as nat, |j: int| ' ');
        assert(row.subrange(row.len() - blank_tail.len(), row.len() as int) =~= blank_tail);
        assert(row.subrange(
            row.len() - blank_tail.len() - reset_bg_text().len(),
            row.len() - blank_tail.len(),
        ) =~= reset_bg_text());
    }
}

/// Screen lines `from .. n` drawn one after the other, each `skips` rows
/// down for the lines above it that wrapped.
pub open spec fn rows_from(s: EditorState, width: int, from: int, n: int, skips: int) -> Seq<char>
    decreases n - from,
{
    if from >= n {
        Seq::empty()
    } else {
        row_text(s, width, from, skips) + rows_from(
            s,
            width,
            from + 1,
            n,
            skips + row_wraps(s, width, from),
        )
    }
}

/// The rows skipped for wrapping once screen lines `from .. n` are drawn.
pub open spec fn skips_from(s: EditorState, width: int, from: int, n: int, skips: int) -> int
    decreases n - from,
{
    if from >= n {
        skips
    } else {
        skips_from(s, width, from + 1, n, skips + row_wraps(s, width, from))
    }
}

/// The text part of a frame draws the text lines from the window's start on,
/// one screen line each in order, every one pushed down by the rows that the
/// lines above it wrapped onto; it stops at the end of the text or when the
/// rows left (all but the bottom one) are used.
pub proof fn law_frame_rows_in_order(
    s: EditorState,
    width: int,
    height: int,
    index: int,
    skips: int,
    before: int,
)
    requires
        0 <= index,
        0 <= s.window_start,
        frame_rows(s, width, height, index, skips, before) is Some,
    ensures
        ({
            let r = frame_rows(s, width, height, index, skips, before).unwrap();
            let n = r.1;
            &&& index <= n
            &&& r.0 == rows_from(s, width, index, n, skips)
            &&& r.2 == skips_from(s, width, index, n, skips)
            &&& r.2 < height
            &&& n > index ==> n <= s.lines.len() - s.window_start
            &&& n >= s.lines.len() - s.window_start || n >= height - r.2 - 1
        }),
    decreases s.lines.len() - index,
{
    let rb = crate::screen::rows_bound(s, height, skips);
    if index >= rb {
        assert(rows_from(s, width, index, index, skips) =~= Seq::<char>::empty());
    } else {
        let skips2 = skips + row_wraps(s, width, index);
        let before2 = if s.window_start + index < s.cursor_line {
            skips2
        } else {
            before
        };
        law_frame_rows_in_order(s, width, height, index + 1, skips2, before2);
        let r = frame_rows(s, width, height, index + 1, skips2, before2).unwrap();
        let n = r.1;
        assert(rows_from(s, width, index, n, skips) == row_text(s, width, index, skips)
            + rows_from(s, width, index + 1, n, skips2));
    }
}

} // verus!
