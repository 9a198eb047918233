use vstd::prelude::*;

use crate::editor::Editor;
use crate::model::{EditorState, FileMode, fits_text};
use crate::terminal::{
    clear_after_cursor, clear_all, decimal_of, goto, hide_cursor, no_underline, reset_bg,
    reset_fg, show_cursor, underline, clear_after_text, clear_all_text, decimal, goto_text, hide_text, no_underline_text,
    reset_bg_text, reset_fg_text, show_text, underline_text,
};
use crate::text::{byte_len, byte_len_of, lemma_byte_len_at_least_len, push_spaces, spaces};
use crate::wrap::{wrap_count, wraps_for_len};

verus! {

/// `v` cast to `u16`.
pub open spec fn low16(v: int) -> int {
    v % 65536
}

/// The screen row (counted from one) of a row index of the frame; the
/// index is cast to `u16` and one is added to it.
pub open spec fn row_y(v: int) -> int {
    1 + low16(v)
}

/// `n` copies of `%`, drawn for the trailing spaces of a line.
pub open spec fn percents(n: nat) -> Seq<char> {
    Seq::new(n, |i: int| '%')
}

/// The number of characters of `line` drawn as they are: trailing spaces
/// from `r` down are shown as `%`, except on the cursor's line up to the
/// cursor column.
pub open spec fn kept_len(line: Seq<char>, r: int, cursor: int, on_cursor_line: bool) -> int
    decreases r,
{
    if r > 0 && r <= line.len() && line[r - 1] == ' ' && (r > cursor || !on_cursor_line) {
        kept_len(line, r - 1, cursor, on_cursor_line)
    } else {
        r
    }
}

/// The number of tabs among the first `k` characters of `line`.
pub open spec fn tabs_before(line: Seq<char>, k: int) -> int
    decreases k,
{
    if k <= 0 || k > line.len() {
        0
    } else {
        tabs_before(line, k - 1) + if line[k - 1] == '\t' {
            1int
        } else {
            0int
        }
    }
}

pub open spec fn min_of(a: int, b: int) -> int {
    if a < b {
        a
    } else {
        b
    }
}

pub open spec fn max_of(a: int, b: int) -> int {
    if a < b {
        b
    } else {
        a
    }
}

/// The screen line `index` of the frame shows text line `window_start + index`.
pub open spec fn shown_line(s: EditorState, index: int) -> Seq<char> {
    s.lines[s.window_start + index]
}

/// The extra screen rows that a shown line wraps onto.
pub open spec fn row_wraps(s: EditorState, width: int, index: int) -> int {
    wrap_count(byte_len(shown_line(s, index)), (width - s.window_padding + 1) as nat) as int
}

/// Drawing screen line `index`, `skips` rows down for wrapped lines above it,
/// stays within the arithmetic.
#[verifier::opaque]
pub open spec fn row_ok(s: EditorState, width: int, index: int, skips: int) -> bool {
    let pad = s.window_padding;
    let wraps = row_wraps(s, width, index);
    &&& row_y(index + skips) <= 65535
    &&& pad <= width
    &&& wraps > 0 ==> width - pad != 0
    &&& s.show_line_nums ==> low16(pad) >= 2
}

/// The start of a screen line at row `y`: the gutter, with the line number
/// and a colon where line numbers are shown, and the move to the text.
pub open spec fn gutter_text(s: EditorState, index: int, y: int) -> Seq<char> {
    let pad = s.window_padding;
    goto_text(0, y) + spaces(pad as nat) + (if s.show_line_nums {
        goto_text(0, y) + decimal((s.window_start + index + 1) as nat) + goto_text(
            low16(pad) - 2,
            y,
        ) + seq![':']
    } else {
        Seq::empty()
    }) + goto_text(low16(pad), y)
}

/// The text of a screen line: the first `kept` characters of `line`, `%`
/// for the rest (underlined), the colours reset, and where line numbers are
/// shown, `cols + 1` spaces.
pub open spec fn body_text(line: Seq<char>, kept: int, cols: int, show: bool) -> Seq<char> {
    line.take(kept) + underline_text() + percents((line.len() - kept) as nat) + no_underline_text()
        + reset_fg_text() + reset_bg_text() + (if show {
        spaces((cols + 1) as nat)
    } else {
        Seq::empty()
    })
}

/// The columns left on the last row of a shown line.
pub open spec fn columns_left(s: EditorState, width: int, index: int) -> int {
    let bl = byte_len(shown_line(s, index)) as int;
    let pad = s.window_padding;
    if row_wraps(s, width, index) == 0 {
        max_of(width - pad - bl, 0)
    } else {
        width - bl % (width - pad)
    }
}

/// Screen line `index`: the gutter with the line number, the kept
/// characters, `%` for trailing spaces (underlined), and with line numbers
/// shown, spaces to the end of the row.
#[verifier::opaque]
pub open spec fn row_text(s: EditorState, width: int, index: int, skips: int) -> Seq<char> {
    let line = shown_line(s, index);
    let r = kept_len(
        line,
        line.len() as int,
        s.cursor_column,
        s.window_start + index == s.cursor_line,
    );
    gutter_text(s, index, row_y(index + skips)) + body_text(
        line,
        r,
        columns_left(s, width, index),
        s.show_line_nums,
    )
}

/// How many text lines the frame shows from screen line `index` on: no more
/// than the text has, nor than fit in the rows left.
pub open spec fn rows_bound(s: EditorState, height: int, skips: int) -> int {
    min_of(
        min_of(height - skips, max_of(s.lines.len() - s.window_start, 0)),
        height - skips - 1,
    )
}

/// The text lines of the frame from screen line `index` on, with the row
/// offset, the screen line index and the rows skipped before the cursor's
/// line where the drawing stops; `None` where the arithmetic would overflow.
pub open spec fn frame_rows(
    s: EditorState,
    width: int,
    height: int,
    index: int,
    skips: int,
    skips_before_cursor: int,
) -> Option<(Seq<char>, int, int, int)>
    decreases s.lines.len() - index,
{
    if skips >= height {
        None
    } else if index >= rows_bound(s, height, skips) || index < 0 || s.window_start < 0 {
        Some((Seq::empty(), index, skips, skips_before_cursor))
    } else if !row_ok(s, width, index, skips) {
        None
    } else {
        let skips2 = skips + row_wraps(s, width, index);
        let before2 = if s.window_start + index < s.cursor_line {
            skips2
        } else {
            skips_before_cursor
        };
        match frame_rows(s, width, height, index + 1, skips2, before2) {
            None => None,
            Some(rest) => Some(
                (row_text(s, width, index, skips) + rest.0, rest.1, rest.2, rest.3),
            ),
        }
    }
}

/// The bottom line: the file's path at the right and the mode at the left
/// while editing, or the question and the path typed so far.
pub open spec fn bottom_text(s: EditorState, width: int, height: int, path: Seq<char>) -> Seq<
    char,
> {
    match s.file_mode {
        FileMode::Edit => goto_text(max_of(width - byte_len(path), 0), height) + path + goto_text(
            0,
            height,
        ) + if s.insert_mode {
            insert_label()
        } else {
            move_label()
        },
        FileMode::Open => goto_text(0, height) + open_prompt_label() + s.bottom_bar,
        FileMode::SaveAsPrompt => goto_text(0, height) + save_prompt_label() + s.bottom_bar,
    }
}

/// The tabs on the cursor's line before the cursor, each drawn three columns
/// wider than one.
pub open spec fn cursor_tabs(s: EditorState) -> int {
    if 0 <= s.cursor_line < s.lines.len() {
        let line = s.lines[s.cursor_line];
        tabs_before(line, min_of(s.cursor_column, line.len() as int))
    } else {
        0
    }
}

pub open spec fn cursor_x(s: EditorState, width: int) -> int {
    low16(
        s.window_padding + (s.cursor_column + cursor_tabs(s) * 3) % (width - s.window_padding),
    )
}

pub open spec fn cursor_y(s: EditorState, skips_before_cursor: int) -> int {
    row_y(s.cursor_line - s.window_start + skips_before_cursor)
}

pub open spec fn footer_ok(
    s: EditorState,
    width: int,
    height: int,
    index: int,
    skips: int,
    skips_before_cursor: int,
) -> bool {
    &&& row_y(index + skips) <= 65535
    &&& height >= 1
    &&& s.window_padding < width
    &&& s.cursor_column + cursor_tabs(s) * 3 <= isize::MAX
    &&& cursor_y(s, skips_before_cursor) <= 65535
}

/// The end of the frame: the rest of the screen cleared, the bottom line,
/// and the cursor shown at its place.
pub open spec fn footer_text(
    s: EditorState,
    width: int,
    height: int,
    path: Seq<char>,
    index: int,
    skips: int,
    skips_before_cursor: int,
) -> Seq<char> {
    goto_text(1, row_y(index + skips)) + clear_after_text() + bottom_text(s, width, height, path)
        + goto_text(cursor_x(s, width), cursor_y(s, skips_before_cursor)) + show_text()
}

/// The frame drawn for the editor on a screen `width` columns wide and
/// `height` rows high, with `path` the current file; `None` where the
/// arithmetic of the drawing would overflow or divide by zero.
pub open spec fn frame_text(s: EditorState, width: int, height: int, path: Seq<char>) -> Option<
    Seq<char>,
> {
    let head = hide_text() + if s.show_line_nums {
        Seq::empty()
    } else {
        clear_all_text()
    };
    match frame_rows(s, width, height, 0, 0, 0) {
        None => None,
        Some(r) => if footer_ok(s, width, height, r.1, r.2, r.3) {
            Some(head + r.0 + footer_text(s, width, height, path, r.1, r.2, r.3))
        } else {
            None
        },
    }
}

/// The rows so far, `prefix`, followed by the rest.
pub open spec fn after_rows(
    prefix: Seq<char>,
    rest: Option<(Seq<char>, int, int, int)>,
) -> Option<(Seq<char>, int, int, int)> {
    match rest {
        None => None,
        Some(r) => Some((prefix + r.0, r.1, r.2, r.3)),
    }
}

/// Appends `n` copies of `%` to `v`.
fn push_percents(v: &mut Vec<char>, n: usize)
    ensures
        final(v)@ == old(v)@ + percents(n as nat),
{
    let mut j: usize = 0;
    while j < n
        invariant
            j <= n,
            v@ == old(v)@ + percents(j as nat),
        decreases n - j,
    {
        v.push('%');
        j = j + 1;
        assert(v@ =~= old(v)@ + percents(j as nat));
    }
}

/// Appends all of `w` to `v`.
fn push_all(v: &mut Vec<char>, w: &Vec<char>)
    ensures
        final(v)@ == old(v)@ + w@,
{
    let mut j: usize = 0;
    while j < w.len()
        invariant
            j <= w@.len(),
            v@ == old(v)@ + w@.take(j as int),
        decreases w@.len() - j,
    {
        v.push(w[j]);
        j = j + 1;
        assert(v@ =~= old(v)@ + w@.take(j as int));
    }
    assert(w@.take(j as int) =~= w@);
}

/// Appends the first `k` characters of `w` to `v`.
fn push_prefix(v: &mut Vec<char>, w: &Vec<char>, k: usize)
    requires
        k <= w@.len(),
    ensures
        final(v)@ == old(v)@ + w@.take(k as int),
{
    let mut j: usize = 0;
    while j < k
        invariant
            j <= k,
            k <= w@.len(),
            v@ == old(v)@ + w@.take(j as int),
        decreases k - j,
    {
        v.push(w[j]);
        j = j + 1;
        assert(v@ =~= old(v)@ + w@.take(j as int));
    }
}

/// The number of characters of `line` drawn as they are.
fn kept_chars(line: &Vec<char>, cursor: usize, on_cursor_line: bool) -> (r: usize)
    ensures
        r <= line@.len(),
        r == kept_len(line@, line@.len() as int, cursor as int, on_cursor_line),
{
    let mut r = line.len();
    while r > 0 && line[r - 1] == ' ' && (r > cursor || !on_cursor_line)
        invariant
            r <= line@.len(),
            kept_len(line@, line@.len() as int, cursor as int, on_cursor_line) == kept_len(
                line@,
                r as int,
                cursor as int,
                on_cursor_line,
            ),
        decreases r,
    {
        r = r - 1;
    }
    r
}

/// The number of tabs among the first `k` characters of `line`.
fn count_tabs(line: &Vec<char>, k: usize) -> (n: usize)
    requires
        k <= line@.len(),
    ensures
        n == tabs_before(line@, k as int),
        n <= k,
{
    let mut n: usize = 0;
    let mut i: usize = 0;
    while i < k
        invariant
            i <= k,
            k <= line@.len(),
            n == tabs_before(line@, i as int),
            n <= i,
        decreases k - i,
    {
        if line[i] == '\t' {
            n = n + 1;
        }
        i = i + 1;
    }
    n
}

pub open spec fn insert_label() -> Seq<char> {
    seq!['I', 'n', 's', 'e', 'r', 't', ' ', 'M', 'o', 'd', 'e']
}

pub open spec fn move_label() -> Seq<char> {
    seq!['M', 'o', 'v', 'e', ' ', 'M', 'o', 'd', 'e']
}

pub open spec fn open_prompt_label() -> Seq<char> {
    seq!['O', 'p', 'e', 'n', ' ', 'F', 'i', 'l', 'e', ' ', ':', ' ']
}

pub open spec fn save_prompt_label() -> Seq<char> {
    seq!['S', 'a', 'v', 'e', ' ', 'a', 's', ' ', ':', ' ']
}

fn chars_of(cs: &[char]) -> (r: Vec<char>)
    ensures
        r@ == cs@,
{
    let mut out: Vec<char> = Vec::new();
    let mut i: usize = 0;
    while i < cs.len()
        invariant
            i <= cs@.len(),
            out@ == cs@.take(i as int),
        decreases cs@.len() - i,
    {
        out.push(cs[i]);
        i = i + 1;
        assert(out@ =~= cs@.take(i as int));
    }
    assert(cs@.take(i as int) =~= cs@);
    out
}

fn mode_label(insert: bool) -> (r: Vec<char>)
    ensures
        r@ == (if insert {
            insert_label()
        } else {
            move_label()
        }),
{
    if insert {
        let a = ['I', 'n', 's', 'e', 'r', 't', ' ', 'M', 'o', 'd', 'e'];
        let r = chars_of(&a);
        assert(r@ =~= insert_label());
        r
    } else {
        let a = ['M', 'o', 'v', 'e', ' ', 'M', 'o', 'd', 'e'];
        let r = chars_of(&a);
        assert(r@ =~= move_label());
        r
    }
}

fn open_label() -> (r: Vec<char>)
    ensures
        r@ == open_prompt_label(),
{
    let a = ['O', 'p', 'e', 'n', ' ', 'F', 'i', 'l', 'e', ' ', ':', ' '];
    let r = chars_of(&a);
    assert(r@ =~= open_prompt_label());
    r
}

fn save_label() -> (r: Vec<char>)
    ensures
        r@ == save_prompt_label(),
{
    let a = ['S', 'a', 'v', 'e', ' ', 'a', 's', ' ', ':', ' '];
    let r = chars_of(&a);
    assert(r@ =~= save_prompt_label());
    r
}

/// The text of a screen line after its gutter.
fn body_chars(line: &Vec<char>, kept: usize, cols: usize, show: bool) -> (r: Vec<char>)
    requires
        kept <= line@.len(),
        cols < usize::MAX,
    ensures
        r@ == body_text(line@, kept as int, cols as int, show),
{
    let mut out: Vec<char> = Vec::new();
    push_prefix(&mut out, line, kept);
    let u = underline();
    push_all(&mut out, &u);
    push_percents(&mut out, line.len() - kept);
    let nu = no_underline();
    push_all(&mut out, &nu);
    let rf = reset_fg();
    push_all(&mut out, &rf);
    let rb = reset_bg();
    push_all(&mut out, &rb);
    if show {
        push_spaces(&mut out, cols + 1);
    }
    assert(out@ =~= body_text(line@, kept as int, cols as int, show));
    out
}

impl Editor {
    /// The gutter of screen line `index` at row `y`.
    fn gutter(&self, index: usize, y: u16, p16: u16) -> (r: Vec<char>)
        requires
            y >= 1,
            self.window_start + index + 1 <= usize::MAX,
            p16 == low16(self.window_padding as int),
            self.show_line_nums ==> p16 >= 2,
        ensures
            r@ == gutter_text(self@, index as int, y as int),
    {
        let mut out = goto(0, y);
        push_spaces(&mut out, self.window_padding);
        if self.show_line_nums {
            let g = goto(0, y);
            push_all(&mut out, &g);
            let num = decimal_of(self.window_start + index + 1);
            push_all(&mut out, &num);
            let g2 = goto(p16 - 2, y);
            push_all(&mut out, &g2);
            out.push(':');
        }
        let g3 = goto(p16, y);
        push_all(&mut out, &g3);
        assert(out@ =~= gutter_text(self@, index as int, y as int));
        out
    }

    /// Screen line `index` of the frame, `skips` rows down, and the rows
    /// that its line wraps onto; `None` where the drawing would overflow.
    fn render_row(&self, width: usize, index: usize, skips: usize) -> (r: Option<(Vec<char>, usize)>)
        requires
            self.wf(),
            self.cursor_column >= 0,
            self.window_start + index < self.lines@.len(),
            index + skips < 65535,
            width <= 65535,
        ensures
            match r {
                Some(x) => row_ok(self@, width as int, index as int, skips as int) && x.0@
                    == row_text(self@, width as int, index as int, skips as int) && x.1
                    == row_wraps(self@, width as int, index as int),
                None => !row_ok(self@, width as int, index as int, skips as int),
            },
    {
        let ghost s = self@;
        let pad = self.window_padding;
        proof {
            reveal(row_ok);
        }
        if pad > width {
            return None;
        }
        if self.show_line_nums && pad < 2 {
            return None;
        }
        let li = self.window_start + index;
        let line = &self.lines[li];
        proof {
            assert(fits_text(s.lines[li as int]));
            lemma_byte_len_at_least_len(line@);
        }
        let bl = byte_len_of(line);
        let wraps = wraps_for_len(bl, width - pad + 1);
        if wraps > 0 && width == pad {
            return None;
        }
        let y: u16 = (1 + index + skips) as u16;
        let p16: u16 = pad as u16;
        let r = kept_chars(line, self.cursor_column as usize, li as isize == self.cursor_line);
        let cols: usize = if wraps == 0 {
            if width >= pad + bl {
                width - pad - bl
            } else {
                0
            }
        } else {
            width - bl % (width - pad)
        };
        let mut out = self.gutter(index, y, p16);
        let body = body_chars(line, r, cols, self.show_line_nums);
        push_all(&mut out, &body);
        proof {
            reveal(row_ok);
            reveal(row_text);
            assert(row_y(index + skips) == y);
            assert(low16(pad as int) == p16);
            assert(cols == columns_left(s, width as int, index as int));
        }
        Some((out, wraps))
    }

    /// The bottom line of the frame.
    fn bottom_line(&self, width: usize, height: u16, path: &Vec<char>) -> (r: Vec<char>)
        requires
            self.wf(),
            fits_text(path@),
            height >= 1,
            width <= 65535,
        ensures
            r@ == bottom_text(self@, width as int, height as int, path@),
    {
        match self.file_mode {
            FileMode::Edit => {
                let bl = byte_len_of(path);
                let fx: u16 = if width > bl {
                    (width - bl) as u16
                } else {
                    0
                };
                let mut out = goto(fx, height);
                push_all(&mut out, path);
                let g = goto(0, height);
                push_all(&mut out, &g);
                let label = mode_label(self.insert_mode);
                push_all(&mut out, &label);
                out
            },
            FileMode::Open => {
                let mut out = goto(0, height);
                let label = open_label();
                push_all(&mut out, &label);
                push_all(&mut out, &self.bottom_bar);
                out
            },
            FileMode::SaveAsPrompt => {
                let mut out = goto(0, height);
                let label = save_label();
                push_all(&mut out, &label);
                push_all(&mut out, &self.bottom_bar);
                out
            },
        }
    }

    /// The text lines of the frame, with the screen line index, the rows
    /// skipped for wrapped lines and those skipped before the cursor's line
    /// where the drawing stops; `None` where the arithmetic would overflow.
    fn render_rows(&self, w: usize, h: usize) -> (r: Option<(Vec<char>, usize, usize, usize)>)
        requires
            self.wf(),
            self.cursor_column >= 0,
            w <= 65535,
            h <= 65535,
        ensures
            match r {
                Some(x) => frame_rows(self@, w as int, h as int, 0, 0, 0) == Some(
                    (x.0@, x.1 as int, x.2 as int, x.3 as int),
                ) && x.2 < h && x.3 <= x.2 && x.1 <= self.lines@.len(),
                None => frame_rows(self@, w as int, h as int, 0, 0, 0) is None,
            },
    {
        let ghost s = self@;
        let ghost total = frame_rows(s, w as int, h as int, 0, 0, 0);
        let mut out: Vec<char> = Vec::new();
        let mut index: usize = 0;
        let mut skips: usize = 0;
        let mut before: usize = 0;
        let len = self.lines.len();
        let ws = self.window_start;
        proof {
            match total {
                None => {},
                Some(x) => {
                    assert(Seq::<char>::empty() + x.0 =~= x.0);
                },
            }
        }
        loop
            invariant
                self.wf(),
                s == self@,
                w <= 65535,
                h <= 65535,
                len == self.lines@.len(),
                ws == self.window_start,
                self.cursor_column >= 0,
                total == frame_rows(s, w as int, h as int, 0, 0, 0),
                total == after_rows(
                    out@,
                    frame_rows(s, w as int, h as int, index as int, skips as int, before as int),
                ),
                before <= skips,
                index <= len,
            ensures
                skips < h,
                index <= len,
                before <= skips,
                total == Some((out@, index as int, skips as int, before as int)),
            decreases len - index,
        {
            if skips >= h {
                return None;
            }
            let avail: usize = if len > ws {
                len - ws
            } else {
                0
            };
            let a = if h - skips < avail {
                h - skips
            } else {
                avail
            };
            let bound = if a < h - skips - 1 {
                a
            } else {
                h - skips - 1
            };
            if index >= bound {
                proof {
                    assert(out@ + Seq::<char>::empty() =~= out@);
                }
                break;
            }
            let row = self.render_row(w, index, skips);
            match row {
                None => {
                    return None;
                },
                Some((text, wraps)) => {
                    let ghost prev = out@;
                    let ghost old_skips = skips as int;
                    let ghost old_before = before as int;
                    push_all(&mut out, &text);
                    if wraps > usize::MAX - skips {
                        proof {
                            let b2 = if ws + index < s.cursor_line {
                                old_skips + wraps
                            } else {
                                old_before
                            };
                            assert(frame_rows(
                                s,
                                w as int,
                                h as int,
                                index + 1,
                                old_skips + wraps,
                                b2,
                            ) is None);
                        }
                        return None;
                    }
                    skips = skips + wraps;
                    if self.cursor_line >= 0 && ws + index < self.cursor_line as usize {
                        before = skips;
                    }
                    proof {
                        let rest = frame_rows(
                            s,
                            w as int,
                            h as int,
                            index + 1,
                            skips as int,
                            before as int,
                        );
                        match rest {
                            None => {},
                            Some(x) => {
                                assert(prev + (text@ + x.0) =~= (prev + text@) + x.0);
                            },
                        }
                    }
                    index = index + 1;
                },
            }
        }
        Some((out, index, skips, before))
    }

    /// The end of the frame after screen line `index`, `skips` rows down,
    /// with `before` rows skipped before the cursor's line; `None` where the
    /// arithmetic would overflow or divide by zero.
    fn render_footer(
        &self,
        w: usize,
        height: u16,
        path: &Vec<char>,
        index: usize,
        skips: usize,
        before: usize,
    ) -> (r: Option<Vec<char>>)
        requires
            self.wf(),
            self.cursor_line >= 0,
            self.cursor_column >= 0,
            self.window_start <= self.cursor_line,
            fits_text(path@),
            w <= 65535,
            skips < height,
            before <= skips,
            index <= self.lines@.len(),
        ensures
            match r {
                Some(t) => footer_ok(
                    self@,
                    w as int,
                    height as int,
                    index as int,
                    skips as int,
                    before as int,
                ) && t@ == footer_text(
                    self@,
                    w as int,
                    height as int,
                    path@,
                    index as int,
                    skips as int,
                    before as int,
                ),
                None => !footer_ok(
                    self@,
                    w as int,
                    height as int,
                    index as int,
                    skips as int,
                    before as int,
                ),
            },
    {
        let ghost s = self@;
        let len = self.lines.len();
        let ws = self.window_start;
        let pad = self.window_padding;
        let v = index + skips;
        if v % 65536 == 65535 || height < 1 || pad >= w {
            return None;
        }
        let tabs: usize = if (self.cursor_line as usize) < len {
            let line = &self.lines[self.cursor_line as usize];
            let k = if (self.cursor_column as usize) < line.len() {
                self.cursor_column as usize
            } else {
                line.len()
            };
            count_tabs(line, k)
        } else {
            0
        };
        assert(cursor_tabs(s) == tabs);
        let cc = self.cursor_column as usize;
        if tabs > ((isize::MAX as usize) - cc) / 3 {
            return None;
        }
        let v2 = (self.cursor_line as usize - ws) + before;
        if v2 % 65536 == 65535 {
            return None;
        }
        let x: u16 = (pad + (cc + tabs * 3) % (w - pad)) as u16;
        let y2: u16 = (1 + v2 % 65536) as u16;
        let y_end: u16 = (1 + v % 65536) as u16;
        let mut out = goto(1, y_end);
        let c = clear_after_cursor();
        push_all(&mut out, &c);
        let b = self.bottom_line(w, height, path);
        push_all(&mut out, &b);
        let g2 = goto(x, y2);
        push_all(&mut out, &g2);
        let sh = show_cursor();
        push_all(&mut out, &sh);
        proof {
            assert(footer_ok(s, w as int, height as int, index as int, skips as int, before as int));
            assert(out@ =~= footer_text(
                s,
                w as int,
                height as int,
                path@,
                index as int,
                skips as int,
                before as int,
            ));
        }
        Some(out)
    }

    /// The frame to draw for the editor on a screen `width` columns wide and
    /// `height` rows high, `path` being the current file: the shown lines
    /// with their line numbers, the bottom line and the cursor; `None`
    /// where the drawing would overflow or divide by zero (a screen too
    /// small for the wrapped lines, or no room next to the line numbers).
    pub fn render(&self, width: u16, height: u16, path: &Vec<char>) -> (r: Option<Vec<char>>)
        requires
            self.wf(),
            self.cursor_line >= 0,
            self.cursor_column >= 0,
            self.window_start <= self.cursor_line,
            fits_text(path@),
        ensures
            match r {
                Some(t) => frame_text(self@, width as int, height as int, path@) == Some(t@),
                None => frame_text(self@, width as int, height as int, path@) is None,
            },
    {
        let ghost s = self@;
        let w = width as usize;
        let h = height as usize;
        let mut out = hide_cursor();
        if !self.show_line_nums {
            let c = clear_all();
            push_all(&mut out, &c);
        }
        let ghost head = out@;
        let (rows, index, skips, before) = match self.render_rows(w, h) {
            None => {
                return None;
            },
            Some(x) => x,
        };
        push_all(&mut out, &rows);
        match self.render_footer(w, height, path, index, skips, before) {
            None => None,
            Some(foot) => {
                push_all(&mut out, &foot);
                assert(out@ =~= head + rows@ + foot@);
                Some(out)
            },
        }
    }

}

} // verus!
