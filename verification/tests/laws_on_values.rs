use dte::editor::Editor;
use dte::keys::{Key, Layout};

fn editor_with(lines: &[&str]) -> Editor {
    let mut e = Editor::new(Layout::Dvorak);
    e.lines = lines.iter().map(|l| l.chars().collect()).collect();
    e
}

fn text(e: &Editor) -> Vec<String> {
    e.lines.iter().map(|l| l.iter().collect()).collect()
}

#[test]
fn backspace_undoes_typing() {
    let mut e = editor_with(&["héllo"]);
    e.insert_mode = true;
    e.cursor_column = 2;
    e.handle_key(Key::Char('x'));
    assert_eq!(text(&e), vec!["héxllo".to_string()]);
    e.handle_key(Key::Backspace);
    assert_eq!(text(&e), vec!["héllo".to_string()]);
    assert_eq!(e.cursor_column, 2);
}

#[test]
fn backspace_undoes_enter() {
    let mut e = editor_with(&["abcd", "z"]);
    e.insert_mode = true;
    e.cursor_column = 3;
    e.handle_key(Key::Char('\n'));
    e.handle_key(Key::Backspace);
    assert_eq!(text(&e), vec!["abcd".to_string(), "z".to_string()]);
    assert_eq!((e.cursor_line, e.cursor_column), (0, 3));
}

#[test]
fn left_undoes_right() {
    let mut e = editor_with(&["abc"]);
    e.handle_key(Key::Char('t'));
    e.handle_key(Key::Char('h'));
    assert_eq!((e.cursor_line, e.cursor_column), (0, 0));
    assert_eq!(text(&e), vec!["abc".to_string()]);
}

#[test]
fn tab_reaches_a_tab_stop() {
    for start in 0..9isize {
        let mut e = editor_with(&["abcdefghij"]);
        e.insert_mode = true;
        e.cursor_column = start;
        e.handle_key(Key::Char('\t'));
        assert_eq!(e.cursor_column % 4, 0);
        assert!(e.cursor_column > start && e.cursor_column <= start + 4);
    }
}

#[test]
fn load_after_save_gives_the_lines_back() {
    let lines = ["fn main() {", "    é", "", "}"];
    let e = editor_with(&lines);
    let saved = e.save_text();
    assert_eq!(saved.iter().collect::<String>(), "fn main() {\n    é\n\n}\n");
    let mut f = Editor::new(Layout::Dvorak);
    f.load_text(&saved);
    assert_eq!(text(&f), lines.iter().map(|s| s.to_string()).collect::<Vec<_>>());
}

#[test]
fn escape_cancels_open_prompt_keeping_text() {
    let mut e = editor_with(&["abc"]);
    e.cursor_column = 2;
    e.handle_key(Key::Char('f'));
    e.handle_key(Key::Esc);
    assert_eq!(text(&e), vec!["abc".to_string()]);
    assert_eq!(e.cursor_column, 2);
    assert!(e.bottom_bar.is_empty());
}

#[test]
fn frame_end_settles() {
    let mut e = editor_with(&["a", "b", "c"]);
    e.cursor_line = 40;
    e.cursor_column = -3;
    e.finish_frame(10);
    let once = (e.cursor_line, e.cursor_column, e.window_start, e.window_padding);
    e.finish_frame(10);
    let twice = (e.cursor_line, e.cursor_column, e.window_start, e.window_padding);
    assert_eq!(once, twice);
    assert_eq!(once, (40, 0, 32, 4));
}

#[test]
fn line_numbers_fit_the_gutter() {
    let mut e = editor_with(&[""; 100]);
    e.finish_frame(10);
    assert_eq!(e.window_padding, 6);
    assert!("100".len() + 3 <= e.window_padding);
}

#[test]
fn motion_keeps_text() {
    let mut e = editor_with(&["abc", "de"]);
    for c in ['t', 'h', 'e', 'u', 'E', 'U', 'T', 'H', '\t', 'o', 'a', 'l', 'x'] {
        e.handle_key(Key::Char(c));
        assert_eq!(text(&e), vec!["abc".to_string(), "de".to_string()]);
    }
    e.handle_key(Key::Esc);
    assert_eq!(text(&e), vec!["abc".to_string(), "de".to_string()]);
}
