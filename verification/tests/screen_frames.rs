use dte::editor::Editor;
use dte::keys::Layout;

fn editor_with(lines: &[&str]) -> Editor {
    let mut e = Editor::new(Layout::Dvorak);
    e.lines = lines.iter().map(|l| l.chars().collect()).collect();
    e
}

fn frame(e: &Editor, w: u16, h: u16, path: &str) -> Option<String> {
    let p: Vec<char> = path.chars().collect();
    e.render(w, h, &p).map(|v| v.into_iter().collect())
}

#[test]
fn frame_without_line_numbers() {
    let mut e = editor_with(&["ab"]);
    e.show_line_nums = false;
    e.finish_frame(5);
    let got = frame(&e, 10, 5, "f").unwrap();
    let expected = "\x1b[?25l\x1b[2J\x1b[1;0H\x1b[1;0Hab\x1b[4m\x1b[24m\x1b[39m\x1b[49m\
\x1b[2;1H\x1b[J\x1b[5;9Hf\x1b[5;0HMove Mode\x1b[1;0H\x1b[?25h";
    assert_eq!(got, expected);
}

#[test]
fn frame_with_line_numbers_and_trailing_spaces() {
    let mut e = editor_with(&["a  ", "b"]);
    e.cursor_line = 1;
    e.cursor_column = 1;
    e.insert_mode = true;
    e.finish_frame(5);
    assert_eq!(e.window_padding, 4);
    let got = frame(&e, 10, 5, "f").unwrap();
    let expected = "\x1b[?25l\
\x1b[1;0H    \x1b[1;0H1\x1b[1;2H:\x1b[1;4Ha\x1b[4m%%\x1b[24m\x1b[39m\x1b[49m    \
\x1b[2;0H    \x1b[2;0H2\x1b[2;2H:\x1b[2;4Hb\x1b[4m\x1b[24m\x1b[39m\x1b[49m      \
\x1b[3;1H\x1b[J\x1b[5;9Hf\x1b[5;0HInsert Mode\x1b[2;5H\x1b[?25h";
    assert_eq!(got, expected);
}

#[test]
fn frame_shows_prompt() {
    let mut e = editor_with(&["x"]);
    e.show_line_nums = false;
    e.file_mode = dte::model::FileMode::Open;
    e.bottom_bar = "/tmp/".chars().collect();
    e.finish_frame(3);
    let got = frame(&e, 10, 3, "f").unwrap();
    assert!(got.ends_with("\x1b[3;0HOpen File : /tmp/\x1b[1;0H\x1b[?25h"));
}

#[test]
fn frame_too_narrow_for_line_numbers_is_refused() {
    let mut e = editor_with(&["abc"]);
    e.finish_frame(5);
    assert_eq!(e.window_padding, 4);
    assert!(frame(&e, 4, 5, "f").is_none());
}

#[test]
fn frame_with_long_wrapped_lines_on_small_screen_is_refused() {
    let long: String = std::iter::repeat('x').take(60).collect();
    let mut e = editor_with(&[&long, &long]);
    e.show_line_nums = false;
    e.finish_frame(3);
    assert!(frame(&e, 10, 3, "f").is_none());
}

#[test]
fn frame_window_follows_cursor() {
    let lines: Vec<String> = (0..20).map(|i| i.to_string()).collect();
    let refs: Vec<&str> = lines.iter().map(|s| s.as_str()).collect();
    let mut e = editor_with(&refs);
    e.cursor_line = 15;
    e.finish_frame(6);
    assert_eq!(e.window_start, 11);
    e.cursor_line = 3;
    e.finish_frame(6);
    assert_eq!(e.window_start, 3);
}

#[test]
fn frame_end_needs_two_rows() {
    let e = editor_with(&["a"]);
    assert!(!e.frame_fits(1));
    assert!(e.frame_fits(2));
    let mut f = editor_with(&["a"]);
    f.window_start = 5;
    f.cursor_line = 3;
    assert!(f.frame_fits(1));
    f.cursor_line = 4;
    assert!(!f.frame_fits(1));
}
