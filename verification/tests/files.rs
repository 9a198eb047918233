use dte::editor::{Editor, can_load, read_lines};
use dte::keys::Layout;

fn chars(s: &str) -> Vec<char> {
    s.chars().collect()
}

fn text(e: &Editor) -> Vec<String> {
    e.lines.iter().map(|l| l.iter().collect()).collect()
}

#[test]
fn reading_drops_line_breaks() {
    let lines = read_lines(&chars("a\nbc\n\nd\n"));
    let got: Vec<String> = lines.iter().map(|l| l.iter().collect()).collect();
    assert_eq!(got, vec!["a", "bc", "", "d"]);
}

#[test]
fn reading_without_final_line_break_drops_last_character() {
    let lines = read_lines(&chars("ab\ncd"));
    let got: Vec<String> = lines.iter().map(|l| l.iter().collect()).collect();
    assert_eq!(got, vec!["ab", "c"]);
}

#[test]
fn reading_empty_file_gives_no_lines() {
    assert!(read_lines(&Vec::new()).is_empty());
    let mut e = Editor::new(Layout::Dvorak);
    e.load_text(&Vec::new());
    assert!(e.lines.is_empty());
}

#[test]
fn loading_over_a_longer_text_keeps_its_tail() {
    let mut e = Editor::new(Layout::Dvorak);
    e.lines = vec![chars("1"), chars("2"), chars("3"), chars("4"), chars("5")];
    e.load_text(&chars("x\ny\n"));
    assert_eq!(text(&e), vec!["x", "y", "", "4"]);
}

#[test]
fn loading_over_a_shorter_text() {
    let mut e = Editor::new(Layout::Dvorak);
    e.load_text(&chars("x\ny\nz\n"));
    assert_eq!(text(&e), vec!["x", "y", "z"]);
}

#[test]
fn saving_puts_a_line_break_after_each_line() {
    let mut e = Editor::new(Layout::Dvorak);
    e.lines = vec![chars("a"), chars(""), chars("b")];
    assert_eq!(e.save_text().iter().collect::<String>(), "a\n\nb\n");
}

#[test]
fn which_texts_can_be_read() {
    assert!(can_load(&chars("")));
    assert!(can_load(&chars("ab\n")));
    assert!(can_load(&chars("ab")));
    assert!(can_load(&chars("aé\n")));
    assert!(!can_load(&chars("aé")));
}
