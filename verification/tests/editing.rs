use dte::editor::Editor;
use dte::keys::{Key, Layout};
use dte::model::{Action, FileMode};

fn editor_with(lines: &[&str]) -> Editor {
    let mut e = Editor::new(Layout::Dvorak);
    e.lines = lines.iter().map(|l| l.chars().collect()).collect();
    e
}

fn text(e: &Editor) -> Vec<String> {
    e.lines.iter().map(|l| l.iter().collect()).collect()
}

fn press(e: &mut Editor, key: Key) -> Action {
    assert!(e.accepts(key), "key refused: {:?}", key);
    e.handle_key(key)
}

fn type_str(e: &mut Editor, s: &str) {
    for c in s.chars() {
        press(e, Key::Char(c));
    }
}

#[test]
fn starts_with_one_empty_line_in_move_mode() {
    let e = Editor::new(Layout::Dvorak);
    assert_eq!(text(&e), vec![String::new()]);
    assert_eq!(e.cursor_line, 0);
    assert_eq!(e.cursor_column, 0);
    assert!(e.running);
    assert!(e.show_line_nums);
    assert!(!e.insert_mode);
    assert_eq!(e.file_mode, FileMode::Edit);
}

#[test]
fn insert_mode_types_text() {
    let mut e = Editor::new(Layout::Dvorak);
    press(&mut e, Key::Char('i'));
    assert!(e.insert_mode);
    type_str(&mut e, "abc");
    assert_eq!(text(&e), vec!["abc".to_string()]);
    assert_eq!(e.cursor_column, 3);
    press(&mut e, Key::Esc);
    assert!(!e.insert_mode);
}

#[test]
fn typing_inserts_at_cursor() {
    let mut e = editor_with(&["ac"]);
    e.cursor_column = 1;
    press(&mut e, Key::Char('i'));
    press(&mut e, Key::Char('b'));
    assert_eq!(text(&e), vec!["abc".to_string()]);
    assert_eq!(e.cursor_column, 2);
}

#[test]
fn typing_past_the_end_appends() {
    let mut e = editor_with(&["ab"]);
    e.insert_mode = true;
    e.cursor_column = 7;
    press(&mut e, Key::Char('x'));
    assert_eq!(text(&e), vec!["abx".to_string()]);
    assert_eq!(e.cursor_column, 8);
}

#[test]
fn insert_key_pads_line_to_cursor_and_adds_lines() {
    let mut e = editor_with(&["ab"]);
    e.cursor_line = 2;
    e.cursor_column = 3;
    press(&mut e, Key::Char('i'));
    assert_eq!(text(&e), vec!["ab".to_string(), String::new(), "   ".to_string()]);
    assert!(e.insert_mode);
}

#[test]
fn insert_key_pads_by_bytes() {
    let mut e = editor_with(&["é"]);
    e.cursor_column = 3;
    press(&mut e, Key::Char('i'));
    assert_eq!(text(&e), vec!["é ".to_string()]);
}

#[test]
fn move_keys_dvorak() {
    let mut e = editor_with(&["abc"]);
    press(&mut e, Key::Char('t'));
    assert_eq!(e.cursor_column, 1);
    press(&mut e, Key::Char('h'));
    assert_eq!(e.cursor_column, 0);
    press(&mut e, Key::Char('e'));
    assert_eq!(e.cursor_line, 1);
    press(&mut e, Key::Char('u'));
    assert_eq!(e.cursor_line, 0);
    press(&mut e, Key::Char('E'));
    assert_eq!(e.cursor_line, 10);
    press(&mut e, Key::Char('U'));
    assert_eq!(e.cursor_line, 0);
    press(&mut e, Key::Char('T'));
    assert_eq!(e.cursor_column, 4);
    press(&mut e, Key::Char('\t'));
    assert_eq!(e.cursor_column, 8);
    press(&mut e, Key::Char('H'));
    assert_eq!(e.cursor_column, 4);
    press(&mut e, Key::Esc);
    assert_eq!(e.cursor_column, 0);
    assert_eq!(text(&e), vec!["abc".to_string()]);
}

#[test]
fn move_keys_qwerty() {
    let mut e = editor_with(&["abc", "d"]);
    e.layout = Layout::Qwerty;
    press(&mut e, Key::Char('k'));
    assert_eq!(e.cursor_column, 1);
    press(&mut e, Key::Char('j'));
    assert_eq!(e.cursor_column, 0);
    press(&mut e, Key::Char('d'));
    assert_eq!(e.cursor_line, 1);
    press(&mut e, Key::Char('f'));
    assert_eq!(e.cursor_line, 0);
    press(&mut e, Key::Char('D'));
    assert_eq!(e.cursor_line, 10);
    press(&mut e, Key::Char('F'));
    assert_eq!(e.cursor_line, 0);
    press(&mut e, Key::Char('K'));
    assert_eq!(e.cursor_column, 4);
    press(&mut e, Key::Char('J'));
    assert_eq!(e.cursor_column, 0);
    press(&mut e, Key::Char('h'));
    assert_eq!(text(&e), vec!["bc".to_string(), "d".to_string()]);
    press(&mut e, Key::Char('c'));
    assert_eq!(text(&e), vec![String::new(), "d".to_string()]);
    press(&mut e, Key::Char('p'));
    assert!(!e.show_line_nums);
    press(&mut e, Key::Char('g'));
    assert!(e.insert_mode);
    press(&mut e, Key::Ctrl('k'));
    assert_eq!(text(&e), vec!["    ".to_string(), "d".to_string()]);
}

#[test]
fn qwerty_prompt_keys() {
    let mut e = Editor::new(Layout::Qwerty);
    assert_eq!(press(&mut e, Key::Char('y')), Action::FillOpenPrompt);
    press(&mut e, Key::Esc);
    assert_eq!(press(&mut e, Key::Char('m')), Action::FillSavePrompt);
    press(&mut e, Key::Esc);
    press(&mut e, Key::Char('q'));
    assert!(!e.running);
}

#[test]
fn quit_and_toggle_line_numbers() {
    let mut e = Editor::new(Layout::Dvorak);
    press(&mut e, Key::Char('l'));
    assert!(!e.show_line_nums);
    press(&mut e, Key::Char('l'));
    assert!(e.show_line_nums);
    press(&mut e, Key::Char('q'));
    assert!(!e.running);
}

#[test]
fn enter_splits_line_with_indentation() {
    let mut e = editor_with(&["    foo"]);
    e.cursor_column = 7;
    e.finish_frame(24);
    assert_eq!(e.current_indentation, 4);
    press(&mut e, Key::Char('i'));
    press(&mut e, Key::Char('\n'));
    assert_eq!(text(&e), vec!["    foo".to_string(), "    ".to_string()]);
    assert_eq!(e.cursor_line, 1);
    assert_eq!(e.cursor_column, 4);
}

#[test]
fn enter_in_the_middle_moves_the_rest_down() {
    let mut e = editor_with(&["abcd"]);
    e.insert_mode = true;
    e.cursor_column = 2;
    press(&mut e, Key::Char('\n'));
    assert_eq!(text(&e), vec!["ab".to_string(), "cd".to_string()]);
    assert_eq!((e.cursor_line, e.cursor_column), (1, 0));
}

#[test]
fn tab_writes_spaces_to_the_next_tab_stop() {
    let mut e = editor_with(&["a"]);
    e.insert_mode = true;
    e.cursor_column = 1;
    press(&mut e, Key::Char('\t'));
    assert_eq!(text(&e), vec!["a   ".to_string()]);
    assert_eq!(e.cursor_column, 4);
    press(&mut e, Key::Char('\t'));
    assert_eq!(e.cursor_column, 8);
    assert_eq!(text(&e), vec!["a       ".to_string()]);
}

#[test]
fn ctrl_t_writes_four_spaces() {
    let mut e = editor_with(&["ab"]);
    e.insert_mode = true;
    e.cursor_column = 1;
    press(&mut e, Key::Ctrl('t'));
    assert_eq!(text(&e), vec!["a    b".to_string()]);
    assert_eq!(e.cursor_column, 5);
}

#[test]
fn other_ctrl_keys_do_nothing_in_insert_mode() {
    let mut e = editor_with(&["ab"]);
    e.insert_mode = true;
    press(&mut e, Key::Ctrl('x'));
    press(&mut e, Key::Other);
    assert_eq!(text(&e), vec!["ab".to_string()]);
}

#[test]
fn closing_brace_takes_back_an_indent() {
    let mut e = editor_with(&["        "]);
    e.insert_mode = true;
    e.cursor_column = 8;
    press(&mut e, Key::Char('}'));
    assert_eq!(text(&e), vec!["    }".to_string()]);
    assert_eq!(e.cursor_column, 5);
}

#[test]
fn closing_brace_without_indent_is_typed() {
    let mut e = editor_with(&["x"]);
    e.insert_mode = true;
    e.cursor_column = 1;
    press(&mut e, Key::Char('}'));
    assert_eq!(text(&e), vec!["x}".to_string()]);
    assert_eq!(e.cursor_column, 2);
}

#[test]
fn closing_brace_inside_a_character_is_refused() {
    let mut e = editor_with(&["é    "]);
    e.insert_mode = true;
    e.cursor_column = 5;
    assert!(!e.accepts(Key::Char('}')));
    let mut f = editor_with(&["é"]);
    f.insert_mode = true;
    f.cursor_column = 1;
    assert!(!f.accepts(Key::Char('}')));
}

#[test]
fn insert_backspace_removes_and_joins() {
    let mut e = editor_with(&["ab", "cd"]);
    e.insert_mode = true;
    e.cursor_line = 1;
    e.cursor_column = 1;
    press(&mut e, Key::Backspace);
    assert_eq!(text(&e), vec!["ab".to_string(), "d".to_string()]);
    press(&mut e, Key::Backspace);
    assert_eq!(text(&e), vec!["abd".to_string()]);
    assert_eq!((e.cursor_line, e.cursor_column), (0, 2));
    e.cursor_column = 0;
    e.cursor_line = 0;
    press(&mut e, Key::Backspace);
    assert_eq!(text(&e), vec!["abd".to_string()]);
}

#[test]
fn insert_backspace_joining_counts_characters() {
    let mut e = editor_with(&["éé", "x"]);
    e.insert_mode = true;
    e.cursor_line = 1;
    press(&mut e, Key::Backspace);
    assert_eq!(text(&e), vec!["ééx".to_string()]);
    assert_eq!(e.cursor_column, 2);
}

#[test]
fn move_backspace_joining_counts_bytes() {
    let mut e = editor_with(&["éé", "x"]);
    e.cursor_line = 1;
    press(&mut e, Key::Backspace);
    assert_eq!(text(&e), vec!["ééx".to_string()]);
    assert_eq!(e.cursor_column, 4);
}

#[test]
fn move_backspace_removes_char_before_cursor() {
    let mut e = editor_with(&["abc"]);
    e.cursor_column = 2;
    press(&mut e, Key::Backspace);
    assert_eq!(text(&e), vec!["ac".to_string()]);
    assert_eq!(e.cursor_column, 1);
}

#[test]
fn move_backspace_below_the_text_moves_up() {
    let mut e = editor_with(&["abc"]);
    e.cursor_line = 5;
    press(&mut e, Key::Backspace);
    assert_eq!(e.cursor_line, 4);
    assert_eq!(text(&e), vec!["abc".to_string()]);
}

#[test]
fn move_backspace_just_below_the_text_moves_up_to_its_end() {
    let mut e = editor_with(&["abc"]);
    e.cursor_line = 1;
    press(&mut e, Key::Backspace);
    assert_eq!((e.cursor_line, e.cursor_column), (0, 3));
    assert_eq!(text(&e), vec!["abc".to_string()]);
}

#[test]
fn delete_removes_char_under_cursor() {
    let mut e = editor_with(&["abc"]);
    e.cursor_column = 1;
    press(&mut e, Key::Char('d'));
    assert_eq!(text(&e), vec!["ac".to_string()]);
}

#[test]
fn delete_past_the_end_joins_next_line() {
    let mut e = editor_with(&["ab", "cd"]);
    e.cursor_column = 2;
    press(&mut e, Key::Char('d'));
    assert_eq!(text(&e), vec!["abcd".to_string()]);
}

#[test]
fn delete_far_past_the_end_is_refused() {
    let mut e = editor_with(&["ab", "cd"]);
    e.cursor_column = 5;
    assert!(!e.accepts(Key::Char('d')));
}

#[test]
fn delete_above_the_text_is_refused() {
    let mut e = editor_with(&["ab", "cd"]);
    e.cursor_line = -1;
    assert!(!e.accepts(Key::Char('d')));
    e.cursor_line = -2;
    assert!(e.accepts(Key::Char('d')));
    e.handle_key(Key::Char('d'));
    assert_eq!(text(&e), vec!["ab".to_string(), "cd".to_string()]);
}

#[test]
fn kill_cuts_the_rest_of_the_line() {
    let mut e = editor_with(&["hello", "x"]);
    e.cursor_column = 2;
    press(&mut e, Key::Char('k'));
    assert_eq!(text(&e), vec!["he".to_string(), "x".to_string()]);
}

#[test]
fn kill_at_the_end_joins_next_line_at_cursor() {
    let mut e = editor_with(&["ab", "cd"]);
    e.cursor_column = 4;
    press(&mut e, Key::Char('k'));
    assert_eq!(text(&e), vec!["ab  cd".to_string()]);
}

#[test]
fn kill_inside_a_character_is_refused() {
    let mut e = editor_with(&["éa"]);
    e.cursor_column = 1;
    assert!(!e.accepts(Key::Char('k')));
}

#[test]
fn line_end_and_indentation_keys() {
    let mut e = editor_with(&["  abc"]);
    e.finish_frame(24);
    press(&mut e, Key::Char('o'));
    assert_eq!(e.cursor_column, 5);
    press(&mut e, Key::Char('a'));
    assert_eq!(e.cursor_column, 2);
    e.cursor_line = 3;
    press(&mut e, Key::Char('o'));
    assert_eq!(e.cursor_column, 2);
}

#[test]
fn moving_out_of_range_is_refused() {
    let mut e = Editor::new(Layout::Dvorak);
    e.cursor_column = isize::MAX;
    assert!(!e.accepts(Key::Char('t')));
    e.cursor_line = isize::MIN;
    assert!(!e.accepts(Key::Char('u')));
}

#[test]
fn open_prompt_flow() {
    let mut e = editor_with(&["abc"]);
    assert_eq!(press(&mut e, Key::Char('f')), Action::FillOpenPrompt);
    assert_eq!(e.file_mode, FileMode::Open);
    assert!(e.bottom_bar.is_empty());
    e.fill_open_prompt("/tmp".chars().collect());
    assert_eq!(e.bottom_bar.iter().collect::<String>(), "/tmp/");
    type_str(&mut e, "ab");
    press(&mut e, Key::Backspace);
    assert_eq!(e.bottom_bar.iter().collect::<String>(), "/tmp/a");
    assert_eq!(press(&mut e, Key::Char('\n')), Action::SubmitOpen);
    e.confirm_open(true, false);
    assert_eq!(e.file_mode, FileMode::Edit);
    assert_eq!(text(&e), vec![String::new()]);
    assert_eq!((e.cursor_line, e.cursor_column), (0, 0));
}

#[test]
fn open_existing_file_keeps_the_text_until_it_loads() {
    let mut e = editor_with(&["abc", "d"]);
    e.cursor_line = 1;
    press(&mut e, Key::Char('f'));
    e.confirm_open(true, true);
    assert_eq!(text(&e), vec!["abc".to_string(), "d".to_string()]);
    assert_eq!(e.cursor_line, 0);
}

#[test]
fn save_prompt_flow() {
    let mut e = editor_with(&["abc"]);
    assert_eq!(press(&mut e, Key::Char('w')), Action::FillSavePrompt);
    assert_eq!(e.file_mode, FileMode::SaveAsPrompt);
    e.fill_save_prompt("/tmp/x".chars().collect());
    assert_eq!(press(&mut e, Key::Char('\n')), Action::SubmitSave);
    e.finish_save();
    assert_eq!(e.file_mode, FileMode::Edit);
    assert_eq!(e.bottom_bar.iter().collect::<String>(), "/tmp/x");
}

#[test]
fn escape_cancels_the_prompt() {
    let mut e = editor_with(&["abc"]);
    press(&mut e, Key::Char('w'));
    type_str(&mut e, "zz");
    press(&mut e, Key::Esc);
    assert_eq!(e.file_mode, FileMode::Edit);
    assert_eq!(text(&e), vec!["abc".to_string()]);
}
