use dte::editor::count_digits;
use dte::keys::{Command, Key, Layout, decode_command, four_spaces_key};
use dte::text::{byte_len_of, fits_in_string, char_index_at_byte, char_width_of, count_leading_spaces};
use dte::terminal::decimal_of;
use dte::wrap::{line_wrap_count, wraps_for_len};

#[test]
fn wrap_count_examples() {
    assert_eq!(line_wrap_count("abc", 3), 0);
    assert_eq!(line_wrap_count("abcd", 3), 1);
    assert_eq!(line_wrap_count("abcdef", 3), 1);
    assert_eq!(line_wrap_count("abcdefg", 3), 2);
    assert_eq!(line_wrap_count("", 0), 0);
    assert_eq!(line_wrap_count("", 5), 0);
    assert_eq!(line_wrap_count("éé", 2), 1);
    assert_eq!(wraps_for_len(100, 7), 14);
    assert_eq!(wraps_for_len(1, 1), 0);
}

#[test]
fn utf8_widths() {
    assert_eq!(char_width_of('a'), 1);
    assert_eq!(char_width_of('é'), 2);
    assert_eq!(char_width_of('€'), 3);
    assert_eq!(char_width_of('𝄞'), 4);
    let line: Vec<char> = "aé€𝄞".chars().collect();
    assert_eq!(byte_len_of(&line), 10);
    assert_eq!(byte_len_of(&line), "aé€𝄞".len());
}

#[test]
fn byte_positions_to_character_indices() {
    let line: Vec<char> = "aé€".chars().collect();
    assert_eq!(char_index_at_byte(&line, 0), Some(0));
    assert_eq!(char_index_at_byte(&line, 1), Some(1));
    assert_eq!(char_index_at_byte(&line, 2), None);
    assert_eq!(char_index_at_byte(&line, 3), Some(2));
    assert_eq!(char_index_at_byte(&line, 5), None);
    assert_eq!(char_index_at_byte(&line, 6), Some(3));
    assert_eq!(char_index_at_byte(&line, 7), None);
}

#[test]
fn leading_spaces_counted() {
    let line: Vec<char> = "   a b".chars().collect();
    assert_eq!(count_leading_spaces(&line), 3);
    assert_eq!(count_leading_spaces(&Vec::new()), 0);
}

#[test]
fn digits_and_decimal() {
    assert_eq!(count_digits(0), 1);
    assert_eq!(count_digits(9), 1);
    assert_eq!(count_digits(10), 2);
    assert_eq!(count_digits(12345), 5);
    assert_eq!(decimal_of(0).iter().collect::<String>(), "0");
    assert_eq!(decimal_of(907).iter().collect::<String>(), "907");
}

#[test]
fn layouts_decode_keys() {
    assert_eq!(decode_command(Layout::Dvorak, Key::Char('e')), Command::Down);
    assert_eq!(decode_command(Layout::Qwerty, Key::Char('e')), Command::Ignore);
    assert_eq!(decode_command(Layout::Qwerty, Key::Char('d')), Command::Down);
    assert_eq!(decode_command(Layout::Dvorak, Key::Char('d')), Command::Delete);
    assert_eq!(decode_command(Layout::Dvorak, Key::Esc), Command::LineStart);
    assert_eq!(decode_command(Layout::Qwerty, Key::Backspace), Command::Backspace);
    assert_eq!(decode_command(Layout::Dvorak, Key::Ctrl('t')), Command::Ignore);
    assert_eq!(four_spaces_key(Layout::Dvorak), 't');
    assert_eq!(four_spaces_key(Layout::Qwerty), 'k');
}

#[test]
fn ordinary_text_fits_in_a_string() {
    assert!(fits_in_string(&"hello é".chars().collect()));
    assert!(fits_in_string(&Vec::new()));
}
