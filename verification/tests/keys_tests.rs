use try_rs::keys::{parse_test_keys, KeyInput};

#[test]
fn input_parse_test_keys_enter_keyword() {
    assert_eq!(parse_test_keys("ENTER"), vec![KeyInput::Enter]);
}

#[test]
fn input_parse_test_keys_multiple_tokens() {
    assert_eq!(
        parse_test_keys("UP,UP,DOWN,ENTER"),
        vec![KeyInput::Up, KeyInput::Up, KeyInput::Down, KeyInput::Enter]
    );
}

#[test]
fn input_parse_test_keys_type_expansion() {
    assert_eq!(
        parse_test_keys("CTRL-D,TYPE=YES,ENTER"),
        vec![
            KeyInput::CtrlD,
            KeyInput::Char('Y'),
            KeyInput::Char('E'),
            KeyInput::Char('S'),
            KeyInput::Enter,
        ]
    );
}

#[test]
fn input_parse_test_keys_drops_multi_char_non_keyword() {
    assert_eq!(parse_test_keys("test,ESC"), vec![KeyInput::Escape]);
}

#[test]
fn input_parse_test_keys_keeps_single_char_non_keyword() {
    assert_eq!(
        parse_test_keys("d,ESC"),
        vec![KeyInput::Char('d'), KeyInput::Escape]
    );
}

#[test]
fn input_parse_test_keys_ctrl_j_extension() {
    assert_eq!(
        parse_test_keys("CTRL-J,ENTER"),
        vec![KeyInput::CtrlJ, KeyInput::Enter]
    );
}

#[test]
fn input_parse_test_keys_raw_mode_chars() {
    assert_eq!(
        parse_test_keys("hello"),
        vec![
            KeyInput::Char('h'),
            KeyInput::Char('e'),
            KeyInput::Char('l'),
            KeyInput::Char('l'),
            KeyInput::Char('o')
        ]
    );
}

#[test]
fn input_parse_test_keys_raw_escape_arrow_sequence() {
    assert_eq!(parse_test_keys("\u{1b}[A"), vec![KeyInput::Up]);
}

#[test]
fn parse_test_keys_empty_input_gives_no_keys() {
    assert_eq!(parse_test_keys(""), Vec::<KeyInput>::new());
}

#[test]
fn parse_test_keys_lowercase_keywords() {
    assert_eq!(
        parse_test_keys("ctrl-p,esc"),
        vec![KeyInput::CtrlP, KeyInput::Escape]
    );
}

#[test]
fn parse_test_keys_raw_control_bytes() {
    assert_eq!(
        parse_test_keys("a\u{4}\r"),
        vec![KeyInput::Char('a'), KeyInput::CtrlD, KeyInput::Enter]
    );
}

#[test]
fn test_keys_parseable_spots_names_cut_inside_a_character() {
    assert!(try_rs::keys::test_keys_parseable(""));
    assert!(try_rs::keys::test_keys_parseable("UP,TYPE=héllo,ENTER"));
    assert!(try_rs::keys::test_keys_parseable("abcdé"));
    assert!(try_rs::keys::test_keys_parseable("abcdé,UP") == false);
    assert!(try_rs::keys::test_keys_parseable("UP, abcé,ENTER"));
    assert!(!try_rs::keys::test_keys_parseable("UP,  abcd€x"));
}
