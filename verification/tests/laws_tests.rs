use try_rs::cli::extract_flag;
use try_rs::fuzzy::{find_subsequence_positions, is_word_boundary};
use try_rs::gituri::parse_git_uri;
use try_rs::input_field::InputField;
use try_rs::layout::{Line, Screen};
use try_rs::shell::{pwsh_quote, q};
use try_rs::text::dash_words;
use try_rs::tokens::expand_tokens_with;
use try_rs::width::{strip_ansi, truncate, truncate_from_start, visible_width};

#[test]
fn find_subsequence_positions_takes_earliest_places() {
    let q: Vec<char> = "ace".chars().collect();
    assert_eq!(find_subsequence_positions("abcde", &q), Some(vec![0, 2, 4]));
    let q2: Vec<char> = "ea".chars().collect();
    assert_eq!(find_subsequence_positions("abcde", &q2), None);
    assert_eq!(find_subsequence_positions("abc", &[]), Some(vec![]));
    let q3: Vec<char> = "bar".chars().collect();
    assert_eq!(find_subsequence_positions("foo-bar", &q3), Some(vec![4, 5, 6]));
}

#[test]
fn word_boundaries() {
    assert!(is_word_boundary("foo-bar", 0));
    assert!(is_word_boundary("foo-bar", 4));
    assert!(!is_word_boundary("foobar", 3));
    assert!(!is_word_boundary("ab", 5));
}

#[test]
fn quoting_survives_hostile_text() {
    let hostile = "a'b\"c$(d)`e`\\f g";
    assert_eq!(q(hostile), "'a'\"'\"'b\"c$(d)`e`\\f g'");
}

#[test]
fn backspace_undoes_typing() {
    let mut field = InputField::new();
    for c in "abc".chars() {
        field.insert_char(c);
    }
    field.move_left();
    field.insert_char('x');
    field.delete_char_before();
    assert_eq!(field.text(), "abc");
    assert_eq!(field.cursor_pos(), 2);
}

#[test]
fn clone_names_are_single_components() {
    for url in [
        "https://github.com/a/b.git",
        "git@github.com:a/b",
        "https://gitlab.com/a/b/c",
        "x@y:z/w.git",
    ] {
        let name = parse_git_uri(url).unwrap();
        assert!(!name.is_empty());
        assert!(!name.contains('/'));
    }
}

#[test]
fn rename_names_have_no_white_space() {
    assert_eq!(dash_words("  a  b\tc "), "a-b-c");
    assert_eq!(dash_words("   "), "");
}

#[test]
fn extracted_flags_are_gone() {
    let mut args: Vec<String> = vec!["-x".into(), "a".into(), "-x".into()];
    extract_flag(&mut args, "-x");
    assert!(!args.iter().any(|a| a == "-x"));
}

#[test]
fn names_without_braces_are_kept() {
    assert_eq!(
        expand_tokens_with("plain-name", "D", "T", 1, [1, 2, 3]),
        "plain-name"
    );
}

#[test]
fn truncation_from_either_end_fits_wide_text() {
    let wide = "\x1b[1m日本語のテキスト\x1b[0m";
    for max in 0..20usize {
        assert!(visible_width(&truncate(wide, max)) <= max);
        assert!(visible_width(&truncate_from_start(wide, max)) <= max);
    }
    assert_eq!(truncate_from_start("日本語", 4), "…語");
    assert_eq!(truncate_from_start("abc日本", 4), "…本");
}

#[test]
fn powershell_quoting_doubles_single_quotes() {
    assert_eq!(pwsh_quote("it's $HOME"), "'it''s $HOME'");
    assert_eq!(pwsh_quote("a'b'"), "'a''b'''");
    assert_eq!(pwsh_quote(""), "''");
}

#[test]
fn rendered_lines_fill_their_width() {
    for width in 1..30usize {
        for colors in [false, true] {
            let mut line = Line::new();
            line.left.emoji("📁");
            line.left.write_bold("name", "\x1b[38;5;214m");
            line.center.write_dim("centered text");
            line.right.write("2 days ago", "\x1b[2m");
            line.background = Some(52);
            let out = line.render(width, colors);
            assert_eq!(visible_width(&out), width);
            let mut filled = Line::new();
            filled.left.write("─", "");
            filled.left.fill('─');
            assert_eq!(visible_width(&filled.render(width, colors)), width);
        }
    }
}

#[test]
fn frames_fill_the_terminal() {
    let mut screen = Screen::new(24, 6, 2, 1);
    screen.test_no_cls = true;
    screen.header.add_line().left.write_bold("Try Selector", "\x1b[38;5;214m");
    let body = screen.body.add_line();
    body.left.write("a very long name that will not fit in the width", "");
    body.right.write("3 days ago", "\x1b[2m");
    screen.footer.add_line().center.write_dim("Enter: select");
    let frame = screen.frame(false);
    let rows: Vec<&str> = frame.trim_start_matches("\x1b[H\x1b[2J").split('\n').collect();
    assert_eq!(rows.len(), 6);
    for row in rows {
        assert_eq!(visible_width(row), 24);
    }
}

#[test]
fn escape_sequences_of_any_parameters_are_removed() {
    assert_eq!(strip_ansi("\x1b[1;31;?25mhello\x1b[mworld\x1b[0m"), "helloworld");
    assert_eq!(strip_ansi("plain text"), "plain text");
    assert_eq!(strip_ansi("\x1b[31mhello\x1b[0m"), "hello");
}

#[test]
fn clone_names_ignore_trailing_slashes_and_need_a_scheme_or_user() {
    for u in ["https://github.com/tobi/try", "git@github.com:tobi/try.git", "http://host/a/b"] {
        assert_eq!(parse_git_uri(&format!("{}/", u)), parse_git_uri(u));
    }
    assert_eq!(parse_git_uri("host.com:user/repo.git"), None);
    assert_eq!(parse_git_uri("ftp://host/user/repo.git"), None);
}

#[test]
fn existence_checks_ask_about_the_entry_path() {
    assert_eq!(try_rs::paths::entry_path("/tries", "2025-01-02-x"), "/tries/2025-01-02-x");
}
