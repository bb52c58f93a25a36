use std::io::Write;
use try_rs::ansi;
use try_rs::input_field::InputField;
use try_rs::layout::{Line, Screen, SegmentWriter};
use try_rs::palette;
use try_rs::terminal::Terminal;
use try_rs::width::{strip_ansi, truncate, truncate_from_start, visible_width};

const COLORS: bool = true;

struct CountingWriter {
    data: Vec<u8>,
    writes: usize,
}

impl CountingWriter {
    fn new() -> Self {
        CountingWriter { data: Vec::new(), writes: 0 }
    }

    fn output(&self) -> String {
        String::from_utf8(self.data.clone()).expect("utf8")
    }
}

impl Write for CountingWriter {
    fn write(&mut self, buf: &[u8]) -> std::io::Result<usize> {
        self.writes += 1;
        self.data.extend_from_slice(buf);
        Ok(buf.len())
    }

    fn flush(&mut self) -> std::io::Result<()> {
        Ok(())
    }
}

fn flush_screen(screen: &Screen, writer: &mut CountingWriter) -> std::io::Result<()> {
    assert!(screen.check_fits());
    let frame = screen.frame(COLORS);
    writer.write_all(frame.as_bytes())?;
    writer.flush()
}

#[test]
fn tui_line_left_align_works() {
    let mut line = Line::new();
    line.left.write("abc", "");
    let rendered = line.render(10, COLORS);
    assert_eq!(visible_width(&rendered), 10);
    assert!(strip_ansi(&rendered).starts_with("abc"));
}

#[test]
fn tui_line_right_align_works() {
    let mut line = Line::new();
    line.right.write("abc", "");
    let rendered = line.render(10, COLORS);
    assert_eq!(strip_ansi(&rendered), "       abc");
}

#[test]
fn tui_line_center_align_works() {
    let mut line = Line::new();
    line.center.write("ab", "");
    let rendered = line.render(10, COLORS);
    assert_eq!(strip_ansi(&rendered), "    ab    ");
}

#[test]
fn tui_line_background_fills_full_width() {
    let mut line = Line::new();
    line.left.write("x", "");
    line.background = Some(52);
    let rendered = line.render(8, COLORS);
    assert_eq!(visible_width(&rendered), 8);
    if COLORS {
        assert!(rendered.starts_with("\x1b[48;5;52m"));
        assert!(rendered.ends_with(ansi::RESET));
    }
}

#[test]
fn tui_line_without_colors_has_no_escapes() {
    let mut line = Line::new();
    line.left.write("x", &palette::accent(false));
    line.background = Some(52);
    let rendered = line.render(4, false);
    assert_eq!(rendered, "x   ");
}

#[test]
fn tui_screen_renders_frame_with_three_sections() {
    let mut screen = Screen::new(12, 4, 1, 1);
    screen.test_no_cls = true;
    screen.header.add_line().left.write("header", "");
    screen.body.add_line().left.write("body", "");
    screen.footer.add_line().left.write("footer", "");

    let mut writer = CountingWriter::new();
    flush_screen(&screen, &mut writer).expect("screen flush succeeds");
    let output = writer.output();
    let plain = strip_ansi(&output);

    assert!(output.starts_with("\x1b[H\x1b[2J"));
    assert!(plain.contains("header"));
    assert!(plain.contains("body"));
    assert!(plain.contains("footer"));
}

#[test]
fn tui_screen_flush_uses_single_write_call() {
    let mut screen = Screen::new(10, 3, 1, 1);
    screen.test_no_cls = true;
    screen.header.add_line().left.write("h", "");

    let mut writer = CountingWriter::new();
    flush_screen(&screen, &mut writer).expect("screen flush succeeds");
    assert_eq!(writer.writes, 1);
}

#[test]
fn tui_screen_frame_enters_alternate_screen() {
    let screen = Screen::new(5, 2, 1, 1);
    let frame = screen.frame(COLORS);
    assert!(frame.starts_with("\x1b[?1049h\x1b[?25l\x1b[H\x1b[2J"));
    assert!(frame.ends_with("\x1b[?25h"));
    assert_eq!(strip_ansi(&frame), "     \n     ");
}

#[test]
fn tui_screen_clear_resets_sections() {
    let mut screen = Screen::new(10, 5, 1, 1);
    screen.header.add_line();
    screen.body.add_line();
    screen.footer.add_line();
    screen.clear();
    assert!(screen.header.lines.is_empty());
    assert!(screen.body.lines.is_empty());
    assert!(screen.footer.lines.is_empty());
}

#[test]
fn visible_width_ascii() {
    assert_eq!(visible_width("hello"), 5);
}

#[test]
fn visible_width_strips_ansi() {
    assert_eq!(visible_width("\x1b[31mhello\x1b[0m"), 5);
}

#[test]
fn visible_width_counts_emoji_as_wide() {
    assert_eq!(visible_width("👋"), 2);
}

#[test]
fn strip_ansi_removes_escape_sequences() {
    assert_eq!(strip_ansi("\x1b[31mhello\x1b[0m"), "hello");
}

#[test]
fn truncate_adds_ellipsis_and_respects_width() {
    let out = truncate("hello world", 5);
    assert!(out.ends_with('…'));
    assert!(visible_width(&out) <= 5);
}

#[test]
fn truncate_preserves_ansi_sequences() {
    let input = "\x1b[31mhello world\x1b[0m";
    let out = truncate(input, 7);
    assert!(out.contains("\x1b[31m"));
    assert!(out.contains("\x1b[0m"));
    assert_eq!(visible_width(&out), 7);
}

#[test]
fn truncate_exact_width_keeps_original() {
    let input = "hello";
    assert_eq!(truncate(input, 5), input);
}

#[test]
fn truncate_to_zero_is_empty_text() {
    assert_eq!(strip_ansi(&truncate("hello", 0)), "");
    assert_eq!(truncate("hello world", 5), "hell…");
}

#[test]
fn truncate_from_start_adds_ellipsis_and_respects_width() {
    let out = truncate_from_start("hello world", 6);
    assert!(strip_ansi(&out).starts_with('…'));
    assert!(visible_width(&out) <= 6);
}

#[test]
fn truncate_from_start_preserves_leading_ansi() {
    let input = "\x1b[2mabcdef\x1b[0m";
    let out = truncate_from_start(input, 4);
    assert!(out.starts_with("\x1b[2m"));
    assert!(strip_ansi(&out).starts_with('…'));
    assert_eq!(visible_width(&out), 4);
}

#[test]
fn constants_defined() {
    assert_eq!(ansi::ALT_SCREEN_ON, "\x1b[?1049h");
    assert_eq!(ansi::ALT_SCREEN_OFF, "\x1b[?1049l");
    assert_eq!(ansi::CURSOR_HIDE, "\x1b[?25l");
    assert_eq!(ansi::CURSOR_SHOW, "\x1b[?25h");
    assert_eq!(ansi::CLEAR_SCREEN, "\x1b[2J");
    assert_eq!(ansi::RESET, "\x1b[0m");
    assert_eq!(ansi::BOLD, "\x1b[1m");
}

#[test]
fn palette_styles_follow_colors() {
    assert_eq!(palette::accent(true), "\x1b[1;38;5;214m");
    assert_eq!(palette::accent(false), "");
    assert_eq!(palette::match_color(true), "\x1b[1;38;5;226m");
    assert_eq!(palette::danger_bg(true), "\x1b[48;5;52m");
    assert_eq!(ansi::fg(245, true), "\x1b[38;5;245m");
    assert_eq!(ansi::sgr(&["1", "33"], true), "\x1b[1;33m");
    assert_eq!(ansi::sgr(&["1"], false), "");
    assert_eq!(ansi::move_col(5), "\x1b[5G");
    assert!(ansi::colors_enabled("", ""));
    assert!(!ansi::colors_enabled("1", ""));
}

#[test]
fn segment_writer_render_stops_at_width() {
    let mut writer = SegmentWriter::new();
    writer.write("abc", "");
    writer.write("defgh", "");
    let (text, cols) = writer.render(5, false);
    assert_eq!(text, "abcd…");
    assert_eq!(cols, 5);
}

#[test]
fn input_field_new_is_empty() {
    let field = InputField::new();
    assert_eq!(field.text(), "");
    assert_eq!(field.cursor_pos(), 0);
}

#[test]
fn input_field_insert_char_advances_cursor() {
    let mut field = InputField::new();
    field.insert_char('a');
    assert_eq!(field.text(), "a");
    assert_eq!(field.cursor_pos(), 1);

    field.insert_char('b');
    assert_eq!(field.text(), "ab");
    assert_eq!(field.cursor_pos(), 2);
}

#[test]
fn input_field_insert_multibyte_char() {
    let mut field = InputField::new();
    field.insert_char('ö');
    assert_eq!(field.text(), "ö");
    assert_eq!(field.cursor_pos(), 2);
}

#[test]
fn input_field_delete_char_before_removes_last_char() {
    let mut field = InputField::new();
    field.insert_char('a');
    field.insert_char('b');
    field.delete_char_before();
    assert_eq!(field.text(), "a");
    assert_eq!(field.cursor_pos(), 1);
}

#[test]
fn input_field_delete_char_before_at_start_is_noop() {
    let mut field = InputField::new();
    field.delete_char_before();
    assert_eq!(field.text(), "");
    assert_eq!(field.cursor_pos(), 0);
}

#[test]
fn input_field_delete_char_at_removes_char_at_cursor() {
    let mut field = InputField::new();
    field.insert_char('a');
    field.insert_char('b');
    field.insert_char('c');
    field.move_to_start();
    field.delete_char_at();
    assert_eq!(field.text(), "bc");
    assert_eq!(field.cursor_pos(), 0);
}

#[test]
fn input_field_delete_char_at_end_is_noop() {
    let mut field = InputField::new();
    field.insert_char('a');
    field.delete_char_at();
    assert_eq!(field.text(), "a");
    assert_eq!(field.cursor_pos(), 1);
}

#[test]
fn input_field_move_left_moves_cursor_back() {
    let mut field = InputField::new();
    field.insert_char('a');
    field.insert_char('b');
    field.move_left();
    assert_eq!(field.cursor_pos(), 1);
    field.move_left();
    assert_eq!(field.cursor_pos(), 0);
}

#[test]
fn input_field_move_left_at_start_is_noop() {
    let mut field = InputField::new();
    field.move_left();
    assert_eq!(field.cursor_pos(), 0);
}

#[test]
fn input_field_move_right_moves_cursor_forward() {
    let mut field = InputField::new();
    field.insert_char('a');
    field.insert_char('b');
    field.move_to_start();
    field.move_right();
    assert_eq!(field.cursor_pos(), 1);
    field.move_right();
    assert_eq!(field.cursor_pos(), 2);
}

#[test]
fn input_field_move_right_at_end_is_noop() {
    let mut field = InputField::new();
    field.insert_char('a');
    field.move_right();
    assert_eq!(field.cursor_pos(), 1);
}

#[test]
fn input_field_move_to_start() {
    let mut field = InputField::new();
    field.insert_char('a');
    field.insert_char('b');
    field.move_to_start();
    assert_eq!(field.cursor_pos(), 0);
}

#[test]
fn input_field_move_to_end() {
    let mut field = InputField::new();
    field.insert_char('a');
    field.insert_char('b');
    field.move_to_start();
    field.move_to_end();
    assert_eq!(field.cursor_pos(), 2);
}

#[test]
fn input_field_kill_to_end_truncates() {
    let mut field = InputField::new();
    field.insert_char('a');
    field.insert_char('b');
    field.insert_char('c');
    field.move_to_start();
    field.move_right();
    field.kill_to_end();
    assert_eq!(field.text(), "a");
    assert_eq!(field.cursor_pos(), 1);
}

#[test]
fn input_field_kill_word_backward_skips_non_alnum_then_alnum() {
    let mut field = InputField::new();
    for ch in "hello  world".chars() {
        field.insert_char(ch);
    }
    field.kill_word_backward();
    assert_eq!(field.text(), "hello  ");

    field.kill_word_backward();
    assert_eq!(field.text(), "");
}

#[test]
fn input_field_kill_word_backward_with_punctuation() {
    let mut field = InputField::new();
    for ch in "test-file.txt".chars() {
        field.insert_char(ch);
    }
    field.kill_word_backward();
    assert_eq!(field.text(), "test-file.");

    field.kill_word_backward();
    assert_eq!(field.text(), "test-");

    field.kill_word_backward();
    assert_eq!(field.text(), "");
}

#[test]
fn input_field_kill_word_backward_at_start_is_noop() {
    let mut field = InputField::new();
    field.insert_char('a');
    field.move_to_start();
    field.kill_word_backward();
    assert_eq!(field.text(), "a");
    assert_eq!(field.cursor_pos(), 0);
}

#[test]
fn input_field_clear_empties_buffer() {
    let mut field = InputField::new();
    field.insert_char('a');
    field.clear();
    assert_eq!(field.text(), "");
    assert_eq!(field.cursor_pos(), 0);
}

#[test]
fn input_field_default_is_empty() {
    let field = InputField::default();
    assert_eq!(field.text(), "");
    let filled = InputField::prefilled("héllo");
    assert_eq!(filled.text(), "héllo");
    assert_eq!(filled.cursor_pos(), 6);
}

#[test]
fn input_field_render_empty_shows_placeholder() {
    let field = InputField::new();
    let mut writer = SegmentWriter::new();
    field.render(&mut writer, "search...", 50, COLORS);

    let (rendered, _) = writer.render(50, COLORS);
    let stripped = strip_ansi(&rendered);
    assert!(stripped.contains("search..."));
}

#[test]
fn input_field_render_with_text_shows_cursor() {
    let mut field = InputField::new();
    field.insert_char('a');
    field.insert_char('b');
    field.insert_char('c');
    field.move_to_start();
    field.move_right();

    let mut writer = SegmentWriter::new();
    field.render(&mut writer, "search...", 50, COLORS);

    let (rendered, _) = writer.render(50, COLORS);
    if COLORS {
        assert!(rendered.contains("\x1b[7m"));
        assert!(rendered.contains("\x1b[27m"));
    }
    assert!(rendered.contains('a'));
    assert!(rendered.contains('b'));
    assert!(rendered.contains('c'));
}

#[test]
fn input_field_render_cursor_at_end_shows_reverse_space() {
    let mut field = InputField::new();
    field.insert_char('a');

    let mut writer = SegmentWriter::new();
    field.render(&mut writer, "search...", 50, COLORS);

    let (rendered, _) = writer.render(50, COLORS);
    let stripped = strip_ansi(&rendered);
    assert!(stripped.contains('a'));
    if COLORS {
        assert!(rendered.contains("\x1b[7m "));
    }
}

#[test]
fn terminal_size_prefers_environment() {
    assert_eq!(Terminal::size_from(Some("100"), Some("40"), Some((80, 24))), (100, 40));
    assert_eq!(Terminal::size_from(Some("100"), None, Some((80, 24))), (100, 24));
    assert_eq!(Terminal::size_from(Some("0"), Some("x"), Some((90, 30))), (90, 30));
    assert_eq!(Terminal::size_from(None, Some("70000"), None), (80, 24));
    assert_eq!(Terminal::size_from(Some("+50"), None, None), (50, 24));
}

#[test]
fn terminal_size_fallback() {
    let term = crossterm::terminal::size().ok();
    let (w, h) = Terminal::size_from(None, None, term);
    assert!(w > 0);
    assert!(h > 0);
}
