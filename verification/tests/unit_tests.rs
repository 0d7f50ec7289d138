use copperline::Config;
use copperline::buffer::Buffer;
use copperline::buffer::Position;
use copperline::buffer::char_len_utf8;
use copperline::buffer::is_vi_keyword;
use copperline::builder::Builder;
use copperline::edit::EditMode;
use copperline::error::Error;
use copperline::history::Cursor;
use copperline::history::History;
use copperline::parser::Encoding;

#[test]
fn round_trip_navigation_scenario() {
    // As many steps right as the line has cells, then as many steps
    // left, is a no-op.
    let mut buf = Buffer::new();
    buf.insert_chars_at_cursor("abc");
    buf.move_start();
    for _ in 0..3 {
        buf.move_right();
    }
    assert_eq!(buf.char_pos(), 3);
    for _ in 0..3 {
        buf.move_left();
    }
    assert_eq!(buf.char_pos(), 0);
    assert_eq!(buf.as_str(), "abc");
}

#[test]
fn insert_is_motion_neutral_scenario() {
    let mut buf = Buffer::new();
    buf.insert_chars_at_cursor("ad");
    buf.move_left();
    buf.insert_char_at_cursor('b');
    buf.move_left();
    buf.move_right();
    assert_eq!(buf.as_str(), "abd");
    assert_eq!(buf.char_pos(), 2);
}

#[test]
fn delete_region_commutes_scenario() {
    // Deleting after a rightward motion and after the mirror leftward
    // motion removes the same span.
    let mut fwd = Buffer::new();
    fwd.insert_chars_at_cursor("abcdef");
    fwd.move_start();
    fwd.move_right();
    let dc = fwd.start_delete();
    fwd.move_right();
    fwd.move_right();
    dc.delete(&mut fwd);

    let mut back = Buffer::new();
    back.insert_chars_at_cursor("abcdef");
    back.move_start();
    back.move_right();
    back.move_right();
    back.move_right();
    let dc = back.start_delete();
    back.move_left();
    back.move_left();
    dc.delete(&mut back);

    assert_eq!(fwd.char_pos(), 1);
    assert_eq!(back.char_pos(), 1);
    assert_eq!(fwd.to_string(), "adef");
    assert_eq!(back.to_string(), "adef");
}

#[test]
fn combining_characters_form_one_cell() {
    // An accented letter written as base plus combining accent is one
    // grapheme: one cursor step spans it.
    let mut buf = Buffer::new();
    buf.insert_chars_at_cursor("e\u{301}x");
    assert_eq!(buf.char_pos(), 2);
    buf.move_start();
    buf.move_right();
    buf.delete_char_right_of_cursor();
    assert_eq!(buf.as_str(), "e\u{301}");
}

#[test]
fn render_counts_display_columns() {
    let mut buf = Buffer::new();
    buf.insert_chars_at_cursor("ab");
    let line = buf.get_line("p", false);
    // Carriage return, prompt, text, erase right, cursor to column 3.
    let expected = b"\rpab\x1b[0K\r\x1b[3C".to_vec();
    assert_eq!(line, expected);
}

#[test]
fn render_counts_wide_characters_twice() {
    let mut buf = Buffer::new();
    buf.insert_char_at_cursor('乫');
    let line = buf.get_line("", false);
    let mut expected = b"\r".to_vec();
    expected.extend("乫".as_bytes());
    expected.extend(b"\x1b[0K\r\x1b[2C");
    assert_eq!(line, expected);
}

#[test]
fn render_clear_screen_prefix() {
    let buf = Buffer::new();
    let line = buf.get_line("", true);
    assert_eq!(line, b"\x1b[H\x1b[2J\r\x1b[0K\r\x1b[0C".to_vec());
}

#[test]
fn builder_sequences() {
    let mut b = Builder::new();
    b.carriage_return();
    b.append("hi");
    b.erase_to_right();
    b.set_cursor_pos(42);
    b.invert_color();
    b.reset_color();
    b.ask_cursor_pos();
    b.clear_screen();
    assert_eq!(
        b.build(),
        b"\rhi\x1b[0K\r\x1b[42C\x1b[7m\x1b[0m\x1b[6n\x1b[H\x1b[2J".to_vec()
    );
}

#[test]
fn buffer_swap_and_drain() {
    let mut buf = Buffer::new();
    buf.insert_chars_at_cursor("live");
    buf.swap();
    assert_eq!(buf.as_str(), "");
    buf.insert_chars_at_cursor("old");
    buf.swap();
    assert_eq!(buf.as_str(), "live");
    assert_eq!(buf.char_pos(), 4);
    let line = buf.drain();
    assert_eq!(line, "live");
    assert!(buf.is_empty());
    assert_eq!(buf.char_pos(), 0);
}

#[test]
fn buffer_replace_sets_cursor_to_end() {
    let mut buf = Buffer::new();
    buf.insert_chars_at_cursor("other");
    buf.replace("entry");
    assert_eq!(buf.as_str(), "entry");
    assert_eq!(buf.char_pos(), 5);
}

#[test]
fn position_increase_by_char() {
    let mut p = Position { byte_pos: 2, char_pos: 1 };
    p.increase_by_char('a');
    assert_eq!(p, Position { byte_pos: 3, char_pos: 2 });
    p.increase_by_char('é');
    assert_eq!(p, Position { byte_pos: 5, char_pos: 3 });
    p.increase_by_char('乫');
    assert_eq!(p, Position { byte_pos: 8, char_pos: 4 });
}

#[test]
fn char_len_utf8_widths() {
    assert_eq!(char_len_utf8('a'), 1);
    assert_eq!(char_len_utf8('é'), 2);
    assert_eq!(char_len_utf8('乫'), 3);
    assert_eq!(char_len_utf8('\u{10348}'), 4);
}

#[test]
fn vi_keyword_classes() {
    assert!(is_vi_keyword('a'));
    assert!(is_vi_keyword('7'));
    assert!(is_vi_keyword('_'));
    assert!(!is_vi_keyword('.'));
    assert!(!is_vi_keyword(' '));
}

#[test]
fn history_push_get_and_order() {
    let mut h = History::new();
    assert_eq!(h.len(), 0);
    h.push("first".to_string());
    h.push("second".to_string());
    // Empty lines and immediate repetitions are dropped.
    h.push("".to_string());
    h.push("second".to_string());
    assert_eq!(h.len(), 2);
    assert_eq!(h.get(0).map(|s| s.as_str()), Some("second"));
    assert_eq!(h.get(1).map(|s| s.as_str()), Some("first"));
    assert_eq!(h.get(2), None);
}

#[test]
fn history_pop_remove_clear() {
    let mut h = History::new();
    h.push("a".to_string());
    h.push("b".to_string());
    h.push("c".to_string());
    assert_eq!(h.pop(), Some("c".to_string()));
    assert_eq!(h.remove(1), Some("a".to_string()));
    assert_eq!(h.remove(5), None);
    assert_eq!(h.len(), 1);
    h.clear();
    assert_eq!(h.len(), 0);
    assert_eq!(h.pop(), None);
}

#[test]
fn history_cursor_walk() {
    let mut h = History::new();
    h.push("one".to_string());
    h.push("two".to_string());
    let mut c = Cursor::new();
    assert_eq!(c.get(&h), None);
    // Entering browsing answers true once.
    assert!(c.incr(h.len()));
    assert_eq!(c.get(&h).map(|s| s.as_str()), Some("two"));
    assert!(!c.incr(h.len()));
    assert_eq!(c.get(&h).map(|s| s.as_str()), Some("one"));
    // The oldest entry clamps.
    assert!(!c.incr(h.len()));
    assert_eq!(c.get(&h).map(|s| s.as_str()), Some("one"));
    assert!(!c.decr());
    // Leaving browsing answers true once.
    assert!(c.decr());
    assert_eq!(c.get(&h), None);
}

#[test]
fn error_descriptions() {
    assert_eq!(Error::Cancel.describe(), "cancelled");
    assert_eq!(Error::EndOfFile.describe(), "end of file");
    assert_eq!(Error::UnsupportedTerm.describe(), "unsupported terminal type");
    assert_eq!(Error::ParseError.describe(), "unknown sequence");
    assert_eq!(Error::ErrNo(5).describe(), "operating system error");
}

#[test]
fn default_config() {
    let cfg = Config::default();
    assert_eq!(cfg.encoding, Encoding::Utf8);
    assert_eq!(cfg.mode, EditMode::Emacs);
}
