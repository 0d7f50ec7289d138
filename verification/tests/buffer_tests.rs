use copperline::buffer::Buffer;

#[test]
fn move_and_insert_ascii() {
    let mut buf = Buffer::new();
    buf.insert_char_at_cursor('a');
    buf.move_left();
    buf.insert_char_at_cursor('x');
    buf.move_left();
    buf.move_right();
    buf.move_right();
    buf.insert_char_at_cursor('b');
    buf.move_start();
    buf.insert_char_at_cursor('w');
    buf.move_end();
    buf.insert_char_at_cursor('c');
    buf.move_left();
    buf.move_left();
    buf.delete_char_left_of_cursor();
    assert_eq!(buf.to_string(), "wxbc".to_string());
}

#[test]
fn move_and_insert_cyrillic() {
    let mut buf = Buffer::new();
    buf.insert_char_at_cursor('Й');
    buf.move_left();
    buf.insert_char_at_cursor('ч');
    buf.move_left();
    buf.move_right();
    buf.move_right();
    buf.insert_char_at_cursor('Њ');
    buf.move_start();
    buf.insert_char_at_cursor('Ѿ');
    buf.move_end();
    buf.insert_char_at_cursor('Җ');
    buf.move_left();
    buf.move_left();
    buf.delete_char_left_of_cursor();
    assert_eq!(buf.to_string(), "ѾчЊҖ".to_string());
}

#[test]
fn move_and_insert_cjk() {
    let mut buf = Buffer::new();
    buf.insert_char_at_cursor('䩖');
    assert_eq!(buf.as_str(), "䩖");
    buf.move_left();
    buf.insert_char_at_cursor('䨻');
    assert_eq!(buf.as_str(), "䨻䩖");
    buf.move_left();
    buf.move_right();
    buf.move_right();
    buf.insert_char_at_cursor('䦴');
    assert_eq!(buf.as_str(), "䨻䩖䦴");
    buf.move_start();
    buf.insert_char_at_cursor('乫');
    assert_eq!(buf.as_str(), "乫䨻䩖䦴");
    buf.move_end();
    buf.insert_char_at_cursor('憛');
    assert_eq!(buf.as_str(), "乫䨻䩖䦴憛");
    buf.move_left();
    buf.move_left();
    buf.delete_char_left_of_cursor();
    assert_eq!(buf.as_str(), "乫䨻䦴憛");
}

#[test]
fn move_to_pos() {
    let mut buf = Buffer::new();
    buf.insert_chars_at_cursor("pos");
    let pos = buf.pos();
    buf.insert_chars_at_cursor("pos");

    assert!(buf.pos() != pos);
    buf.move_to_pos(pos);
    assert_eq!(buf.pos(), pos);
}

#[test]
fn move_to_end_of_word_simple() {
    let mut buf = Buffer::new();
    buf.insert_chars_at_cursor("here are");
    let start_pos = buf.pos();
    buf.insert_chars_at_cursor(" som");
    let end_pos = buf.pos();
    buf.insert_chars_at_cursor("e words");
    buf.move_to_pos(start_pos);

    buf.move_to_end_of_word();
    assert_eq!(buf.pos(), end_pos);
}

#[test]
fn move_to_end_of_word_comma() {
    let mut buf = Buffer::new();
    buf.insert_chars_at_cursor("here ar");
    let start_pos = buf.pos();
    buf.insert_char_at_cursor('e');
    let end_pos1 = buf.pos();
    buf.insert_chars_at_cursor(", som");
    let end_pos2 = buf.pos();
    buf.insert_chars_at_cursor("e words");
    buf.move_to_pos(start_pos);

    buf.move_to_end_of_word();
    assert_eq!(buf.pos(), end_pos1);
    buf.move_to_end_of_word();
    assert_eq!(buf.pos(), end_pos2);
}

#[test]
fn move_to_end_of_word_nonkeywords() {
    let mut buf = Buffer::new();
    buf.insert_chars_at_cursor("here ar");
    let start_pos = buf.pos();
    buf.insert_chars_at_cursor("e,,,");
    let end_pos1 = buf.pos();
    buf.insert_chars_at_cursor(",som");
    let end_pos2 = buf.pos();
    buf.insert_chars_at_cursor("e words");
    buf.move_to_pos(start_pos);

    buf.move_to_end_of_word();
    assert_eq!(buf.pos(), end_pos1);
    buf.move_to_end_of_word();
    assert_eq!(buf.pos(), end_pos2);
}

#[test]
fn move_to_end_of_word_whitespace() {
    let mut buf = Buffer::new();
    assert_eq!(buf.char_pos(), 0);
    buf.insert_chars_at_cursor("here are");
    let start_pos = buf.pos();
    assert_eq!(buf.char_pos(), 8);
    buf.insert_chars_at_cursor("      som");
    assert_eq!(buf.char_pos(), 17);
    buf.insert_chars_at_cursor("e words");
    assert_eq!(buf.char_pos(), 24);
    buf.move_to_pos(start_pos);
    assert_eq!(buf.char_pos(), 8);

    buf.move_to_end_of_word();
    assert_eq!(buf.char_pos(), 17);
}

#[test]
fn move_to_end_of_word_whitespace_nonkeywords() {
    let mut buf = Buffer::new();
    buf.insert_chars_at_cursor("here ar");
    let start_pos = buf.pos();
    buf.insert_chars_at_cursor("e   ,,,");
    let end_pos1 = buf.pos();
    buf.insert_chars_at_cursor(", som");
    let end_pos2 = buf.pos();
    buf.insert_chars_at_cursor("e words");
    buf.move_to_pos(start_pos);

    buf.move_to_end_of_word();
    assert_eq!(buf.pos(), end_pos1);
    buf.move_to_end_of_word();
    assert_eq!(buf.pos(), end_pos2);
}

#[test]
fn replace_chars_at_cursor() {
    let mut buf = Buffer::new();
    buf.insert_chars_at_cursor("text");
    let pos = buf.pos();
    buf.insert_chars_at_cursor(" string");
    for _ in 0..buf.char_pos() - pos.char_pos {
        buf.move_left();
    }

    // replace should not move the cursor
    assert_eq!(buf.pos(), pos);
    buf.replace_chars_at_cursor("_");
    assert_eq!(buf.to_string(), "text_string");
}

#[test]
fn exclude_eol() {
    let mut buf = Buffer::new();
    buf.insert_chars_at_cursor("text");
    let end = buf.char_pos();
    buf.move_left();

    let target = buf.char_pos();
    buf.move_right();
    buf.move_right();

    // should be at the end of the string
    assert_eq!(buf.char_pos(), end);

    // a call to exclude_eol() should move the cursor
    buf.exclude_eol();
    assert_eq!(buf.char_pos(), target);

    // further calls should not move the cursor
    buf.exclude_eol();
    assert_eq!(buf.char_pos(), target);
}

#[test]
fn move_to_end_of_word_ws_simple() {
    let mut buf = Buffer::new();
    buf.insert_chars_at_cursor("here are");
    let start_pos = buf.pos();
    buf.insert_chars_at_cursor(" som");
    let end_pos = buf.pos();
    buf.insert_chars_at_cursor("e words");
    buf.move_to_pos(start_pos);

    buf.move_to_end_of_word_ws();
    assert_eq!(buf.pos(), end_pos);
}

#[test]
fn move_to_end_of_word_ws_comma() {
    let mut buf = Buffer::new();
    buf.insert_chars_at_cursor("here ar");
    let start_pos = buf.pos();
    buf.insert_char_at_cursor('e');
    let end_pos1 = buf.pos();
    buf.insert_chars_at_cursor(", som");
    let end_pos2 = buf.pos();
    buf.insert_chars_at_cursor("e words");
    buf.move_to_pos(start_pos);

    buf.move_to_end_of_word_ws();
    assert_eq!(buf.pos(), end_pos1);
    buf.move_to_end_of_word_ws();
    assert_eq!(buf.pos(), end_pos2);
}

#[test]
fn move_to_end_of_word_ws_nonkeywords() {
    let mut buf = Buffer::new();
    buf.insert_chars_at_cursor("here ar");
    let start_pos = buf.pos();
    buf.insert_chars_at_cursor("e,,,,som");
    let end_pos = buf.pos();
    buf.insert_chars_at_cursor("e words");
    buf.move_to_pos(start_pos);

    buf.move_to_end_of_word_ws();
    assert_eq!(buf.pos(), end_pos);
}

#[test]
fn move_to_end_of_word_ws_whitespace() {
    let mut buf = Buffer::new();
    buf.insert_chars_at_cursor("here are");
    let start_pos = buf.pos();
    buf.insert_chars_at_cursor("      som");
    let end_pos = buf.pos();
    buf.insert_chars_at_cursor("e words");
    buf.move_to_pos(start_pos);

    buf.move_to_end_of_word_ws();
    assert_eq!(buf.pos(), end_pos);
}

#[test]
fn move_to_end_of_word_ws_whitespace_nonkeywords() {
    let mut buf = Buffer::new();
    buf.insert_chars_at_cursor("here ar");
    let start_pos = buf.pos();
    buf.insert_chars_at_cursor("e   ,,,");
    let end_pos1 = buf.pos();
    buf.insert_chars_at_cursor(", som");
    let end_pos2 = buf.pos();
    buf.insert_chars_at_cursor("e words");
    buf.move_to_pos(start_pos);

    buf.move_to_end_of_word_ws();
    assert_eq!(buf.pos(), end_pos1);
    buf.move_to_end_of_word_ws();
    assert_eq!(buf.pos(), end_pos2);
}

#[test]
fn move_word_simple() {
    let mut buf = Buffer::new();
    buf.insert_chars_at_cursor("here ");
    let pos1 = buf.pos();
    buf.insert_chars_at_cursor("are ");
    let pos2 = buf.pos();
    buf.insert_chars_at_cursor("some words");
    buf.move_start();

    buf.move_word();
    assert_eq!(buf.pos(), pos1);
    buf.move_word();
    assert_eq!(buf.pos(), pos2);

    buf.move_start();
    buf.move_word_ws();
    assert_eq!(buf.pos(), pos1);
    buf.move_word_ws();
    assert_eq!(buf.pos(), pos2);
}

#[test]
fn move_word_whitespace() {
    let mut buf = Buffer::new();
    buf.insert_chars_at_cursor("   ");
    let pos1 = buf.char_pos();
    buf.insert_chars_at_cursor("word");
    let pos2 = buf.char_pos();
    buf.move_start();

    buf.move_word();
    assert_eq!(buf.char_pos(), pos1);
    buf.move_word();
    assert_eq!(buf.char_pos(), pos2);

    buf.move_start();
    buf.move_word_ws();
    assert_eq!(buf.char_pos(), pos1);
    buf.move_word_ws();
    assert_eq!(buf.char_pos(), pos2);
}

#[test]
fn move_word_nonkeywords() {
    let mut buf = Buffer::new();
    buf.insert_chars_at_cursor("...");
    let pos1 = buf.char_pos();
    buf.insert_chars_at_cursor("word");
    let pos2 = buf.char_pos();
    buf.move_start();

    buf.move_word();
    assert_eq!(buf.char_pos(), pos1);
    buf.move_word();
    assert_eq!(buf.char_pos(), pos2);

    buf.move_start();
    buf.move_word_ws();
    assert_eq!(buf.char_pos(), pos2);
}

#[test]
fn move_word_whitespace_nonkeywords() {
    let mut buf = Buffer::new();
    buf.insert_chars_at_cursor("...   ");
    let pos1 = buf.char_pos();
    buf.insert_chars_at_cursor("...");
    let pos2 = buf.char_pos();
    buf.insert_chars_at_cursor("word");
    let pos3 = buf.char_pos();
    buf.move_start();

    buf.move_word();
    assert_eq!(buf.char_pos(), pos1);
    buf.move_word();
    assert_eq!(buf.char_pos(), pos2);

    buf.move_start();
    assert!(buf.move_word_ws());
    assert_eq!(buf.char_pos(), pos1);
    assert!(!buf.move_word_ws());
    assert_eq!(buf.char_pos(), pos3);
}

#[test]
fn move_word_and_back() {
    let mut buf = Buffer::new();
    buf.insert_chars_at_cursor("here ");
    let pos1 = buf.char_pos();
    buf.insert_chars_at_cursor("are ");
    let pos2 = buf.char_pos();
    buf.insert_chars_at_cursor("some");
    let pos3 = buf.char_pos();
    buf.insert_chars_at_cursor("... ");
    let pos4 = buf.char_pos();
    buf.insert_chars_at_cursor("words");
    let pos5 = buf.char_pos();

    // make sure move_word() and move_word_back() are reflections of eachother

    buf.move_start();
    buf.move_word();
    assert_eq!(buf.char_pos(), pos1);
    buf.move_word();
    assert_eq!(buf.char_pos(), pos2);
    buf.move_word();
    assert_eq!(buf.char_pos(), pos3);
    buf.move_word();
    assert_eq!(buf.char_pos(), pos4);
    buf.move_word();
    assert_eq!(buf.char_pos(), pos5);

    buf.move_word_back();
    assert_eq!(buf.char_pos(), pos4);
    buf.move_word_back();
    assert_eq!(buf.char_pos(), pos3);
    buf.move_word_back();
    assert_eq!(buf.char_pos(), pos2);
    buf.move_word_back();
    assert_eq!(buf.char_pos(), pos1);
    buf.move_word_back();
    assert_eq!(buf.char_pos(), 0);

    buf.move_start();
    buf.move_word_ws();
    assert_eq!(buf.char_pos(), pos1);
    buf.move_word_ws();
    assert_eq!(buf.char_pos(), pos2);
    buf.move_word_ws();
    assert_eq!(buf.char_pos(), pos4);
    buf.move_word_ws();
    assert_eq!(buf.char_pos(), pos5);

    buf.move_word_ws_back();
    assert_eq!(buf.char_pos(), pos4);
    buf.move_word_ws_back();
    assert_eq!(buf.char_pos(), pos2);
    buf.move_word_ws_back();
    assert_eq!(buf.char_pos(), pos1);
    buf.move_word_ws_back();
    assert_eq!(buf.char_pos(), 0);
}

#[test]
fn move_to_char() {
    let mut buf = Buffer::new();
    buf.insert_chars_at_cursor("words");
    let pos1 = buf.char_pos();
    buf.insert_chars_at_cursor(" wor");
    let d_pos = buf.char_pos();
    buf.insert_chars_at_cursor("ds");

    buf.move_start();
    assert!(buf.move_to_char_right(' ', 1));
    assert_eq!(buf.char_pos(), pos1);
    buf.move_end();
    assert!(buf.move_to_char_left(' ', 1));
    assert_eq!(buf.char_pos(), pos1);
    buf.move_start();
    assert_eq!(buf.move_to_char_right('z', 1), false);
    assert_eq!(buf.char_pos(), 0);
    buf.move_start();
    assert!(buf.move_to_char_right('d', 2));
    assert_eq!(buf.char_pos(), d_pos);
}

#[test]
fn move_and_delete1() {
    // test a simple move
    let mut buf = Buffer::new();
    buf.insert_chars_at_cursor("words words words");
    buf.move_start();
    {
        let dc = buf.start_delete();
        buf.move_word();
        dc.delete(&mut buf);
    }
    assert_eq!(buf.to_string(), "words words".to_string());
}

#[test]
fn move_and_delete2() {
    // test deleting an empty string
    let mut buf = Buffer::new();
    buf.move_start();
    {
        let dc = buf.start_delete();
        buf.move_end();
        dc.delete(&mut buf);
    }
    assert_eq!(buf.to_string(), "".to_string());
}

#[test]
fn move_and_delete3() {
    // test deleting from the end to the beginning
    let mut buf = Buffer::new();
    buf.insert_chars_at_cursor("words words words");
    {
        let dc = buf.start_delete();
        buf.move_start();
        dc.delete(&mut buf);
    }
    assert_eq!(buf.to_string(), "".to_string());
}
