use copperline::parser::Encoding;
use copperline::parser::ParseError;
use copperline::parser::ParseSuccess;
use copperline::parser::Token;
use copperline::parser::parse;
use copperline::parser::parse_cursor_pos;
use copperline::parser::parse_number;

#[test]
fn parse_number_empty() {
    let v = vec![];
    assert_eq!(parse_number(&v, 0), (0, 0));
}

#[test]
fn parse_number_42() {
    let v = vec![48 + 4, 48 + 2, 20, 33];
    assert_eq!(parse_number(&v, 0), (42, 2));
}

#[test]
fn parse_number_invalid() {
    let v = vec![20, 33];
    assert_eq!(parse_number(&v, 0), (0, 0));
}

#[test]
fn parse_cursor_pos_full() {
    let v = vec![27, 91, 48 + 4, 48 + 2, 59, 48 + 6, 82];
    assert_eq!(parse_cursor_pos(&v), Ok(ParseSuccess((6, 42), 7)));
}

#[test]
fn parse_cursor_pos_incomplete() {
    let v = vec![27, 91, 48 + 4, 48 + 2, 59, 48 + 6];
    assert_eq!(parse_cursor_pos(&v), Err(ParseError::Incomplete));
}

#[test]
fn parse_cursor_pos_invalid() {
    let v = vec![27, 91, 48 + 4, 48 + 10, 59, 48 + 6];
    assert_eq!(parse_cursor_pos(&v), Err(ParseError::Error(4)));
}

#[test]
fn parse_control_codes() {
    assert_eq!(parse(&[13], Encoding::Ascii), Ok(ParseSuccess(Token::Enter, 1)));
    assert_eq!(parse(&[3], Encoding::Ascii), Ok(ParseSuccess(Token::CtrlC, 1)));
    assert_eq!(parse(&[127], Encoding::Utf8), Ok(ParseSuccess(Token::Backspace, 1)));
    assert_eq!(parse(&[27], Encoding::Ascii), Ok(ParseSuccess(Token::Esc, 1)));
}

#[test]
fn parse_bracket_sequences() {
    assert_eq!(parse(&[27, 91, 65], Encoding::Ascii), Ok(ParseSuccess(Token::EscBracketA, 3)));
    assert_eq!(parse(&[27, 91, 68], Encoding::Ascii), Ok(ParseSuccess(Token::EscBracketD, 3)));
    assert_eq!(parse(&[27, 91, 72], Encoding::Ascii), Ok(ParseSuccess(Token::EscBracketH, 3)));
    assert_eq!(
        parse(&[27, 91, 51, 126], Encoding::Ascii),
        Ok(ParseSuccess(Token::EscBracket3T, 4))
    );
    assert_eq!(parse(&[27, 91], Encoding::Ascii), Err(ParseError::Incomplete));
    assert_eq!(parse(&[27, 91, 51], Encoding::Ascii), Err(ParseError::Incomplete));
    assert_eq!(parse(&[27, 91, 90], Encoding::Ascii), Err(ParseError::Error(2)));
    assert_eq!(parse(&[27, 91, 52, 126], Encoding::Ascii), Err(ParseError::Error(4)));
    assert_eq!(parse(&[27, 88], Encoding::Ascii), Err(ParseError::Error(2)));
}

#[test]
fn parse_ascii_text_run() {
    assert_eq!(
        parse(&[65, 66, 67], Encoding::Ascii),
        Ok(ParseSuccess(Token::Text("ABC".to_string()), 3))
    );
    // A non-ASCII byte stops the run with an error at its offset.
    assert_eq!(parse(&[65, 200, 66], Encoding::Ascii), Err(ParseError::Error(1)));
    assert_eq!(parse(&[200], Encoding::Ascii), Err(ParseError::Error(0)));
}

#[test]
fn parse_utf8_text_run() {
    // "é" is 0xC3 0xA9.
    assert_eq!(
        parse(&[0xC3, 0xA9, 0x61], Encoding::Utf8),
        Ok(ParseSuccess(Token::Text("éa".to_string()), 3))
    );
    // A lone leading byte is an incomplete character, not an error.
    assert_eq!(parse(&[0xC3], Encoding::Utf8), Ok(ParseSuccess(Token::Text("".to_string()), 0)));
    assert_eq!(
        parse(&[0x61, 0xC3], Encoding::Utf8),
        Ok(ParseSuccess(Token::Text("a".to_string()), 1))
    );
    // A malformed byte is an error at its offset.
    assert_eq!(parse(&[0xFF], Encoding::Utf8), Err(ParseError::Error(0)));
    assert_eq!(parse(&[0x61, 0xC3, 0x28], Encoding::Utf8), Err(ParseError::Error(1)));
}

#[test]
fn parse_empty_window() {
    assert_eq!(parse(&[], Encoding::Ascii), Err(ParseError::Incomplete));
}

#[test]
fn parse_number_saturates() {
    // 25 nines do not fit a 64-bit value: the value saturates instead of
    // wrapping, and every digit is still consumed.
    let v = vec![57u8; 25];
    assert_eq!(parse_number(&v, 0), (u64::MAX, 25));
}
