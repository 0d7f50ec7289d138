//! Recognition of one key token from a prefix of the pending input bytes.
//!
//! The parser is incremental: called on the current byte window, it
//! answers either with a token and the count of bytes it occupies, or
//! that more bytes are needed, or that a count of leading bytes is
//! malformed and should be discarded.

use vstd::prelude::*;
use vstd::utf8::decode_utf8;

use crate::buffer::char_to_string;

use encoding::types::Encoding as EncodingTrait;
use encoding::types::RawDecoder;

verus! {

/// The byte encoding of the input stream.
#[derive(Debug, Clone, Copy, PartialEq, Eq, Structural)]
pub enum Encoding {
    Ascii,
    Utf8,
}

/// One recognized key.
#[derive(Debug, PartialEq)]
pub enum Token {
    Null,
    CtrlA,
    CtrlB,
    CtrlC,
    CtrlD,
    CtrlE,
    CtrlF,
    CtrlG,
    CtrlH,
    Tab,
    CtrlJ,
    CtrlK,
    CtrlL,
    Enter,
    CtrlN,
    CtrlO,
    CtrlP,
    CtrlQ,
    CtrlR,
    CtrlS,
    CtrlT,
    CtrlU,
    CtrlV,
    CtrlW,
    CtrlX,
    CtrlY,
    CtrlZ,
    Esc,
    Backspace,
    EscBracket3T,
    EscBracketA,
    EscBracketB,
    EscBracketC,
    EscBracketD,
    EscBracketH,
    EscBracketF,
    Text(String),
}

/// The model of a token: a text run is its characters.
pub ghost enum TokenV {
    Null,
    CtrlA,
    CtrlB,
    CtrlC,
    CtrlD,
    CtrlE,
    CtrlF,
    CtrlG,
    CtrlH,
    Tab,
    CtrlJ,
    CtrlK,
    CtrlL,
    Enter,
    CtrlN,
    CtrlO,
    CtrlP,
    CtrlQ,
    CtrlR,
    CtrlS,
    CtrlT,
    CtrlU,
    CtrlV,
    CtrlW,
    CtrlX,
    CtrlY,
    CtrlZ,
    Esc,
    Backspace,
    EscBracket3T,
    EscBracketA,
    EscBracketB,
    EscBracketC,
    EscBracketD,
    EscBracketH,
    EscBracketF,
    Text(Seq<char>),
}

impl View for Token {
    type V = TokenV;

    open spec fn view(&self) -> TokenV {
        match self {
            Token::Null => TokenV::Null,
            Token::CtrlA => TokenV::CtrlA,
            Token::CtrlB => TokenV::CtrlB,
            Token::CtrlC => TokenV::CtrlC,
            Token::CtrlD => TokenV::CtrlD,
            Token::CtrlE => TokenV::CtrlE,
            Token::CtrlF => TokenV::CtrlF,
            Token::CtrlG => TokenV::CtrlG,
            Token::CtrlH => TokenV::CtrlH,
            Token::Tab => TokenV::Tab,
            Token::CtrlJ => TokenV::CtrlJ,
            Token::CtrlK => TokenV::CtrlK,
            Token::CtrlL => TokenV::CtrlL,
            Token::Enter => TokenV::Enter,
            Token::CtrlN => TokenV::CtrlN,
            Token::CtrlO => TokenV::CtrlO,
            Token::CtrlP => TokenV::CtrlP,
            Token::CtrlQ => TokenV::CtrlQ,
            Token::CtrlR => TokenV::CtrlR,
            Token::CtrlS => TokenV::CtrlS,
            Token::CtrlT => TokenV::CtrlT,
            Token::CtrlU => TokenV::CtrlU,
            Token::CtrlV => TokenV::CtrlV,
            Token::CtrlW => TokenV::CtrlW,
            Token::CtrlX => TokenV::CtrlX,
            Token::CtrlY => TokenV::CtrlY,
            Token::CtrlZ => TokenV::CtrlZ,
            Token::Esc => TokenV::Esc,
            Token::Backspace => TokenV::Backspace,
            Token::EscBracket3T => TokenV::EscBracket3T,
            Token::EscBracketA => TokenV::EscBracketA,
            Token::EscBracketB => TokenV::EscBracketB,
            Token::EscBracketC => TokenV::EscBracketC,
            Token::EscBracketD => TokenV::EscBracketD,
            Token::EscBracketH => TokenV::EscBracketH,
            Token::EscBracketF => TokenV::EscBracketF,
            Token::Text(s) => TokenV::Text(s@),
        }
    }
}

/// Why no token was recognized: the leading bytes are malformed and this
/// many should be discarded, or more bytes must arrive first.
#[derive(Debug, Clone, Copy, PartialEq, Eq, Structural)]
pub enum ParseError {
    Error(usize),
    Incomplete,
}

/// A recognized value and the count of bytes it occupies.
#[derive(Debug, PartialEq)]
pub struct ParseSuccess<T>(pub T, pub usize);

pub type ParseResult<T> = Result<ParseSuccess<T>, ParseError>;

/// The token of a single-byte control code, if the byte is one.
pub open spec fn head_token(i: u8) -> Option<TokenV> {
    if i == 0 {
        Some(TokenV::Null)
    } else if i == 1 {
        Some(TokenV::CtrlA)
    } else if i == 2 {
        Some(TokenV::CtrlB)
    } else if i == 3 {
        Some(TokenV::CtrlC)
    } else if i == 4 {
        Some(TokenV::CtrlD)
    } else if i == 5 {
        Some(TokenV::CtrlE)
    } else if i == 6 {
        Some(TokenV::CtrlF)
    } else if i == 7 {
        Some(TokenV::CtrlG)
    } else if i == 8 {
        Some(TokenV::CtrlH)
    } else if i == 9 {
        Some(TokenV::Tab)
    } else if i == 10 {
        Some(TokenV::CtrlJ)
    } else if i == 11 {
        Some(TokenV::CtrlK)
    } else if i == 12 {
        Some(TokenV::CtrlL)
    } else if i == 13 {
        Some(TokenV::Enter)
    } else if i == 14 {
        Some(TokenV::CtrlN)
    } else if i == 15 {
        Some(TokenV::CtrlO)
    } else if i == 16 {
        Some(TokenV::CtrlP)
    } else if i == 17 {
        Some(TokenV::CtrlQ)
    } else if i == 18 {
        Some(TokenV::CtrlR)
    } else if i == 19 {
        Some(TokenV::CtrlS)
    } else if i == 20 {
        Some(TokenV::CtrlT)
    } else if i == 21 {
        Some(TokenV::CtrlU)
    } else if i == 22 {
        Some(TokenV::CtrlV)
    } else if i == 23 {
        Some(TokenV::CtrlW)
    } else if i == 24 {
        Some(TokenV::CtrlX)
    } else if i == 25 {
        Some(TokenV::CtrlY)
    } else if i == 26 {
        Some(TokenV::CtrlZ)
    } else if i == 27 {
        Some(TokenV::Esc)
    } else if i == 127 {
        Some(TokenV::Backspace)
    } else {
        None
    }
}

/// An escape sequence of at least two bytes: a bracket sequence, or a
/// malformed pair to discard.
pub open spec fn parse_esc_spec(v: Seq<u8>) -> Result<(TokenV, int), ParseError>
    recommends
        v.len() >= 2,
{
    if v[1] != 91 {
        Result::Err(ParseError::Error(2))
    } else if v.len() < 3 {
        Result::Err(ParseError::Incomplete)
    } else if 48 <= v[2] <= 57 {
        if v.len() < 4 {
            Result::Err(ParseError::Incomplete)
        } else if v[2] == 51 && v[3] == 126 {
            Result::Ok((TokenV::EscBracket3T, 4))
        } else {
            Result::Err(ParseError::Error(4))
        }
    } else if v[2] == 65 {
        Result::Ok((TokenV::EscBracketA, 3))
    } else if v[2] == 66 {
        Result::Ok((TokenV::EscBracketB, 3))
    } else if v[2] == 67 {
        Result::Ok((TokenV::EscBracketC, 3))
    } else if v[2] == 68 {
        Result::Ok((TokenV::EscBracketD, 3))
    } else if v[2] == 70 {
        Result::Ok((TokenV::EscBracketF, 3))
    } else if v[2] == 72 {
        Result::Ok((TokenV::EscBracketH, 3))
    } else {
        Result::Err(ParseError::Error(2))
    }
}

/// The length of the leading run of ASCII bytes.
pub open spec fn ascii_prefix_len(v: Seq<u8>) -> nat
    decreases v.len(),
{
    if v.len() == 0 {
        0
    } else if v[0] < 128 {
        1 + ascii_prefix_len(v.drop_first())
    } else {
        0
    }
}

/// The characters of the leading run of ASCII bytes.
pub open spec fn ascii_chars(v: Seq<u8>) -> Seq<char> {
    Seq::new(ascii_prefix_len(v), |j: int| v[j] as char)
}

/// The length of the longest prefix that is a sequence of complete,
/// valid UTF-8 scalar encodings.
pub open spec fn utf8_prefix_len(v: Seq<u8>) -> int
    decreases v.len(),
{
    if v.len() == 0 {
        0
    } else if !vstd::utf8::valid_first_scalar(v) {
        0
    } else {
        let l = vstd::utf8::length_of_first_scalar(v);
        if 1 <= l <= v.len() {
            l + utf8_prefix_len(v.skip(l))
        } else {
            0
        }
    }
}

/// Whether the bytes are a proper prefix of one valid UTF-8 scalar
/// encoding: a decoder that stops here is awaiting more bytes rather
/// than rejecting.
pub open spec fn utf8_fragment(v: Seq<u8>) -> bool {
    if v.len() == 0 {
        true
    } else if v.len() == 1 {
        (0xc2 <= v[0] <= 0xdf) || (0xe0 <= v[0] <= 0xef) || (0xf0 <= v[0] <= 0xf4)
    } else if v.len() == 2 {
        ||| (v[0] == 0xe0 && 0xa0 <= v[1] <= 0xbf)
        ||| ((0xe1 <= v[0] <= 0xec || v[0] == 0xee || v[0] == 0xef) && 0x80 <= v[1] <= 0xbf)
        ||| (v[0] == 0xed && 0x80 <= v[1] <= 0x9f)
        ||| (v[0] == 0xf0 && 0x90 <= v[1] <= 0xbf)
        ||| (0xf1 <= v[0] <= 0xf3 && 0x80 <= v[1] <= 0xbf)
        ||| (v[0] == 0xf4 && 0x80 <= v[1] <= 0x8f)
    } else if v.len() == 3 {
        &&& ({
            ||| (v[0] == 0xf0 && 0x90 <= v[1] <= 0xbf)
            ||| (0xf1 <= v[0] <= 0xf3 && 0x80 <= v[1] <= 0xbf)
            ||| (v[0] == 0xf4 && 0x80 <= v[1] <= 0x8f)
        })
        &&& 0x80 <= v[2] <= 0xbf
    } else {
        false
    }
}

/// The outcome of decoding a text run: the decoded characters, how many
/// bytes they occupied, and whether the decoder stopped on a malformed
/// byte rather than at a character boundary.
pub open spec fn decode_run(v: Seq<u8>, enc: Encoding) -> (Seq<char>, int, bool) {
    match enc {
        Encoding::Ascii => {
            let n = ascii_prefix_len(v) as int;
            (ascii_chars(v), n, n < v.len())
        },
        Encoding::Utf8 => {
            let n = utf8_prefix_len(v);
            (decode_utf8(v.take(n)), n, !utf8_fragment(v.skip(n)))
        },
    }
}

/// What the parser recognizes in the given byte window.
pub open spec fn parse_spec(v: Seq<u8>, enc: Encoding) -> Result<(TokenV, int), ParseError> {
    if v.len() == 0 {
        Result::Err(ParseError::Incomplete)
    } else {
        match head_token(v[0]) {
            Some(t) => {
                if t == TokenV::Esc && v.len() > 1 {
                    parse_esc_spec(v)
                } else {
                    Result::Ok((t, 1))
                }
            },
            None => {
                let (text, n, err) = decode_run(v, enc);
                if err {
                    Result::Err(ParseError::Error(n as usize))
                } else {
                    Result::Ok((TokenV::Text(text), n))
                }
            },
        }
    }
}

/// Whether an executable parse result means what the parse model says.
pub open spec fn parse_matches(r: ParseResult<Token>, m: Result<(TokenV, int), ParseError>) -> bool {
    match r {
        Result::Ok(ps) => m matches Result::Ok(t) && ps.0@ == t.0 && ps.1 == t.1,
        Result::Err(e1) => m matches Result::Err(e2) && e1 == e2,
    }
}

/// Relies on the UTF-8 raw decoder of the encoding crate (a fresh
/// decoder, fed once): it consumes the longest prefix of complete valid
/// scalar encodings, writes exactly the characters those bytes encode,
/// and reports an error unless the remaining bytes are the beginning of
/// one valid encoding.
#[verifier::external_body]
fn decode_utf8_prefix(bytes: &[u8]) -> (r: (usize, String, bool))
    ensures
        r.0 as int == utf8_prefix_len(bytes@),
        r.1@ == decode_utf8(bytes@.take(r.0 as int)),
        r.2 == !utf8_fragment(bytes@.skip(r.0 as int)),
{
    let mut dec = encoding::all::UTF_8.raw_decoder();
    let mut text = String::new();
    match dec.raw_feed(bytes, &mut text) {
        (n, None) => (n, text, false),
        (n, Some(_)) => (n, text, true),
    }
}


proof fn lemma_ascii_prefix_len(v: Seq<u8>, i: int)
    requires
        0 <= i <= v.len(),
        forall|j: int| 0 <= j < i ==> v[j] < 128,
        i < v.len() ==> v[i] >= 128,
    ensures
        ascii_prefix_len(v) == i,
    decreases v.len(),
{
    if v.len() == 0 {
    } else if v[0] >= 128 {
        assert(i == 0);
    } else {
        assert(i >= 1);
        lemma_ascii_prefix_len(v.drop_first(), i - 1);
    }
}

/// Map a single-byte control code to its token.
pub fn match_head(i: u8) -> (r: Option<Token>)
    ensures
        match r {
            Some(t) => (head_token(i) matches Some(tv) && t@ == tv),
            None => head_token(i) is None,
        },
{
    match i {
        0 => Some(Token::Null),
        1 => Some(Token::CtrlA),
        2 => Some(Token::CtrlB),
        3 => Some(Token::CtrlC),
        4 => Some(Token::CtrlD),
        5 => Some(Token::CtrlE),
        6 => Some(Token::CtrlF),
        7 => Some(Token::CtrlG),
        8 => Some(Token::CtrlH),
        9 => Some(Token::Tab),
        10 => Some(Token::CtrlJ),
        11 => Some(Token::CtrlK),
        12 => Some(Token::CtrlL),
        13 => Some(Token::Enter),
        14 => Some(Token::CtrlN),
        15 => Some(Token::CtrlO),
        16 => Some(Token::CtrlP),
        17 => Some(Token::CtrlQ),
        18 => Some(Token::CtrlR),
        19 => Some(Token::CtrlS),
        20 => Some(Token::CtrlT),
        21 => Some(Token::CtrlU),
        22 => Some(Token::CtrlV),
        23 => Some(Token::CtrlW),
        24 => Some(Token::CtrlX),
        25 => Some(Token::CtrlY),
        26 => Some(Token::CtrlZ),
        27 => Some(Token::Esc),
        127 => Some(Token::Backspace),
        _ => None,
    }
}

fn parse_esc(vec: &[u8]) -> (r: ParseResult<Token>)
    requires
        vec@.len() >= 2,
    ensures
        parse_matches(r, parse_esc_spec(vec@)),
{
    if vec[1] != 91 {
        Err(ParseError::Error(2))
    } else if vec.len() < 3 {
        Err(ParseError::Incomplete)
    } else if 48 <= vec[2] && vec[2] <= 57 {
        if vec.len() < 4 {
            Err(ParseError::Incomplete)
        } else if vec[2] == 51 && vec[3] == 126 {
            Ok(ParseSuccess(Token::EscBracket3T, 4))
        } else {
            Err(ParseError::Error(4))
        }
    } else if vec[2] == 65 {
        Ok(ParseSuccess(Token::EscBracketA, 3))
    } else if vec[2] == 66 {
        Ok(ParseSuccess(Token::EscBracketB, 3))
    } else if vec[2] == 67 {
        Ok(ParseSuccess(Token::EscBracketC, 3))
    } else if vec[2] == 68 {
        Ok(ParseSuccess(Token::EscBracketD, 3))
    } else if vec[2] == 70 {
        Ok(ParseSuccess(Token::EscBracketF, 3))
    } else if vec[2] == 72 {
        Ok(ParseSuccess(Token::EscBracketH, 3))
    } else {
        Err(ParseError::Error(2))
    }
}

fn decode_ascii_prefix(vec: &[u8]) -> (r: (usize, String, bool))
    ensures
        r.0 as int == ascii_prefix_len(vec@),
        r.1@ == ascii_chars(vec@),
        r.2 == (ascii_prefix_len(vec@) < vec@.len()),
{
    let mut text = String::new();
    let mut i: usize = 0;
    while i < vec.len() && vec[i] < 128
        invariant
            i <= vec@.len(),
            forall|j: int| 0 <= j < i ==> vec@[j] < 128,
            text@ == Seq::new(i as nat, |j: int| vec@[j] as char),
        decreases vec@.len() - i,
    {
        let piece = char_to_string(vec[i] as char);
        text.append(piece.as_str());
        proof {
            assert(text@ =~= Seq::new((i + 1) as nat, |j: int| vec@[j] as char));
        }
        i = i + 1;
    }
    proof {
        lemma_ascii_prefix_len(vec@, i as int);
        assert(text@ =~= ascii_chars(vec@));
    }
    (i, text, i < vec.len())
}

/// Recognize one token occupying a prefix of the pending bytes.
pub fn parse(vec: &[u8], enc: Encoding) -> (r: ParseResult<Token>)
    ensures
        parse_matches(r, parse_spec(vec@, enc)),
{
    if vec.len() == 0 {
        return Err(ParseError::Incomplete);
    }
    let head = vec[0];
    match match_head(head) {
        Some(t) => {
            if head == 27 && vec.len() > 1 {
                parse_esc(vec)
            } else {
                Ok(ParseSuccess(t, 1))
            }
        },
        None => {
            match enc {
                Encoding::Ascii => {
                    let (n, text, err) = decode_ascii_prefix(vec);
                    if err {
                        Err(ParseError::Error(n))
                    } else {
                        Ok(ParseSuccess(Token::Text(text), n))
                    }
                },
                Encoding::Utf8 => {
                    let (n, text, err) = decode_utf8_prefix(vec);
                    if err {
                        Err(ParseError::Error(n))
                    } else {
                        Ok(ParseSuccess(Token::Text(text), n))
                    }
                },
            }
        },
    }
}

/// One step of reading a decimal number: the accumulated value grows by
/// a digit, saturating at the largest representable value.
pub open spec fn dec_step(acc: u64, d: u8) -> u64 {
    if acc * 10 + d <= u64::MAX {
        (acc * 10 + d) as u64
    } else {
        u64::MAX
    }
}

/// Reading a run of decimal digit bytes: the value (saturating) and the
/// count of digits read.
pub open spec fn num_scan(v: Seq<u8>, i: int, acc: u64, cnt: int) -> (u64, int)
    decreases v.len() - i,
{
    if i < 0 || i >= v.len() || !(48 <= v[i] < 58) {
        (acc, cnt)
    } else {
        num_scan(v, i + 1, dec_step(acc, (v[i] - 48) as u8), cnt + 1)
    }
}

/// What parse_number reads at the given offset.
pub open spec fn parse_number_spec(v: Seq<u8>, off: int) -> (u64, int) {
    num_scan(v, off, 0, 0)
}

/// Read a run of decimal digits into a value; the value saturates where
/// it would no longer be representable.
pub fn parse_number(vec: &[u8], off: usize) -> (r: (u64, usize))
    ensures
        r.0 == parse_number_spec(vec@, off as int).0,
        r.1 as int == parse_number_spec(vec@, off as int).1,
        off <= vec@.len() ==> off + r.1 <= vec@.len(),
        off > vec@.len() ==> r.1 == 0,
{
    let mut i = off;
    let mut acc: u64 = 0;
    while i < vec.len() && 48 <= vec[i] && vec[i] < 58
        invariant
            off <= i,
            off <= vec@.len() ==> i <= vec@.len(),
            off > vec@.len() ==> i == off,
            num_scan(vec@, off as int, 0, 0) == num_scan(vec@, i as int, acc, i - off),
        decreases vec@.len() - i,
    {
        let d = vec[i] - 48;
        let acc2 = match acc.checked_mul(10) {
            Some(x) => match x.checked_add(d as u64) {
                Some(y) => y,
                None => u64::MAX,
            },
            None => u64::MAX,
        };
        proof {
            assert(acc2 == dec_step(acc, d));
        }
        acc = acc2;
        i = i + 1;
    }
    (acc, i - off)
}

/// Whether an executable cursor-position result means what the model
/// says.
pub open spec fn cursor_pos_matches(
    r: ParseResult<(u64, u64)>,
    m: Result<((u64, u64), int), ParseError>,
) -> bool {
    match r {
        Result::Ok(ps) => (m matches Result::Ok(t) && ps.0 == t.0 && ps.1 == t.1),
        Result::Err(e1) => (m matches Result::Err(e2) && e1 == e2),
    }
}

/// What a cursor-position reply's bytes hold: the column and row of the
/// cursor and the length of the reply.
pub open spec fn cursor_pos_spec(v: Seq<u8>) -> Result<((u64, u64), int), ParseError> {
    if v.len() < 1 {
        Result::Err(ParseError::Incomplete)
    } else if v[0] != 27 {
        Result::Err(ParseError::Error(1))
    } else if v.len() < 2 {
        Result::Err(ParseError::Incomplete)
    } else if v[1] != 91 {
        Result::Err(ParseError::Error(2))
    } else {
        let y = parse_number_spec(v, 2).0;
        let n = parse_number_spec(v, 2).1;
        if 2 + n >= v.len() {
            Result::Err(ParseError::Incomplete)
        } else if v[2 + n] != 59 {
            Result::Err(ParseError::Error((2 + n + 1) as usize))
        } else {
            let x = parse_number_spec(v, 3 + n).0;
            let m = parse_number_spec(v, 3 + n).1;
            if 3 + n + m >= v.len() {
                Result::Err(ParseError::Incomplete)
            } else if v[3 + n + m] != 82 {
                Result::Err(ParseError::Error((3 + n + m + 1) as usize))
            } else {
                Result::Ok(((x, y), 4 + n + m))
            }
        }
    }
}

/// Read a terminal cursor-position reply: escape, bracket, row, a
/// semicolon, column, and a final marker.
pub fn parse_cursor_pos(vec: &[u8]) -> (r: ParseResult<(u64, u64)>)
    ensures
        cursor_pos_matches(r, cursor_pos_spec(vec@)),
{
    if vec.len() < 1 {
        return Err(ParseError::Incomplete);
    }
    if vec[0] != 27 {
        return Err(ParseError::Error(1));
    }
    if vec.len() < 2 {
        return Err(ParseError::Incomplete);
    }
    if vec[1] != 91 {
        return Err(ParseError::Error(2));
    }
    let (y, n) = parse_number(vec, 2);
    if 2 + n >= vec.len() {
        return Err(ParseError::Incomplete);
    }
    if vec[2 + n] != 59 {
        return Err(ParseError::Error(2 + n + 1));
    }
    let (x, m) = parse_number(vec, 3 + n);
    if 3 + n + m >= vec.len() {
        return Err(ParseError::Incomplete);
    }
    if vec[3 + n + m] != 82 {
        return Err(ParseError::Error(3 + n + m + 1));
    }
    Ok(ParseSuccess((x, y), 4 + n + m))
}

} // verus!
