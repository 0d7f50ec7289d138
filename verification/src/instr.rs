//! Abstract editing instructions, and how a key token becomes one under
//! the current mode.

use vstd::prelude::*;
use vstd::string::StrSliceExecFns;

use crate::edit::ModeState;
use crate::edit::ViMode;
use crate::parser::Token;
use crate::parser::TokenV;

verus! {

/// Instructions shared by every mode.
#[derive(Debug, Clone, Copy, PartialEq, Eq, Structural)]
pub enum CommonInstr {
    Done,
    Cancel,
    Clear,
    Noop,
}

/// History browsing directions.
#[derive(Debug, Clone, Copy, PartialEq, Eq, Structural)]
pub enum HistoryInstr {
    Next,
    Prev,
}

/// Plain cursor motions.
#[derive(Debug, Clone, Copy, PartialEq, Eq, Structural)]
pub enum MoveCursorInstr {
    Left,
    Right,
    Start,
    End,
}

/// How a pending character search will move.
#[derive(Debug, Clone, Copy, PartialEq, Eq, Structural)]
pub enum CharMoveType {
    BeforeRight,
    BeforeLeft,
    Right,
    Left,
}

/// One abstract editing command.
#[derive(Debug, PartialEq)]
pub enum Instr {
    Common(CommonInstr),
    History(HistoryInstr),
    MoveCursor(MoveCursorInstr),
    MoveEndOfWordRight,
    MoveEndOfWordWsRight,
    MoveWordRight,
    MoveWordWsRight,
    MoveWordLeft,
    MoveWordWsLeft,
    MoveCharRight(char),
    MoveCharLeft(char),
    MoveBeforeCharRight(char),
    MoveBeforeCharLeft(char),
    DeleteCharLeftOfCursor,
    DeleteCharRightOfCursor,
    DeleteCharRightOfCursorOrEOF,
    DeleteLine,
    DeleteToEnd,
    ChangeLine,
    ChangeToEnd,
    Substitute,
    InsertAtCursor(String),
    ReplaceAtCursor(String),
    Insert,
    InsertStart,
    Append,
    AppendEnd,
    NormalMode,
    ReplaceMode,
    MoveCharMode(CharMoveType),
    DeleteMode,
    ChangeMode,
    Digit(u32),
    DoneOrEof,
}

/// The model of an instruction: a text payload is its characters.
pub ghost enum InstrV {
    Common(CommonInstr),
    History(HistoryInstr),
    MoveCursor(MoveCursorInstr),
    MoveEndOfWordRight,
    MoveEndOfWordWsRight,
    MoveWordRight,
    MoveWordWsRight,
    MoveWordLeft,
    MoveWordWsLeft,
    MoveCharRight(char),
    MoveCharLeft(char),
    MoveBeforeCharRight(char),
    MoveBeforeCharLeft(char),
    DeleteCharLeftOfCursor,
    DeleteCharRightOfCursor,
    DeleteCharRightOfCursorOrEOF,
    DeleteLine,
    DeleteToEnd,
    ChangeLine,
    ChangeToEnd,
    Substitute,
    InsertAtCursor(Seq<char>),
    ReplaceAtCursor(Seq<char>),
    Insert,
    InsertStart,
    Append,
    AppendEnd,
    NormalMode,
    ReplaceMode,
    MoveCharMode(CharMoveType),
    DeleteMode,
    ChangeMode,
    Digit(u32),
    DoneOrEof,
}

impl View for Instr {
    type V = InstrV;

    open spec fn view(&self) -> InstrV {
        match self {
            Instr::Common(c) => InstrV::Common(*c),
            Instr::History(h) => InstrV::History(*h),
            Instr::MoveCursor(m) => InstrV::MoveCursor(*m),
            Instr::MoveEndOfWordRight => InstrV::MoveEndOfWordRight,
            Instr::MoveEndOfWordWsRight => InstrV::MoveEndOfWordWsRight,
            Instr::MoveWordRight => InstrV::MoveWordRight,
            Instr::MoveWordWsRight => InstrV::MoveWordWsRight,
            Instr::MoveWordLeft => InstrV::MoveWordLeft,
            Instr::MoveWordWsLeft => InstrV::MoveWordWsLeft,
            Instr::MoveCharRight(c) => InstrV::MoveCharRight(*c),
            Instr::MoveCharLeft(c) => InstrV::MoveCharLeft(*c),
            Instr::MoveBeforeCharRight(c) => InstrV::MoveBeforeCharRight(*c),
            Instr::MoveBeforeCharLeft(c) => InstrV::MoveBeforeCharLeft(*c),
            Instr::DeleteCharLeftOfCursor => InstrV::DeleteCharLeftOfCursor,
            Instr::DeleteCharRightOfCursor => InstrV::DeleteCharRightOfCursor,
            Instr::DeleteCharRightOfCursorOrEOF => InstrV::DeleteCharRightOfCursorOrEOF,
            Instr::DeleteLine => InstrV::DeleteLine,
            Instr::DeleteToEnd => InstrV::DeleteToEnd,
            Instr::ChangeLine => InstrV::ChangeLine,
            Instr::ChangeToEnd => InstrV::ChangeToEnd,
            Instr::Substitute => InstrV::Substitute,
            Instr::InsertAtCursor(s) => InstrV::InsertAtCursor(s@),
            Instr::ReplaceAtCursor(s) => InstrV::ReplaceAtCursor(s@),
            Instr::Insert => InstrV::Insert,
            Instr::InsertStart => InstrV::InsertStart,
            Instr::Append => InstrV::Append,
            Instr::AppendEnd => InstrV::AppendEnd,
            Instr::NormalMode => InstrV::NormalMode,
            Instr::ReplaceMode => InstrV::ReplaceMode,
            Instr::MoveCharMode(t) => InstrV::MoveCharMode(*t),
            Instr::DeleteMode => InstrV::DeleteMode,
            Instr::ChangeMode => InstrV::ChangeMode,
            Instr::Digit(d) => InstrV::Digit(*d),
            Instr::DoneOrEof => InstrV::DoneOrEof,
        }
    }
}

/// The Emacs key table.
pub open spec fn emacs_spec(t: TokenV) -> InstrV {
    match t {
        TokenV::Enter => InstrV::Common(CommonInstr::Done),
        TokenV::Backspace => InstrV::DeleteCharLeftOfCursor,
        TokenV::CtrlH => InstrV::DeleteCharLeftOfCursor,
        TokenV::EscBracket3T => InstrV::DeleteCharRightOfCursor,
        TokenV::CtrlD => InstrV::DeleteCharRightOfCursorOrEOF,
        TokenV::EscBracketA => InstrV::History(HistoryInstr::Prev),
        TokenV::CtrlP => InstrV::History(HistoryInstr::Prev),
        TokenV::EscBracketB => InstrV::History(HistoryInstr::Next),
        TokenV::CtrlN => InstrV::History(HistoryInstr::Next),
        TokenV::EscBracketC => InstrV::MoveCursor(MoveCursorInstr::Right),
        TokenV::CtrlF => InstrV::MoveCursor(MoveCursorInstr::Right),
        TokenV::EscBracketD => InstrV::MoveCursor(MoveCursorInstr::Left),
        TokenV::CtrlB => InstrV::MoveCursor(MoveCursorInstr::Left),
        TokenV::CtrlA => InstrV::MoveCursor(MoveCursorInstr::Start),
        TokenV::EscBracketH => InstrV::MoveCursor(MoveCursorInstr::Start),
        TokenV::CtrlE => InstrV::MoveCursor(MoveCursorInstr::End),
        TokenV::EscBracketF => InstrV::MoveCursor(MoveCursorInstr::End),
        TokenV::Text(text) => InstrV::InsertAtCursor(text),
        TokenV::CtrlC => InstrV::Common(CommonInstr::Cancel),
        TokenV::CtrlL => InstrV::Common(CommonInstr::Clear),
        _ => InstrV::Common(CommonInstr::Noop),
    }
}

/// The keys every Vi sub-mode shares.
pub open spec fn vi_common_spec(t: TokenV) -> InstrV {
    match t {
        TokenV::Enter => InstrV::Common(CommonInstr::Done),
        TokenV::CtrlD => InstrV::DoneOrEof,
        TokenV::Esc => InstrV::NormalMode,
        TokenV::Backspace => InstrV::DeleteCharLeftOfCursor,
        TokenV::EscBracket3T => InstrV::DeleteCharRightOfCursor,
        TokenV::EscBracketA => InstrV::History(HistoryInstr::Prev),
        TokenV::EscBracketB => InstrV::History(HistoryInstr::Next),
        TokenV::EscBracketC => InstrV::MoveCursor(MoveCursorInstr::Right),
        TokenV::EscBracketD => InstrV::MoveCursor(MoveCursorInstr::Left),
        TokenV::EscBracketH => InstrV::MoveCursor(MoveCursorInstr::Start),
        TokenV::EscBracketF => InstrV::MoveCursor(MoveCursorInstr::End),
        TokenV::CtrlC => InstrV::Common(CommonInstr::Cancel),
        TokenV::CtrlL => InstrV::Common(CommonInstr::Clear),
        _ => InstrV::Common(CommonInstr::Noop),
    }
}

/// Vi insert mode: text inserts, the rest falls to the common keys.
pub open spec fn vi_insert_spec(t: TokenV) -> InstrV {
    match t {
        TokenV::Text(text) => InstrV::InsertAtCursor(text),
        _ => vi_common_spec(t),
    }
}

/// The motion commands shared by normal mode and the pending
/// delete/change modes.
pub open spec fn vi_motion_key(c: char) -> Option<InstrV> {
    if c == 'h' {
        Some(InstrV::MoveCursor(MoveCursorInstr::Left))
    } else if c == 'l' {
        Some(InstrV::MoveCursor(MoveCursorInstr::Right))
    } else if c == '0' {
        Some(InstrV::Digit(0))
    } else if c == '$' {
        Some(InstrV::MoveCursor(MoveCursorInstr::End))
    } else if c == 'e' {
        Some(InstrV::MoveEndOfWordRight)
    } else if c == 'E' {
        Some(InstrV::MoveEndOfWordWsRight)
    } else if c == 'w' {
        Some(InstrV::MoveWordRight)
    } else if c == 'W' {
        Some(InstrV::MoveWordWsRight)
    } else if c == 'b' {
        Some(InstrV::MoveWordLeft)
    } else if c == 'B' {
        Some(InstrV::MoveWordWsLeft)
    } else if c == 't' {
        Some(InstrV::MoveCharMode(CharMoveType::BeforeRight))
    } else if c == 'T' {
        Some(InstrV::MoveCharMode(CharMoveType::BeforeLeft))
    } else if c == 'f' {
        Some(InstrV::MoveCharMode(CharMoveType::Right))
    } else if c == 'F' {
        Some(InstrV::MoveCharMode(CharMoveType::Left))
    } else if c == '1' {
        Some(InstrV::Digit(1))
    } else if c == '2' {
        Some(InstrV::Digit(2))
    } else if c == '3' {
        Some(InstrV::Digit(3))
    } else if c == '4' {
        Some(InstrV::Digit(4))
    } else if c == '5' {
        Some(InstrV::Digit(5))
    } else if c == '6' {
        Some(InstrV::Digit(6))
    } else if c == '7' {
        Some(InstrV::Digit(7))
    } else if c == '8' {
        Some(InstrV::Digit(8))
    } else if c == '9' {
        Some(InstrV::Digit(9))
    } else {
        None
    }
}

/// Vi normal mode: the single-character command table.
pub open spec fn vi_normal_spec(t: TokenV) -> InstrV {
    match t {
        TokenV::Text(text) => {
            if text.len() == 1 {
                let c = text[0];
                if c == 'j' {
                    InstrV::History(HistoryInstr::Next)
                } else if c == 'k' {
                    InstrV::History(HistoryInstr::Prev)
                } else if c == 'x' {
                    InstrV::DeleteCharRightOfCursor
                } else if c == 's' {
                    InstrV::Substitute
                } else if c == 'r' {
                    InstrV::ReplaceMode
                } else if c == 'c' {
                    InstrV::ChangeMode
                } else if c == 'C' {
                    InstrV::ChangeToEnd
                } else if c == 'd' {
                    InstrV::DeleteMode
                } else if c == 'D' {
                    InstrV::DeleteToEnd
                } else if c == 'a' {
                    InstrV::Append
                } else if c == 'A' {
                    InstrV::AppendEnd
                } else if c == 'i' {
                    InstrV::Insert
                } else if c == 'I' {
                    InstrV::InsertStart
                } else {
                    match vi_motion_key(c) {
                        Some(ins) => ins,
                        None => InstrV::Common(CommonInstr::Noop),
                    }
                }
            } else {
                InstrV::Common(CommonInstr::Noop)
            }
        },
        _ => vi_common_spec(t),
    }
}

/// Vi replace mode: the next text token replaces; anything else falls
/// back to normal mode.
pub open spec fn vi_replace_spec(t: TokenV) -> InstrV {
    match t {
        TokenV::Text(text) => InstrV::ReplaceAtCursor(text),
        _ => InstrV::NormalMode,
    }
}

/// A pending character search: the next text token's first character is
/// the target.
pub open spec fn vi_move_char_spec(move_type: CharMoveType, t: TokenV) -> InstrV {
    match t {
        TokenV::Text(text) => {
            if text.len() > 0 {
                let c = text[0];
                match move_type {
                    CharMoveType::BeforeLeft => InstrV::MoveBeforeCharLeft(c),
                    CharMoveType::BeforeRight => InstrV::MoveBeforeCharRight(c),
                    CharMoveType::Left => InstrV::MoveCharLeft(c),
                    CharMoveType::Right => InstrV::MoveCharRight(c),
                }
            } else {
                InstrV::NormalMode
            }
        },
        _ => InstrV::NormalMode,
    }
}

/// The motions a pending delete or change accepts.
pub open spec fn vi_change_delete_common_spec(t: TokenV) -> InstrV {
    match t {
        TokenV::Text(text) => {
            if text.len() == 1 {
                match vi_motion_key(text[0]) {
                    Some(ins) => ins,
                    None => InstrV::NormalMode,
                }
            } else {
                InstrV::NormalMode
            }
        },
        _ => InstrV::NormalMode,
    }
}

/// Vi pending-change mode: a doubled `c` changes the whole line.
pub open spec fn vi_change_spec(t: TokenV) -> InstrV {
    match t {
        TokenV::Text(text) => {
            if text.len() == 1 && text[0] == 'c' {
                InstrV::ChangeLine
            } else {
                vi_change_delete_common_spec(t)
            }
        },
        _ => InstrV::NormalMode,
    }
}

/// Vi pending-delete mode: a doubled `d` deletes the whole line.
pub open spec fn vi_delete_spec(t: TokenV) -> InstrV {
    match t {
        TokenV::Text(text) => {
            if text.len() == 1 && text[0] == 'd' {
                InstrV::DeleteLine
            } else {
                vi_change_delete_common_spec(t)
            }
        },
        _ => InstrV::NormalMode,
    }
}

/// What a token means under the current mode.
pub open spec fn interpret_spec(t: TokenV, m: ModeState) -> InstrV {
    match m {
        ModeState::Emacs => emacs_spec(t),
        ModeState::Vi(vi, _) => match vi {
            ViMode::Insert => vi_insert_spec(t),
            ViMode::Normal => vi_normal_spec(t),
            ViMode::Replace => vi_replace_spec(t),
            ViMode::MoveChar(mt) => vi_move_char_spec(mt, t),
            ViMode::DeleteMoveChar(mt) => vi_move_char_spec(mt, t),
            ViMode::ChangeMoveChar(mt) => vi_move_char_spec(mt, t),
            ViMode::Delete => vi_delete_spec(t),
            ViMode::Change => vi_change_spec(t),
        },
    }
}

fn vi_common(token: Token) -> (r: Instr)
    ensures
        r@ == vi_common_spec(token@),
{
    match token {
        Token::Enter => Instr::Common(CommonInstr::Done),
        Token::CtrlD => Instr::DoneOrEof,
        Token::Esc => Instr::NormalMode,
        Token::Backspace => Instr::DeleteCharLeftOfCursor,
        Token::EscBracket3T => Instr::DeleteCharRightOfCursor,
        Token::EscBracketA => Instr::History(HistoryInstr::Prev),
        Token::EscBracketB => Instr::History(HistoryInstr::Next),
        Token::EscBracketC => Instr::MoveCursor(MoveCursorInstr::Right),
        Token::EscBracketD => Instr::MoveCursor(MoveCursorInstr::Left),
        Token::EscBracketH => Instr::MoveCursor(MoveCursorInstr::Start),
        Token::EscBracketF => Instr::MoveCursor(MoveCursorInstr::End),
        Token::CtrlC => Instr::Common(CommonInstr::Cancel),
        Token::CtrlL => Instr::Common(CommonInstr::Clear),
        _ => Instr::Common(CommonInstr::Noop),
    }
}

fn emacs_mode(token: Token) -> (r: Instr)
    ensures
        r@ == emacs_spec(token@),
{
    match token {
        Token::Enter => Instr::Common(CommonInstr::Done),
        Token::Backspace => Instr::DeleteCharLeftOfCursor,
        Token::CtrlH => Instr::DeleteCharLeftOfCursor,
        Token::EscBracket3T => Instr::DeleteCharRightOfCursor,
        Token::CtrlD => Instr::DeleteCharRightOfCursorOrEOF,
        Token::EscBracketA => Instr::History(HistoryInstr::Prev),
        Token::CtrlP => Instr::History(HistoryInstr::Prev),
        Token::EscBracketB => Instr::History(HistoryInstr::Next),
        Token::CtrlN => Instr::History(HistoryInstr::Next),
        Token::EscBracketC => Instr::MoveCursor(MoveCursorInstr::Right),
        Token::CtrlF => Instr::MoveCursor(MoveCursorInstr::Right),
        Token::EscBracketD => Instr::MoveCursor(MoveCursorInstr::Left),
        Token::CtrlB => Instr::MoveCursor(MoveCursorInstr::Left),
        Token::CtrlA => Instr::MoveCursor(MoveCursorInstr::Start),
        Token::EscBracketH => Instr::MoveCursor(MoveCursorInstr::Start),
        Token::CtrlE => Instr::MoveCursor(MoveCursorInstr::End),
        Token::EscBracketF => Instr::MoveCursor(MoveCursorInstr::End),
        Token::Text(text) => Instr::InsertAtCursor(text),
        Token::CtrlC => Instr::Common(CommonInstr::Cancel),
        Token::CtrlL => Instr::Common(CommonInstr::Clear),
        _ => Instr::Common(CommonInstr::Noop),
    }
}

fn vi_insert_mode(token: Token) -> (r: Instr)
    ensures
        r@ == vi_insert_spec(token@),
{
    match token {
        Token::Text(text) => Instr::InsertAtCursor(text),
        _ => vi_common(token),
    }
}

fn vi_motion_key_exec(c: char) -> (r: Option<Instr>)
    ensures
        match r {
            Some(ins) => (vi_motion_key(c) matches Some(v) && ins@ == v),
            None => vi_motion_key(c) is None,
        },
{
    match c {
        'h' => Some(Instr::MoveCursor(MoveCursorInstr::Left)),
        'l' => Some(Instr::MoveCursor(MoveCursorInstr::Right)),
        '0' => Some(Instr::Digit(0)),
        '$' => Some(Instr::MoveCursor(MoveCursorInstr::End)),
        'e' => Some(Instr::MoveEndOfWordRight),
        'E' => Some(Instr::MoveEndOfWordWsRight),
        'w' => Some(Instr::MoveWordRight),
        'W' => Some(Instr::MoveWordWsRight),
        'b' => Some(Instr::MoveWordLeft),
        'B' => Some(Instr::MoveWordWsLeft),
        't' => Some(Instr::MoveCharMode(CharMoveType::BeforeRight)),
        'T' => Some(Instr::MoveCharMode(CharMoveType::BeforeLeft)),
        'f' => Some(Instr::MoveCharMode(CharMoveType::Right)),
        'F' => Some(Instr::MoveCharMode(CharMoveType::Left)),
        '1' => Some(Instr::Digit(1)),
        '2' => Some(Instr::Digit(2)),
        '3' => Some(Instr::Digit(3)),
        '4' => Some(Instr::Digit(4)),
        '5' => Some(Instr::Digit(5)),
        '6' => Some(Instr::Digit(6)),
        '7' => Some(Instr::Digit(7)),
        '8' => Some(Instr::Digit(8)),
        '9' => Some(Instr::Digit(9)),
        _ => None,
    }
}

fn vi_normal_mode(token: Token) -> (r: Instr)
    ensures
        r@ == vi_normal_spec(token@),
{
    match token {
        Token::Text(text) => {
            if text.as_str().unicode_len() == 1 {
                let c = text.as_str().get_char(0);
                match c {
                    'j' => Instr::History(HistoryInstr::Next),
                    'k' => Instr::History(HistoryInstr::Prev),
                    'x' => Instr::DeleteCharRightOfCursor,
                    's' => Instr::Substitute,
                    'r' => Instr::ReplaceMode,
                    'c' => Instr::ChangeMode,
                    'C' => Instr::ChangeToEnd,
                    'd' => Instr::DeleteMode,
                    'D' => Instr::DeleteToEnd,
                    'a' => Instr::Append,
                    'A' => Instr::AppendEnd,
                    'i' => Instr::Insert,
                    'I' => Instr::InsertStart,
                    _ => match vi_motion_key_exec(c) {
                        Some(ins) => ins,
                        None => Instr::Common(CommonInstr::Noop),
                    },
                }
            } else {
                Instr::Common(CommonInstr::Noop)
            }
        },
        _ => vi_common(token),
    }
}

fn vi_replace_mode(token: Token) -> (r: Instr)
    ensures
        r@ == vi_replace_spec(token@),
{
    match token {
        Token::Text(text) => Instr::ReplaceAtCursor(text),
        _ => Instr::NormalMode,
    }
}

fn vi_move_char_mode(move_type: CharMoveType, token: Token) -> (r: Instr)
    ensures
        r@ == vi_move_char_spec(move_type, token@),
{
    match token {
        Token::Text(text) => {
            if text.as_str().unicode_len() > 0 {
                let c = text.as_str().get_char(0);
                match move_type {
                    CharMoveType::BeforeLeft => Instr::MoveBeforeCharLeft(c),
                    CharMoveType::BeforeRight => Instr::MoveBeforeCharRight(c),
                    CharMoveType::Left => Instr::MoveCharLeft(c),
                    CharMoveType::Right => Instr::MoveCharRight(c),
                }
            } else {
                Instr::NormalMode
            }
        },
        _ => Instr::NormalMode,
    }
}

fn vi_change_delete_common(token: Token) -> (r: Instr)
    ensures
        r@ == vi_change_delete_common_spec(token@),
{
    match token {
        Token::Text(text) => {
            if text.as_str().unicode_len() == 1 {
                let c = text.as_str().get_char(0);
                match vi_motion_key_exec(c) {
                    Some(ins) => ins,
                    None => Instr::NormalMode,
                }
            } else {
                Instr::NormalMode
            }
        },
        _ => Instr::NormalMode,
    }
}

fn vi_change_mode(token: Token) -> (r: Instr)
    ensures
        r@ == vi_change_spec(token@),
{
    match token {
        Token::Text(text) => {
            if text.as_str().unicode_len() == 1 && text.as_str().get_char(0) == 'c' {
                Instr::ChangeLine
            } else {
                vi_change_delete_common(Token::Text(text))
            }
        },
        _ => Instr::NormalMode,
    }
}

fn vi_delete_mode(token: Token) -> (r: Instr)
    ensures
        r@ == vi_delete_spec(token@),
{
    match token {
        Token::Text(text) => {
            if text.as_str().unicode_len() == 1 && text.as_str().get_char(0) == 'd' {
                Instr::DeleteLine
            } else {
                vi_change_delete_common(Token::Text(text))
            }
        },
        _ => Instr::NormalMode,
    }
}

/// Turn one recognized token into the instruction the current mode gives
/// it.
pub fn interpret_token(token: Token, edit_mode_state: ModeState) -> (r: Instr)
    ensures
        r@ == interpret_spec(token@, edit_mode_state),
{
    match edit_mode_state {
        ModeState::Emacs => emacs_mode(token),
        ModeState::Vi(ViMode::Insert, _) => vi_insert_mode(token),
        ModeState::Vi(ViMode::Normal, _) => vi_normal_mode(token),
        ModeState::Vi(ViMode::Replace, _) => vi_replace_mode(token),
        ModeState::Vi(ViMode::MoveChar(move_type), _) => vi_move_char_mode(move_type, token),
        ModeState::Vi(ViMode::DeleteMoveChar(move_type), _) => vi_move_char_mode(move_type, token),
        ModeState::Vi(ViMode::ChangeMoveChar(move_type), _) => vi_move_char_mode(move_type, token),
        ModeState::Vi(ViMode::Delete, _) => vi_delete_mode(token),
        ModeState::Vi(ViMode::Change, _) => vi_change_mode(token),
    }
}

} // verus!
