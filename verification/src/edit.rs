//! The edit state machine: modes, the edit context, and how one
//! instruction changes them.

use vstd::prelude::*;

use crate::buffer::Buffer;
use crate::buffer::BufV;
use crate::buffer::DeleteContext;
use crate::buffer::ViMoveDir;
use crate::buffer::ViMoveMode;
use crate::buffer::CharClass;
use crate::buffer::buf_text;
use crate::buffer::cls_at;
use crate::buffer::char_scan_n;
use crate::buffer::delete_span;
use crate::buffer::insert_text_full_sp;
use crate::buffer::render_line;
use crate::buffer::replace_line_sp;
use crate::buffer::replace_text_sp;
use crate::buffer::lemma_word_symmetry_step;
use crate::buffer::two_class;
use crate::buffer::word_end_motion;
use crate::buffer::word_motion;
use crate::buffer::word_start;
use crate::error::Error;
use crate::history::Cursor;
use crate::history::History;
use crate::history::cursor_decr;
use crate::history::cursor_incr;
use crate::instr::CharMoveType;
use crate::instr::CommonInstr;
use crate::instr::HistoryInstr;
use crate::instr::Instr;
use crate::instr::InstrV;
use crate::instr::MoveCursorInstr;
use crate::parser::Encoding;
use crate::parser::ParseError;
use crate::parser::parse;
use crate::parser::parse_spec;
use crate::parser::ParseSuccess;
use crate::instr::interpret_spec;
use crate::instr::interpret_token;

verus! {

/// The key-binding flavour of a line-read.
#[derive(Debug, Clone, Copy, PartialEq, Eq, Structural)]
pub enum EditMode {
    Emacs,
    Vi,
}

/// The Vi sub-mode the machine is in.
#[derive(Debug, Clone, Copy, PartialEq, Eq, Structural)]
pub enum ViMode {
    Insert,
    Normal,
    Replace,
    MoveChar(CharMoveType),
    DeleteMoveChar(CharMoveType),
    ChangeMoveChar(CharMoveType),
    Delete,
    Change,
}

/// The modal state: Emacs has none; Vi carries its sub-mode and the
/// pending repeat count.
#[derive(Debug, Clone, Copy, PartialEq, Eq, Structural)]
pub enum ModeState {
    Emacs,
    Vi(ViMode, u32),
}

impl ModeState {
    /// The starting state of each flavour; Vi starts inserting.
    pub fn new(mode: EditMode) -> (r: ModeState)
        ensures
            r == mode_state_init(mode),
    {
        match mode {
            EditMode::Emacs => ModeState::Emacs,
            EditMode::Vi => ModeState::Vi(ViMode::Insert, 0),
        }
    }
}

/// The starting state of each flavour.
pub open spec fn mode_state_init(mode: EditMode) -> ModeState {
    match mode {
        EditMode::Emacs => ModeState::Emacs,
        EditMode::Vi => ModeState::Vi(ViMode::Insert, 0),
    }
}

/// Keep the count, change the Vi sub-mode; Emacs is unchanged.
pub open spec fn with_vi_mode(m: ModeState, vi_mode: ViMode) -> ModeState {
    match m {
        ModeState::Vi(_, count) => ModeState::Vi(vi_mode, count),
        ModeState::Emacs => m,
    }
}

/// Keep the sub-mode, change the count; Emacs is unchanged.
pub open spec fn with_vi_count(m: ModeState, count: u32) -> ModeState {
    match m {
        ModeState::Vi(mode, _) => ModeState::Vi(mode, count),
        ModeState::Emacs => m,
    }
}

/// Where a completed command leaves the machine: a completed delete goes
/// to normal mode, a completed change to insert mode, anything else in
/// Vi to normal mode, and Emacs stays Emacs.  The count is spent.
pub open spec fn next_vi_mode(m: ModeState) -> ModeState {
    match m {
        ModeState::Vi(ViMode::Delete, _) => ModeState::Vi(ViMode::Normal, 0),
        ModeState::Vi(ViMode::Change, _) => ModeState::Vi(ViMode::Insert, 0),
        ModeState::Vi(ViMode::DeleteMoveChar(_), _) => ModeState::Vi(ViMode::Normal, 0),
        ModeState::Vi(ViMode::ChangeMoveChar(_), _) => ModeState::Vi(ViMode::Insert, 0),
        ModeState::Vi(_, _) => ModeState::Vi(ViMode::Normal, 0),
        ModeState::Emacs => ModeState::Emacs,
    }
}


/// Whether the machine is waiting to delete or change through the next
/// motion.
pub open spec fn is_del_or_change(m: ModeState) -> bool {
    ||| m matches ModeState::Vi(ViMode::Delete, _)
    ||| m matches ModeState::Vi(ViMode::Change, _)
}

/// The count is spent once a repeated command ran.
pub open spec fn repeat_reset(m: ModeState) -> ModeState {
    match m {
        ModeState::Emacs => m,
        ModeState::Vi(mode, _) => ModeState::Vi(mode, 0),
    }
}

/// The same line with the cursor elsewhere.
pub open spec fn with_cur(b: BufV, cur: nat) -> BufV {
    BufV { front: b.front, back: b.back, cur }
}

/// One cursor step left.
pub open spec fn step_left_sp(b: BufV) -> (BufV, bool) {
    if b.cur > 0 {
        (with_cur(b, (b.cur - 1) as nat), true)
    } else {
        (b, false)
    }
}

/// One cursor step right.
pub open spec fn step_right_sp(b: BufV) -> (BufV, bool) {
    if b.cur < b.front.len() {
        (with_cur(b, b.cur + 1), true)
    } else {
        (b, false)
    }
}

/// Deleting the cell left of the cursor.
pub open spec fn step_del_left_sp(b: BufV) -> (BufV, bool) {
    if b.cur > 0 {
        (
            BufV { front: b.front.remove(b.cur - 1), back: b.back, cur: (b.cur - 1) as nat },
            true,
        )
    } else {
        (b, false)
    }
}

/// Deleting the cell under the cursor.
pub open spec fn step_del_right_sp(b: BufV) -> (BufV, bool) {
    if b.cur < b.front.len() {
        (BufV { front: b.front.remove(b.cur as int), back: b.back, cur: b.cur }, true)
    } else {
        (b, false)
    }
}

/// A cursor parked one past the last cell steps back onto it.
pub open spec fn excl_sp(b: BufV) -> BufV {
    if b.cur < b.front.len() {
        b
    } else if b.cur > 0 {
        with_cur(b, (b.cur - 1) as nat)
    } else {
        with_cur(b, 0)
    }
}

/// The end-of-line exclusion applies only while in Vi normal mode.
pub open spec fn ctx_excl_sp(m: ModeState, b: BufV) -> BufV {
    if m matches ModeState::Vi(ViMode::Normal, _) {
        excl_sp(b)
    } else {
        b
    }
}

/// Exchanging the front and back lines, cursor at the new front's end.
pub open spec fn swap_sp(b: BufV) -> BufV {
    BufV { front: b.back, back: b.front, cur: b.back.len() }
}

/// The front line extracted and left empty.
pub open spec fn drained_sp(b: BufV) -> BufV {
    BufV { front: Seq::empty(), back: b.back, cur: 0 }
}

/// The motions the repeat combinator drives.
#[derive(Clone, Copy, PartialEq, Eq, Structural, Debug)]
pub enum MotionOp {
    StepLeft,
    StepRight,
    DelLeft,
    DelRight,
    Word(ViMoveMode, ViMoveDir),
    WordEnd(ViMoveMode, ViMoveDir),
}

/// What one run of a motion does to the line.
pub open spec fn motion_step_sp(op: MotionOp, b: BufV) -> (BufV, bool) {
    match op {
        MotionOp::StepLeft => step_left_sp(b),
        MotionOp::StepRight => step_right_sp(b),
        MotionOp::DelLeft => step_del_left_sp(b),
        MotionOp::DelRight => step_del_right_sp(b),
        MotionOp::Word(mode, dir) => {
            let r = word_motion(b.front, b.cur, mode, dir);
            (with_cur(b, r.0), r.1)
        },
        MotionOp::WordEnd(mode, dir) => {
            let r = word_end_motion(b.front, b.cur, mode, dir);
            (with_cur(b, r.0), r.1)
        },
    }
}

/// Run a motion up to `n` times, stopping early when one run fails.
pub open spec fn repeat_motion_go(op: MotionOp, b: BufV, n: nat) -> BufV
    decreases n,
{
    if n == 0 {
        b
    } else {
        let s = motion_step_sp(op, b);
        if s.1 {
            repeat_motion_go(op, s.0, (n - 1) as nat)
        } else {
            s.0
        }
    }
}

/// The repeat-count combinator: without a pending count the motion runs
/// once; with one it runs up to that many times, keeping whatever
/// progress was made when a run fails.
pub open spec fn vi_repeat_motion_sp(op: MotionOp, b: BufV, m: ModeState) -> BufV {
    match m {
        ModeState::Emacs => motion_step_sp(op, b).0,
        ModeState::Vi(_, count) => if count == 0 {
            motion_step_sp(op, b).0
        } else {
            repeat_motion_go(op, b, count as nat)
        },
    }
}

fn motion_once(buf: &mut Buffer, op: MotionOp) -> (r: bool)
    requires
        old(buf).wf(),
    ensures
        final(buf).wf(),
        final(buf)@ == motion_step_sp(op, old(buf)@).0,
        r == motion_step_sp(op, old(buf)@).1,
{
    let r = match op {
        MotionOp::StepLeft => buf.move_left(),
        MotionOp::StepRight => buf.move_right(),
        MotionOp::DelLeft => buf.delete_char_left_of_cursor(),
        MotionOp::DelRight => buf.delete_char_right_of_cursor(),
        MotionOp::Word(mode, dir) => {
            match (mode, dir) {
                (ViMoveMode::Keyword, ViMoveDir::Right) => buf.move_word(),
                (ViMoveMode::Whitespace, ViMoveDir::Right) => buf.move_word_ws(),
                (ViMoveMode::Keyword, ViMoveDir::Left) => buf.move_to_end_of_word_back(),
                (ViMoveMode::Whitespace, ViMoveDir::Left) => buf.move_to_end_of_word_ws_back(),
            }
        },
        MotionOp::WordEnd(mode, dir) => {
            match (mode, dir) {
                (ViMoveMode::Keyword, ViMoveDir::Right) => buf.move_to_end_of_word(),
                (ViMoveMode::Whitespace, ViMoveDir::Right) => buf.move_to_end_of_word_ws(),
                (ViMoveMode::Keyword, ViMoveDir::Left) => buf.move_word_back(),
                (ViMoveMode::Whitespace, ViMoveDir::Left) => buf.move_word_ws_back(),
            }
        },
    };
    proof {
        assert(buf@ =~= motion_step_sp(op, old(buf)@).0);
    }
    r
}

/// Run a motion under the repeat count held in the mode, spending the
/// count.
fn vi_repeat_motion(buf: &mut Buffer, mode_state: &mut ModeState, op: MotionOp)
    requires
        old(buf).wf(),
    ensures
        final(buf).wf(),
        final(buf)@ == vi_repeat_motion_sp(op, old(buf)@, *old(mode_state)),
        *final(mode_state) == repeat_reset(*old(mode_state)),
{
    match *mode_state {
        ModeState::Emacs => {
            let _moved = motion_once(buf, op);
        },
        ModeState::Vi(vi_mode, count) => {
            if count == 0 {
                let _moved = motion_once(buf, op);
            } else {
                let mut i: u32 = 0;
                let ghost b0 = buf@;
                let mut more = true;
                while more && i < count
                    invariant
                        buf.wf(),
                        i <= count,
                        more ==> repeat_motion_go(op, b0, count as nat) == repeat_motion_go(
                            op,
                            buf@,
                            (count - i) as nat,
                        ),
                        !more ==> buf@ == repeat_motion_go(op, b0, count as nat),
                    decreases count - i,
                {
                    let moved = motion_once(buf, op);
                    if !moved {
                        more = false;
                    }
                    i = i + 1;
                }
            }
            *mode_state = ModeState::Vi(vi_mode, 0);
        },
    }
}


// ---------------------------------------------------------------------------
// The transition model.
// ---------------------------------------------------------------------------

/// What one instruction produces besides the next state: carry on
/// (perhaps clearing the screen first), or stop with the finished line
/// or an error.
pub ghost enum OutV {
    Cont(bool),
    Halt(Result<Seq<char>, Error>),
}

/// The state one instruction leaves behind.
#[verifier::ext_equal]
pub ghost struct StepV {
    pub buf: BufV,
    pub mode: ModeState,
    pub hc: Option<int>,
    pub out: OutV,
}

/// A motion wrapped for a pending delete or change: the motion runs
/// under the repeat count, then the span from the starting cursor is
/// removed.
pub open spec fn vi_delete_wrap_sp(m: ModeState, b: BufV, op: MotionOp) -> BufV {
    let moved = vi_repeat_motion_sp(op, b, m);
    if is_del_or_change(m) {
        delete_span(moved, b.cur)
    } else {
        moved
    }
}

/// One run of the replace command: replace the cell under the cursor,
/// step right, and keep off the end of the line; repetition stops when
/// the step right fell off the line.
pub open spec fn replace_once_sp(b: BufV, s: Seq<char>) -> (BufV, bool) {
    let b1 = replace_text_sp(b, s);
    let b2 = step_right_sp(b1).0;
    (excl_sp(b2), b2.cur < b2.front.len())
}

pub open spec fn repeat_replace_go(s: Seq<char>, b: BufV, n: nat) -> BufV
    decreases n,
{
    if n == 0 {
        b
    } else {
        let r = replace_once_sp(b, s);
        if r.1 {
            repeat_replace_go(s, r.0, (n - 1) as nat)
        } else {
            r.0
        }
    }
}

pub open spec fn vi_repeat_replace_sp(s: Seq<char>, b: BufV, m: ModeState) -> BufV {
    match m {
        ModeState::Emacs => replace_once_sp(b, s).0,
        ModeState::Vi(_, count) => if count == 0 {
            replace_once_sp(b, s).0
        } else {
            repeat_replace_go(s, b, count as nat)
        },
    }
}

/// One step of history browsing.  Stepping to older entries: entering
/// browsing stashes the live line; the selected entry, if any, becomes
/// the line.  Stepping past the newest entry unstashes the live line.
pub open spec fn hist_step_sp(h: Seq<Seq<char>>, b: BufV, hc: Option<int>, prev: bool) -> (
    BufV,
    Option<int>,
    bool,
) {
    let flag = if prev {
        hc is None && h.len() > 0
    } else {
        hc matches Some(i) && i == 0
    };
    let c2 = if prev {
        cursor_incr(hc, h.len() as int)
    } else {
        cursor_decr(hc)
    };
    let b1 = if flag {
        swap_sp(b)
    } else {
        b
    };
    let b2 = match c2 {
        Some(i) => if i < h.len() {
            replace_line_sp(b1, h[i])
        } else {
            b1
        },
        None => b1,
    };
    (b2, c2, flag)
}

pub open spec fn repeat_hist_go(
    h: Seq<Seq<char>>,
    b: BufV,
    hc: Option<int>,
    prev: bool,
    n: nat,
) -> (BufV, Option<int>)
    decreases n,
{
    if n == 0 {
        (b, hc)
    } else {
        let r = hist_step_sp(h, b, hc, prev);
        if r.2 {
            repeat_hist_go(h, r.0, r.1, prev, (n - 1) as nat)
        } else {
            (r.0, r.1)
        }
    }
}

pub open spec fn vi_repeat_hist_sp(
    h: Seq<Seq<char>>,
    b: BufV,
    hc: Option<int>,
    prev: bool,
    m: ModeState,
) -> (BufV, Option<int>) {
    match m {
        ModeState::Emacs => {
            let r = hist_step_sp(h, b, hc, prev);
            (r.0, r.1)
        },
        ModeState::Vi(_, count) => if count == 0 {
            let r = hist_step_sp(h, b, hc, prev);
            (r.0, r.1)
        } else {
            repeat_hist_go(h, b, hc, prev, count as nat)
        },
    }
}

/// Whether the cell under the cursor is whitespace, as a delete records
/// it when it starts.
pub open spec fn on_ws_sp(b: BufV) -> bool {
    b.cur < b.front.len() && cls_at(b.front, b.cur as int) == CharClass::Whitespace
}

/// The delete and change instructions that target the end of the line.
pub open spec fn to_end_sp(b: BufV, m1: ModeState) -> (BufV, ModeState) {
    let moved = with_cur(b, b.front.len());
    let b2 = delete_span(moved, b.cur);
    let m2 = next_vi_mode(m1);
    (ctx_excl_sp(m2, b2), m2)
}

/// The plain cursor-motion instructions, each wrapped for a pending
/// delete or change.
pub open spec fn move_cursor_sp(b: BufV, m: ModeState, hc: Option<int>, mc: MoveCursorInstr) -> StepV {
    match mc {
        MoveCursorInstr::Left => {
            let b2 = vi_delete_wrap_sp(m, b, MotionOp::StepLeft);
            StepV { buf: b2, mode: next_vi_mode(repeat_reset(m)), hc, out: OutV::Cont(false) }
        },
        MoveCursorInstr::Right => {
            let b2 = vi_delete_wrap_sp(m, b, MotionOp::StepRight);
            let m2 = next_vi_mode(repeat_reset(m));
            StepV { buf: ctx_excl_sp(m2, b2), mode: m2, hc, out: OutV::Cont(false) }
        },
        MoveCursorInstr::Start => {
            let moved = with_cur(b, 0);
            let b2 = if is_del_or_change(m) {
                delete_span(moved, b.cur)
            } else {
                moved
            };
            StepV { buf: b2, mode: next_vi_mode(m), hc, out: OutV::Cont(false) }
        },
        MoveCursorInstr::End => {
            let moved = with_cur(b, b.front.len());
            let b2 = if is_del_or_change(m) {
                delete_span(moved, b.cur)
            } else {
                moved
            };
            let m2 = next_vi_mode(repeat_reset(m));
            StepV { buf: ctx_excl_sp(m2, b2), mode: m2, hc, out: OutV::Cont(false) }
        },
    }
}

/// The end-of-word motions: in a pending delete or change the span is
/// inclusive, so it extends one cell right before the deletion.
pub open spec fn word_end_fwd_sp(b: BufV, m: ModeState, hc: Option<int>, wmode: ViMoveMode) -> StepV {
    let moved = vi_repeat_motion_sp(MotionOp::WordEnd(wmode, ViMoveDir::Right), b, m);
    let m1 = repeat_reset(m);
    if is_del_or_change(m1) {
        let b2 = step_right_sp(moved).0;
        let b3 = delete_span(b2, b.cur);
        let m2 = next_vi_mode(m1);
        StepV { buf: ctx_excl_sp(m2, b3), mode: m2, hc, out: OutV::Cont(false) }
    } else {
        StepV { buf: ctx_excl_sp(m1, moved), mode: m1, hc, out: OutV::Cont(false) }
    }
}

/// The word-forward motions: a pending change that did not start on
/// whitespace spares the trailing whitespace before the next word.
pub open spec fn word_fwd_sp(b: BufV, m: ModeState, hc: Option<int>, wmode: ViMoveMode) -> StepV {
    let moved = vi_repeat_motion_sp(MotionOp::Word(wmode, ViMoveDir::Right), b, m);
    let m1 = repeat_reset(m);
    let b2 = match m1 {
        ModeState::Vi(ViMode::Delete, _) => delete_span(moved, b.cur),
        ModeState::Vi(ViMode::Change, _) => {
            if !on_ws_sp(b) && moved.cur < moved.front.len() {
                let a1 = step_right_sp(moved).0;
                let a2 = motion_step_sp(MotionOp::Word(wmode, ViMoveDir::Left), a1).0;
                let a3 = step_right_sp(a2).0;
                delete_span(a3, b.cur)
            } else {
                delete_span(moved, b.cur)
            }
        },
        _ => moved,
    };
    let m2 = next_vi_mode(m1);
    StepV { buf: ctx_excl_sp(m2, b2), mode: m2, hc, out: OutV::Cont(false) }
}

/// A found character search in a pending delete or change deletes an
/// inclusive span.
pub open spec fn char_move_sp(b: BufV, m: ModeState, hc: Option<int>, c: char, t: CharMoveType) -> StepV {
    match m {
        ModeState::Vi(vi, count) => {
            let n: nat = if count == 0 {
                1
            } else {
                count as nat
            };
            let dir = if t == CharMoveType::Right || t == CharMoveType::BeforeRight {
                ViMoveDir::Right
            } else {
                ViMoveDir::Left
            };
            let scan = char_scan_n(b.front, b.cur, dir, c, n);
            let dc = vi matches ViMode::DeleteMoveChar(_) || vi matches ViMode::ChangeMoveChar(_);
            let b2 = match t {
                CharMoveType::Right => {
                    let b1 = if scan.1 {
                        with_cur(b, scan.0)
                    } else {
                        b
                    };
                    if dc {
                        delete_span(step_right_sp(b1).0, b.cur)
                    } else {
                        b1
                    }
                },
                CharMoveType::Left => {
                    let b1 = if scan.1 {
                        with_cur(b, scan.0)
                    } else {
                        b
                    };
                    if dc {
                        delete_span(b1, b.cur)
                    } else {
                        b1
                    }
                },
                CharMoveType::BeforeRight => {
                    if scan.1 {
                        let b1 = step_left_sp(with_cur(b, scan.0)).0;
                        if dc {
                            delete_span(step_right_sp(b1).0, b.cur)
                        } else {
                            b1
                        }
                    } else {
                        b
                    }
                },
                CharMoveType::BeforeLeft => {
                    if scan.1 {
                        let b1 = step_right_sp(with_cur(b, scan.0)).0;
                        if dc {
                            delete_span(b1, b.cur)
                        } else {
                            b1
                        }
                    } else {
                        b
                    }
                },
            };
            let m2 = next_vi_mode(m);
            let b3 = if t == CharMoveType::Right {
                ctx_excl_sp(m2, b2)
            } else {
                b2
            };
            StepV { buf: b3, mode: m2, hc, out: OutV::Cont(false) }
        },
        ModeState::Emacs => {
            StepV { buf: b, mode: next_vi_mode(m), hc, out: OutV::Cont(false) }
        },
    }
}

/// A digit: a bare zero is the move-to-start motion; any other digit
/// grows the pending count, unless the count would overflow, in which
/// case the digit is dropped.
pub open spec fn digit_sp(b: BufV, m: ModeState, hc: Option<int>, d: u32) -> StepV {
    match m {
        ModeState::Vi(vi, count) => {
            if count == 0 && d == 0 {
                let moved = with_cur(b, 0);
                let b2 = if is_del_or_change(m) {
                    delete_span(moved, b.cur)
                } else {
                    moved
                };
                StepV { buf: b2, mode: next_vi_mode(repeat_reset(m)), hc, out: OutV::Cont(false) }
            } else {
                if count <= (u32::MAX - d) / 10 {
                    StepV { buf: b, mode: with_vi_count(m, (count * 10 + d) as u32), hc, out: OutV::Cont(false) }
                } else {
                    StepV { buf: b, mode: m, hc, out: OutV::Cont(false) }
                }
            }
        },
        ModeState::Emacs => StepV { buf: b, mode: m, hc, out: OutV::Cont(false) },
    }
}

/// What one instruction does to the machine.
pub open spec fn handle_sp(
    b: BufV,
    m: ModeState,
    hc: Option<int>,
    h: Seq<Seq<char>>,
    i: InstrV,
) -> StepV {
    match i {
        InstrV::Common(CommonInstr::Done) => StepV {
            buf: drained_sp(b),
            mode: m,
            hc,
            out: OutV::Halt(Ok(buf_text(b))),
        },
        InstrV::Common(CommonInstr::Noop) => StepV { buf: b, mode: m, hc, out: OutV::Cont(false) },
        InstrV::Common(CommonInstr::Cancel) => StepV {
            buf: b,
            mode: m,
            hc,
            out: OutV::Halt(Err(Error::Cancel)),
        },
        InstrV::Common(CommonInstr::Clear) => StepV { buf: b, mode: m, hc, out: OutV::Cont(true) },
        InstrV::DoneOrEof => {
            if b.front.len() == 0 {
                StepV { buf: b, mode: m, hc, out: OutV::Halt(Err(Error::EndOfFile)) }
            } else {
                StepV { buf: drained_sp(b), mode: m, hc, out: OutV::Halt(Ok(buf_text(b))) }
            }
        },
        InstrV::DeleteCharLeftOfCursor => StepV {
            buf: vi_repeat_motion_sp(MotionOp::DelLeft, b, m),
            mode: repeat_reset(m),
            hc,
            out: OutV::Cont(false),
        },
        InstrV::DeleteCharRightOfCursor => {
            let b2 = vi_repeat_motion_sp(MotionOp::DelRight, b, m);
            let m2 = repeat_reset(m);
            StepV { buf: ctx_excl_sp(m2, b2), mode: m2, hc, out: OutV::Cont(false) }
        },
        InstrV::DeleteCharRightOfCursorOrEOF => {
            if b.cur < b.front.len() {
                StepV {
                    buf: step_del_right_sp(b).0,
                    mode: m,
                    hc,
                    out: OutV::Cont(false),
                }
            } else {
                StepV { buf: b, mode: m, hc, out: OutV::Halt(Err(Error::EndOfFile)) }
            }
        },
        InstrV::DeleteLine => StepV {
            buf: drained_sp(b),
            mode: ModeState::Vi(ViMode::Normal, 0),
            hc,
            out: OutV::Cont(false),
        },
        InstrV::DeleteToEnd => {
            let r = to_end_sp(b, ModeState::Vi(ViMode::Delete, 0));
            StepV { buf: r.0, mode: r.1, hc, out: OutV::Cont(false) }
        },
        InstrV::ChangeLine => StepV {
            buf: drained_sp(b),
            mode: ModeState::Vi(ViMode::Insert, 0),
            hc,
            out: OutV::Cont(false),
        },
        InstrV::ChangeToEnd => {
            let r = to_end_sp(b, ModeState::Vi(ViMode::Change, 0));
            StepV { buf: r.0, mode: r.1, hc, out: OutV::Cont(false) }
        },
        InstrV::MoveCursor(mc) => move_cursor_sp(b, m, hc, mc),
        InstrV::History(hi) => {
            let r = vi_repeat_hist_sp(h, b, hc, hi == HistoryInstr::Prev, m);
            StepV { buf: r.0, mode: repeat_reset(m), hc: r.1, out: OutV::Cont(false) }
        },
        InstrV::NormalMode => StepV {
            buf: if m matches ModeState::Vi(ViMode::Insert, _) {
                step_left_sp(b).0
            } else {
                b
            },
            mode: ModeState::Vi(ViMode::Normal, 0),
            hc,
            out: OutV::Cont(false),
        },
        InstrV::ReplaceMode => StepV {
            buf: b,
            mode: with_vi_mode(m, ViMode::Replace),
            hc,
            out: OutV::Cont(false),
        },
        InstrV::MoveCharMode(t) => {
            let m2 = match m {
                ModeState::Vi(vi, _) => {
                    let vi2 = match vi {
                        ViMode::Delete => ViMode::DeleteMoveChar(t),
                        ViMode::Change => ViMode::ChangeMoveChar(t),
                        _ => ViMode::MoveChar(t),
                    };
                    with_vi_mode(m, vi2)
                },
                ModeState::Emacs => m,
            };
            StepV { buf: b, mode: m2, hc, out: OutV::Cont(false) }
        },
        InstrV::DeleteMode => StepV {
            buf: b,
            mode: with_vi_mode(m, ViMode::Delete),
            hc,
            out: OutV::Cont(false),
        },
        InstrV::ChangeMode => StepV {
            buf: b,
            mode: with_vi_mode(m, ViMode::Change),
            hc,
            out: OutV::Cont(false),
        },
        InstrV::Insert => StepV {
            buf: b,
            mode: with_vi_mode(m, ViMode::Insert),
            hc,
            out: OutV::Cont(false),
        },
        InstrV::InsertStart => StepV {
            buf: with_cur(b, 0),
            mode: with_vi_mode(m, ViMode::Insert),
            hc,
            out: OutV::Cont(false),
        },
        InstrV::Append => StepV {
            buf: step_right_sp(b).0,
            mode: with_vi_mode(m, ViMode::Insert),
            hc,
            out: OutV::Cont(false),
        },
        InstrV::AppendEnd => StepV {
            buf: with_cur(b, b.front.len()),
            mode: with_vi_mode(m, ViMode::Insert),
            hc,
            out: OutV::Cont(false),
        },
        InstrV::Digit(d) => digit_sp(b, m, hc, d),
        InstrV::MoveEndOfWordRight => word_end_fwd_sp(b, m, hc, ViMoveMode::Keyword),
        InstrV::MoveEndOfWordWsRight => word_end_fwd_sp(b, m, hc, ViMoveMode::Whitespace),
        InstrV::MoveWordRight => word_fwd_sp(b, m, hc, ViMoveMode::Keyword),
        InstrV::MoveWordWsRight => word_fwd_sp(b, m, hc, ViMoveMode::Whitespace),
        InstrV::MoveWordLeft => {
            let b2 = vi_delete_wrap_sp(m, b, MotionOp::WordEnd(ViMoveMode::Keyword, ViMoveDir::Left));
            StepV { buf: b2, mode: next_vi_mode(repeat_reset(m)), hc, out: OutV::Cont(false) }
        },
        InstrV::MoveWordWsLeft => {
            let b2 = vi_delete_wrap_sp(
                m,
                b,
                MotionOp::WordEnd(ViMoveMode::Whitespace, ViMoveDir::Left),
            );
            StepV { buf: b2, mode: next_vi_mode(repeat_reset(m)), hc, out: OutV::Cont(false) }
        },
        InstrV::MoveCharRight(c) => char_move_sp(b, m, hc, c, CharMoveType::Right),
        InstrV::MoveCharLeft(c) => char_move_sp(b, m, hc, c, CharMoveType::Left),
        InstrV::MoveBeforeCharRight(c) => char_move_sp(b, m, hc, c, CharMoveType::BeforeRight),
        InstrV::MoveBeforeCharLeft(c) => char_move_sp(b, m, hc, c, CharMoveType::BeforeLeft),
        InstrV::Substitute => StepV {
            buf: vi_repeat_motion_sp(MotionOp::DelRight, b, m),
            mode: with_vi_mode(repeat_reset(m), ViMode::Insert),
            hc,
            out: OutV::Cont(false),
        },
        InstrV::InsertAtCursor(s) => StepV {
            buf: insert_text_full_sp(b, s),
            mode: m,
            hc,
            out: OutV::Cont(false),
        },
        InstrV::ReplaceAtCursor(s) => StepV {
            buf: vi_repeat_replace_sp(s, b, m),
            mode: with_vi_mode(repeat_reset(m), ViMode::Normal),
            hc,
            out: OutV::Cont(false),
        },
    }
}


// ---------------------------------------------------------------------------
// The edit context and the instruction handler.
// ---------------------------------------------------------------------------

/// The model of an edit context.
#[verifier::ext_equal]
pub ghost struct CtxV {
    pub buf: BufV,
    pub hc: Option<int>,
    pub prompt: Seq<char>,
    pub pending: Seq<u8>,
    pub enc: Encoding,
    pub mode: ModeState,
}

/// Everything one line-read owns: the buffer, the history cursor, the
/// prompt, the pending input bytes, the input encoding and the modal
/// state.
pub struct EditCtx {
    buf: Buffer,
    history_cursor: Cursor,
    prompt: String,
    pending: Vec<u8>,
    enc: Encoding,
    mode_state: ModeState,
}

impl View for EditCtx {
    type V = CtxV;

    closed spec fn view(&self) -> CtxV {
        CtxV {
            buf: self.buf@,
            hc: self.history_cursor@,
            prompt: self.prompt@,
            pending: self.pending@,
            enc: self.enc,
            mode: self.mode_state,
        }
    }
}

/// What one editing cycle hands back: the bytes that redraw the line, or
/// the end of the read.
pub enum EditResult<C> {
    Cont(C),
    Halt(Result<String, Error>),
}

impl EditCtx {
    /// The context's bookkeeping is consistent.
    pub closed spec fn wf(&self) -> bool {
        self.buf.wf()
    }

    /// A fresh context for one line-read.
    pub fn new(prompt: String, enc: Encoding, mode: EditMode) -> (r: EditCtx)
        ensures
            r.wf(),
            r@.buf.front.len() == 0,
            r@.buf.back.len() == 0,
            r@.buf.cur == 0,
            r@.hc is None,
            r@.prompt == prompt@,
            r@.pending.len() == 0,
            r@.enc == enc,
            r@.mode == mode_state_init(mode),
    {
        EditCtx {
            buf: Buffer::new(),
            history_cursor: Cursor::new(),
            prompt,
            pending: Vec::new(),
            enc,
            mode_state: ModeState::new(mode),
        }
    }

    /// Append arriving bytes to the pending input.
    pub fn fill(&mut self, bytes: &[u8])
        requires
            old(self).wf(),
        ensures
            final(self).wf(),
            final(self)@ == (CtxV { pending: old(self)@.pending + bytes@, ..old(self)@ }),
    {
        let mut i: usize = 0;
        proof {
            assert(self@.pending =~= old(self)@.pending + bytes@.take(0));
        }
        while i < bytes.len()
            invariant
                self.wf(),
                i <= bytes@.len(),
                self@ == (CtxV { pending: old(self)@.pending + bytes@.take(i as int), ..old(self)@ }),
            decreases bytes@.len() - i,
        {
            self.pending.push(bytes[i]);
            i = i + 1;
            proof {
                assert(old(self)@.pending + bytes@.take(i as int) =~= self@.pending);
                assert(self@ =~= (CtxV {
                    pending: old(self)@.pending + bytes@.take(i as int),
                    ..old(self)@
                }));
            }
        }
        proof {
            assert(bytes@.take(bytes@.len() as int) =~= bytes@);
            assert(self@ =~= (CtxV { pending: old(self)@.pending + bytes@, ..old(self)@ }));
        }
    }
}

fn mode_is_del_or_change(m: &ModeState) -> (r: bool)
    ensures
        r == is_del_or_change(*m),
{
    match *m {
        ModeState::Vi(ViMode::Delete, _) => true,
        ModeState::Vi(ViMode::Change, _) => true,
        _ => false,
    }
}

fn next_vi_mode_exec(m: ModeState) -> (r: ModeState)
    ensures
        r == next_vi_mode(m),
{
    match m {
        ModeState::Vi(ViMode::Delete, _) => ModeState::Vi(ViMode::Normal, 0),
        ModeState::Vi(ViMode::Change, _) => ModeState::Vi(ViMode::Insert, 0),
        ModeState::Vi(ViMode::DeleteMoveChar(_), _) => ModeState::Vi(ViMode::Normal, 0),
        ModeState::Vi(ViMode::ChangeMoveChar(_), _) => ModeState::Vi(ViMode::Insert, 0),
        ModeState::Vi(_, _) => ModeState::Vi(ViMode::Normal, 0),
        ModeState::Emacs => ModeState::Emacs,
    }
}

fn with_vi_mode_exec(m: ModeState, vi_mode: ViMode) -> (r: ModeState)
    ensures
        r == with_vi_mode(m, vi_mode),
{
    match m {
        ModeState::Vi(_, count) => ModeState::Vi(vi_mode, count),
        ModeState::Emacs => m,
    }
}

fn repeat_reset_exec(m: ModeState) -> (r: ModeState)
    ensures
        r == repeat_reset(m),
{
    match m {
        ModeState::Vi(vi_mode, _) => ModeState::Vi(vi_mode, 0),
        ModeState::Emacs => m,
    }
}

/// The end-of-line exclusion, applied only in Vi normal mode.
fn ctx_exclude(buf: &mut Buffer, m: &ModeState)
    requires
        old(buf).wf(),
    ensures
        final(buf).wf(),
        final(buf)@ == ctx_excl_sp(*m, old(buf)@),
{
    match *m {
        ModeState::Vi(ViMode::Normal, _) => {
            let _was_inside = buf.exclude_eol();
            proof {
                assert(buf@ =~= ctx_excl_sp(*m, old(buf)@));
            }
        },
        _ => {
        },
    }
}

/// A motion run under the repeat count, then committed as a deletion
/// when a delete or change is pending.
fn vi_delete_motion(buf: &mut Buffer, mode_state: &mut ModeState, op: MotionOp)
    requires
        old(buf).wf(),
    ensures
        final(buf).wf(),
        final(buf)@ == vi_delete_wrap_sp(*old(mode_state), old(buf)@, op),
        *final(mode_state) == next_vi_mode(repeat_reset(*old(mode_state))),
{
    let dc = buf.start_delete();
    vi_repeat_motion(buf, mode_state, op);
    if mode_is_del_or_change(mode_state) {
        dc.delete(buf);
    } else {
        let _unused = dc;
    }
    *mode_state = next_vi_mode_exec(*mode_state);
}

fn hist_once(buf: &mut Buffer, hc: &mut Cursor, history: &History, prev: bool) -> (r: bool)
    requires
        old(buf).wf(),
    ensures
        final(buf).wf(),
        final(buf)@ == hist_step_sp(history@, old(buf)@, old(hc)@, prev).0,
        final(hc)@ == hist_step_sp(history@, old(buf)@, old(hc)@, prev).1,
        r == hist_step_sp(history@, old(buf)@, old(hc)@, prev).2,
{
    let flag = if prev {
        hc.incr(history.len())
    } else {
        hc.decr()
    };
    if flag {
        buf.swap();
        proof {
            assert(buf@ =~= swap_sp(old(buf)@));
        }
    }
    match hc.get(history) {
        Some(entry) => {
            let line = entry.clone();
            buf.replace(line.as_str());
        },
        None => {
        },
    }
    flag
}

/// History browsing under the repeat count.
fn vi_repeat_history(
    buf: &mut Buffer,
    hc: &mut Cursor,
    mode_state: &mut ModeState,
    history: &History,
    prev: bool,
)
    requires
        old(buf).wf(),
    ensures
        final(buf).wf(),
        final(buf)@ == vi_repeat_hist_sp(history@, old(buf)@, old(hc)@, prev, *old(mode_state)).0,
        final(hc)@ == vi_repeat_hist_sp(history@, old(buf)@, old(hc)@, prev, *old(mode_state)).1,
        *final(mode_state) == repeat_reset(*old(mode_state)),
{
    match *mode_state {
        ModeState::Emacs => {
            let _flag = hist_once(buf, hc, history, prev);
        },
        ModeState::Vi(vi_mode, count) => {
            if count == 0 {
                let _flag = hist_once(buf, hc, history, prev);
            } else {
                let mut i: u32 = 0;
                let ghost b0 = buf@;
                let ghost hc0 = hc@;
                let mut more = true;
                while more && i < count
                    invariant
                        buf.wf(),
                        i <= count,
                        more ==> repeat_hist_go(history@, b0, hc0, prev, count as nat)
                            == repeat_hist_go(history@, buf@, hc@, prev, (count - i) as nat),
                        !more ==> (buf@, hc@) == repeat_hist_go(
                            history@,
                            b0,
                            hc0,
                            prev,
                            count as nat,
                        ),
                    decreases count - i,
                {
                    let flag = hist_once(buf, hc, history, prev);
                    if !flag {
                        more = false;
                    }
                    i = i + 1;
                }
            }
            *mode_state = ModeState::Vi(vi_mode, 0);
        },
    }
}

fn replace_at_once(buf: &mut Buffer, s: &str) -> (r: bool)
    requires
        old(buf).wf(),
    ensures
        final(buf).wf(),
        final(buf)@ == replace_once_sp(old(buf)@, s@).0,
        r == replace_once_sp(old(buf)@, s@).1,
{
    buf.replace_chars_at_cursor(s);
    let _moved = buf.move_right();
    buf.exclude_eol()
}

/// The replace command under the repeat count.
fn vi_repeat_replace(buf: &mut Buffer, mode_state: &mut ModeState, s: &str)
    requires
        old(buf).wf(),
    ensures
        final(buf).wf(),
        final(buf)@ == vi_repeat_replace_sp(s@, old(buf)@, *old(mode_state)),
        *final(mode_state) == repeat_reset(*old(mode_state)),
{
    match *mode_state {
        ModeState::Emacs => {
            let _flag = replace_at_once(buf, s);
        },
        ModeState::Vi(vi_mode, count) => {
            if count == 0 {
                let _flag = replace_at_once(buf, s);
            } else {
                let mut i: u32 = 0;
                let ghost b0 = buf@;
                let mut more = true;
                while more && i < count
                    invariant
                        buf.wf(),
                        i <= count,
                        more ==> repeat_replace_go(s@, b0, count as nat) == repeat_replace_go(
                            s@,
                            buf@,
                            (count - i) as nat,
                        ),
                        !more ==> buf@ == repeat_replace_go(s@, b0, count as nat),
                    decreases count - i,
                {
                    let flag = replace_at_once(buf, s);
                    if !flag {
                        more = false;
                    }
                    i = i + 1;
                }
            }
            *mode_state = ModeState::Vi(vi_mode, 0);
        },
    }
}

/// Whether an executable outcome means what the model's outcome says.
pub open spec fn out_matches(r: EditResult<bool>, o: OutV) -> bool {
    match r {
        EditResult::Cont(c) => o == OutV::Cont(c),
        EditResult::Halt(res) => match res {
            Ok(line) => (o matches OutV::Halt(o2) && o2 matches Ok(sv) && line@ == sv),
            Err(e) => o == OutV::Halt(Result::<Seq<char>, Error>::Err(e)),
        },
    }
}


/// What the handler promises: the context steps as the transition model
/// says, and nothing else of it changes.
pub open spec fn handle_post(
    pre: CtxV,
    post: CtxV,
    h: Seq<Seq<char>>,
    i: InstrV,
    r: EditResult<bool>,
) -> bool {
    let st = handle_sp(pre.buf, pre.mode, pre.hc, h, i);
    &&& post.buf == st.buf
    &&& post.mode == st.mode
    &&& post.hc == st.hc
    &&& out_matches(r, st.out)
    &&& post.prompt == pre.prompt
    &&& post.pending == pre.pending
    &&& post.enc == pre.enc
}

/// Apply one instruction to the context.
pub fn handle(ctx: &mut EditCtx, history: &History, ins: Instr) -> (r: EditResult<bool>)
    requires
        old(ctx).wf(),
    ensures
        final(ctx).wf(),
        handle_post(old(ctx)@, final(ctx)@, history@, ins@, r),
{
    match ins {
        Instr::Common(_) => handle_line(ctx, ins),
        Instr::DoneOrEof => handle_line(ctx, ins),
        Instr::DeleteCharLeftOfCursor => handle_line(ctx, ins),
        Instr::DeleteCharRightOfCursor => handle_line(ctx, ins),
        Instr::DeleteCharRightOfCursorOrEOF => handle_line(ctx, ins),
        Instr::DeleteLine => handle_line(ctx, ins),
        Instr::DeleteToEnd => handle_line(ctx, ins),
        Instr::ChangeLine => handle_line(ctx, ins),
        Instr::ChangeToEnd => handle_line(ctx, ins),
        Instr::Substitute => handle_line(ctx, ins),
        Instr::InsertAtCursor(_) => handle_line(ctx, ins),
        Instr::ReplaceAtCursor(_) => handle_line(ctx, ins),
        Instr::NormalMode => handle_modes(ctx, ins),
        Instr::ReplaceMode => handle_modes(ctx, ins),
        Instr::MoveCharMode(_) => handle_modes(ctx, ins),
        Instr::DeleteMode => handle_modes(ctx, ins),
        Instr::ChangeMode => handle_modes(ctx, ins),
        Instr::Insert => handle_modes(ctx, ins),
        Instr::InsertStart => handle_modes(ctx, ins),
        Instr::Append => handle_modes(ctx, ins),
        Instr::AppendEnd => handle_modes(ctx, ins),
        Instr::Digit(_) => handle_modes(ctx, ins),
        Instr::MoveCursor(_) => handle_motion(ctx, history, ins),
        Instr::History(_) => handle_motion(ctx, history, ins),
        Instr::MoveEndOfWordRight => handle_motion(ctx, history, ins),
        Instr::MoveEndOfWordWsRight => handle_motion(ctx, history, ins),
        Instr::MoveWordRight => handle_motion(ctx, history, ins),
        Instr::MoveWordWsRight => handle_motion(ctx, history, ins),
        Instr::MoveWordLeft => handle_motion(ctx, history, ins),
        Instr::MoveWordWsLeft => handle_motion(ctx, history, ins),
        Instr::MoveCharRight(_) => handle_motion(ctx, history, ins),
        Instr::MoveCharLeft(_) => handle_motion(ctx, history, ins),
        Instr::MoveBeforeCharRight(_) => handle_motion(ctx, history, ins),
        Instr::MoveBeforeCharLeft(_) => handle_motion(ctx, history, ins),
    }
}

/// The instructions that finish the line or edit its text in place.
#[verifier::rlimit(60)]
fn handle_line(ctx: &mut EditCtx, ins: Instr) -> (r: EditResult<bool>)
    requires
        old(ctx).wf(),
        ins@ matches InstrV::Common(_) || ins@ == InstrV::DoneOrEof || ins@
            == InstrV::DeleteCharLeftOfCursor || ins@ == InstrV::DeleteCharRightOfCursor || ins@
            == InstrV::DeleteCharRightOfCursorOrEOF || ins@ == InstrV::DeleteLine || ins@
            == InstrV::DeleteToEnd || ins@ == InstrV::ChangeLine || ins@ == InstrV::ChangeToEnd
            || ins@ == InstrV::Substitute || ins@ matches InstrV::InsertAtCursor(_) || ins@
            matches InstrV::ReplaceAtCursor(_),
    ensures
        final(ctx).wf(),
        forall|h: Seq<Seq<char>>| handle_post(old(ctx)@, final(ctx)@, h, ins@, r),
{
    let ghost b0 = ctx@.buf;
    match ins {
        Instr::Common(CommonInstr::Done) => {
            let line = ctx.buf.drain();
            proof {
                assert(ctx@.buf =~= drained_sp(b0));
            }
            EditResult::Halt(Ok(line))
        },
        Instr::Common(CommonInstr::Noop) => EditResult::Cont(false),
        Instr::Common(CommonInstr::Cancel) => EditResult::Halt(Err(Error::Cancel)),
        Instr::Common(CommonInstr::Clear) => EditResult::Cont(true),
        Instr::DoneOrEof => {
            if ctx.buf.is_empty() {
                EditResult::Halt(Err(Error::EndOfFile))
            } else {
                let line = ctx.buf.drain();
                proof {
                    assert(ctx@.buf =~= drained_sp(b0));
                }
                EditResult::Halt(Ok(line))
            }
        },
        Instr::DeleteCharLeftOfCursor => {
            vi_repeat_motion(&mut ctx.buf, &mut ctx.mode_state, MotionOp::DelLeft);
            EditResult::Cont(false)
        },
        Instr::DeleteCharRightOfCursor => {
            vi_repeat_motion(&mut ctx.buf, &mut ctx.mode_state, MotionOp::DelRight);
            ctx_exclude(&mut ctx.buf, &ctx.mode_state);
            EditResult::Cont(false)
        },
        Instr::DeleteCharRightOfCursorOrEOF => {
            if !ctx.buf.delete_char_right_of_cursor() {
                EditResult::Halt(Err(Error::EndOfFile))
            } else {
                proof {
                    assert(ctx@.buf =~= step_del_right_sp(b0).0);
                }
                EditResult::Cont(false)
            }
        },
        Instr::DeleteLine => {
            let _line = ctx.buf.drain();
            ctx.mode_state = ModeState::Vi(ViMode::Normal, 0);
            proof {
                assert(ctx@.buf =~= drained_sp(b0));
            }
            EditResult::Cont(false)
        },
        Instr::DeleteToEnd => {
            ctx.mode_state = ModeState::Vi(ViMode::Delete, 0);
            let dc = ctx.buf.start_delete();
            ctx.buf.move_end();
            proof {
                assert(ctx@.buf =~= with_cur(b0, b0.front.len()));
            }
            if mode_is_del_or_change(&ctx.mode_state) {
                dc.delete(&mut ctx.buf);
            } else {
                let _unused = dc;
            }
            ctx.mode_state = next_vi_mode_exec(ctx.mode_state);
            ctx_exclude(&mut ctx.buf, &ctx.mode_state);
            EditResult::Cont(false)
        },
        Instr::ChangeLine => {
            let _line = ctx.buf.drain();
            ctx.mode_state = ModeState::Vi(ViMode::Insert, 0);
            proof {
                assert(ctx@.buf =~= drained_sp(b0));
            }
            EditResult::Cont(false)
        },
        Instr::ChangeToEnd => {
            ctx.mode_state = ModeState::Vi(ViMode::Change, 0);
            let dc = ctx.buf.start_delete();
            ctx.buf.move_end();
            proof {
                assert(ctx@.buf =~= with_cur(b0, b0.front.len()));
            }
            if mode_is_del_or_change(&ctx.mode_state) {
                dc.delete(&mut ctx.buf);
            } else {
                let _unused = dc;
            }
            ctx.mode_state = next_vi_mode_exec(ctx.mode_state);
            ctx_exclude(&mut ctx.buf, &ctx.mode_state);
            EditResult::Cont(false)
        },
        Instr::Substitute => {
            vi_repeat_motion(&mut ctx.buf, &mut ctx.mode_state, MotionOp::DelRight);
            ctx.mode_state = with_vi_mode_exec(ctx.mode_state, ViMode::Insert);
            EditResult::Cont(false)
        },
        Instr::InsertAtCursor(text) => {
            ctx.buf.insert_chars_at_cursor(text.as_str());
            EditResult::Cont(false)
        },
        Instr::ReplaceAtCursor(text) => {
            vi_repeat_replace(&mut ctx.buf, &mut ctx.mode_state, text.as_str());
            ctx.mode_state = with_vi_mode_exec(ctx.mode_state, ViMode::Normal);
            EditResult::Cont(false)
        },
        _ => EditResult::Cont(false),
    }
}

/// The instructions that only switch modes or grow the count, some with
/// a cursor jump.
#[verifier::rlimit(60)]
fn handle_modes(ctx: &mut EditCtx, ins: Instr) -> (r: EditResult<bool>)
    requires
        old(ctx).wf(),
        ins@ == InstrV::NormalMode || ins@ == InstrV::ReplaceMode || ins@
            matches InstrV::MoveCharMode(_) || ins@ == InstrV::DeleteMode || ins@
            == InstrV::ChangeMode || ins@ == InstrV::Insert || ins@ == InstrV::InsertStart || ins@
            == InstrV::Append || ins@ == InstrV::AppendEnd || ins@ matches InstrV::Digit(_),
    ensures
        final(ctx).wf(),
        forall|h: Seq<Seq<char>>| handle_post(old(ctx)@, final(ctx)@, h, ins@, r),
{
    let ghost b0 = ctx@.buf;
    match ins {
        Instr::NormalMode => {
            match ctx.mode_state {
                ModeState::Vi(ViMode::Insert, _) => {
                    let _moved = ctx.buf.move_left();
                    proof {
                        assert(ctx@.buf =~= step_left_sp(b0).0);
                    }
                },
                _ => {
                },
            }
            ctx.mode_state = ModeState::Vi(ViMode::Normal, 0);
            EditResult::Cont(false)
        },
        Instr::ReplaceMode => {
            ctx.mode_state = with_vi_mode_exec(ctx.mode_state, ViMode::Replace);
            EditResult::Cont(false)
        },
        Instr::MoveCharMode(t) => {
            match ctx.mode_state {
                ModeState::Vi(vi_mode, _) => {
                    let vi2 = match vi_mode {
                        ViMode::Delete => ViMode::DeleteMoveChar(t),
                        ViMode::Change => ViMode::ChangeMoveChar(t),
                        _ => ViMode::MoveChar(t),
                    };
                    ctx.mode_state = with_vi_mode_exec(ctx.mode_state, vi2);
                },
                ModeState::Emacs => {
                },
            }
            EditResult::Cont(false)
        },
        Instr::DeleteMode => {
            ctx.mode_state = with_vi_mode_exec(ctx.mode_state, ViMode::Delete);
            EditResult::Cont(false)
        },
        Instr::ChangeMode => {
            ctx.mode_state = with_vi_mode_exec(ctx.mode_state, ViMode::Change);
            EditResult::Cont(false)
        },
        Instr::Insert => {
            ctx.mode_state = with_vi_mode_exec(ctx.mode_state, ViMode::Insert);
            EditResult::Cont(false)
        },
        Instr::InsertStart => {
            ctx.mode_state = with_vi_mode_exec(ctx.mode_state, ViMode::Insert);
            ctx.buf.move_start();
            proof {
                assert(ctx@.buf =~= with_cur(b0, 0));
            }
            EditResult::Cont(false)
        },
        Instr::Append => {
            ctx.mode_state = with_vi_mode_exec(ctx.mode_state, ViMode::Insert);
            let _moved = ctx.buf.move_right();
            proof {
                assert(ctx@.buf =~= step_right_sp(b0).0);
            }
            EditResult::Cont(false)
        },
        Instr::AppendEnd => {
            ctx.mode_state = with_vi_mode_exec(ctx.mode_state, ViMode::Insert);
            ctx.buf.move_end();
            proof {
                assert(ctx@.buf =~= with_cur(b0, b0.front.len()));
            }
            EditResult::Cont(false)
        },
        Instr::Digit(d) => {
            match ctx.mode_state {
                ModeState::Vi(_, count) => {
                    if count == 0 && d == 0 {
                        let dc = ctx.buf.start_delete();
                        ctx.buf.move_start();
                        proof {
                            assert(ctx@.buf =~= with_cur(b0, 0));
                        }
                        if mode_is_del_or_change(&ctx.mode_state) {
                            dc.delete(&mut ctx.buf);
                        } else {
                            let _unused = dc;
                        }
                        ctx.mode_state = next_vi_mode_exec(ctx.mode_state);
                    } else {
                        if count <= (u32::MAX - d) / 10 {
                            ctx.mode_state = match ctx.mode_state {
                                ModeState::Vi(vi_mode, _) => ModeState::Vi(vi_mode, count * 10 + d),
                                ModeState::Emacs => ctx.mode_state,
                            };
                        }
                    }
                },
                ModeState::Emacs => {
                },
            }
            EditResult::Cont(false)
        },
        _ => EditResult::Cont(false),
    }
}

/// The motion instructions, wrapped for pending deletes and changes.
#[verifier::rlimit(60)]
fn handle_motion(ctx: &mut EditCtx, history: &History, ins: Instr) -> (r: EditResult<bool>)
    requires
        old(ctx).wf(),
        ins@ matches InstrV::MoveCursor(_) || ins@ matches InstrV::History(_) || ins@
            == InstrV::MoveEndOfWordRight || ins@ == InstrV::MoveEndOfWordWsRight || ins@
            == InstrV::MoveWordRight || ins@ == InstrV::MoveWordWsRight || ins@
            == InstrV::MoveWordLeft || ins@ == InstrV::MoveWordWsLeft || ins@
            matches InstrV::MoveCharRight(_) || ins@ matches InstrV::MoveCharLeft(_) || ins@
            matches InstrV::MoveBeforeCharRight(_) || ins@ matches InstrV::MoveBeforeCharLeft(_),
    ensures
        final(ctx).wf(),
        handle_post(old(ctx)@, final(ctx)@, history@, ins@, r),
{
    let ghost b0 = ctx@.buf;
    match ins {
        Instr::MoveCursor(MoveCursorInstr::Left) => {
            vi_delete_motion(&mut ctx.buf, &mut ctx.mode_state, MotionOp::StepLeft);
            EditResult::Cont(false)
        },
        Instr::MoveCursor(MoveCursorInstr::Right) => {
            vi_delete_motion(&mut ctx.buf, &mut ctx.mode_state, MotionOp::StepRight);
            ctx_exclude(&mut ctx.buf, &ctx.mode_state);
            EditResult::Cont(false)
        },
        Instr::MoveCursor(MoveCursorInstr::Start) => {
            let dc = ctx.buf.start_delete();
            ctx.buf.move_start();
            proof {
                assert(ctx@.buf =~= with_cur(b0, 0));
            }
            if mode_is_del_or_change(&ctx.mode_state) {
                dc.delete(&mut ctx.buf);
            } else {
                let _unused = dc;
            }
            ctx.mode_state = next_vi_mode_exec(ctx.mode_state);
            EditResult::Cont(false)
        },
        Instr::MoveCursor(MoveCursorInstr::End) => {
            let dc = ctx.buf.start_delete();
            ctx.buf.move_end();
            ctx.mode_state = repeat_reset_exec(ctx.mode_state);
            proof {
                assert(ctx@.buf =~= with_cur(b0, b0.front.len()));
            }
            if mode_is_del_or_change(&ctx.mode_state) {
                dc.delete(&mut ctx.buf);
            } else {
                let _unused = dc;
            }
            ctx.mode_state = next_vi_mode_exec(ctx.mode_state);
            ctx_exclude(&mut ctx.buf, &ctx.mode_state);
            EditResult::Cont(false)
        },
        Instr::History(hinstr) => {
            let prev = match hinstr {
                HistoryInstr::Prev => true,
                HistoryInstr::Next => false,
            };
            vi_repeat_history(
                &mut ctx.buf,
                &mut ctx.history_cursor,
                &mut ctx.mode_state,
                history,
                prev,
            );
            EditResult::Cont(false)
        },
        Instr::MoveEndOfWordRight => {
            handle_word_end_fwd(ctx, ViMoveMode::Keyword);
            EditResult::Cont(false)
        },
        Instr::MoveEndOfWordWsRight => {
            handle_word_end_fwd(ctx, ViMoveMode::Whitespace);
            EditResult::Cont(false)
        },
        Instr::MoveWordRight => {
            handle_word_fwd(ctx, ViMoveMode::Keyword);
            EditResult::Cont(false)
        },
        Instr::MoveWordWsRight => {
            handle_word_fwd(ctx, ViMoveMode::Whitespace);
            EditResult::Cont(false)
        },
        Instr::MoveWordLeft => {
            vi_delete_motion(
                &mut ctx.buf,
                &mut ctx.mode_state,
                MotionOp::WordEnd(ViMoveMode::Keyword, ViMoveDir::Left),
            );
            EditResult::Cont(false)
        },
        Instr::MoveWordWsLeft => {
            vi_delete_motion(
                &mut ctx.buf,
                &mut ctx.mode_state,
                MotionOp::WordEnd(ViMoveMode::Whitespace, ViMoveDir::Left),
            );
            EditResult::Cont(false)
        },
        Instr::MoveCharRight(c) => {
            handle_char_move(ctx, c, CharMoveType::Right);
            EditResult::Cont(false)
        },
        Instr::MoveCharLeft(c) => {
            handle_char_move(ctx, c, CharMoveType::Left);
            EditResult::Cont(false)
        },
        Instr::MoveBeforeCharRight(c) => {
            handle_char_move(ctx, c, CharMoveType::BeforeRight);
            EditResult::Cont(false)
        },
        Instr::MoveBeforeCharLeft(c) => {
            handle_char_move(ctx, c, CharMoveType::BeforeLeft);
            EditResult::Cont(false)
        },
        _ => EditResult::Cont(false),
    }
}

/// The end-of-word motions, with the inclusive deletion of a pending
/// delete or change.
fn handle_word_end_fwd(ctx: &mut EditCtx, wmode: ViMoveMode)
    requires
        old(ctx).wf(),
    ensures
        final(ctx).wf(),
        ({
            let st = word_end_fwd_sp(old(ctx)@.buf, old(ctx)@.mode, old(ctx)@.hc, wmode);
            &&& final(ctx)@.buf == st.buf
            &&& final(ctx)@.mode == st.mode
            &&& final(ctx)@.hc == old(ctx)@.hc
            &&& final(ctx)@.prompt == old(ctx)@.prompt
            &&& final(ctx)@.pending == old(ctx)@.pending
            &&& final(ctx)@.enc == old(ctx)@.enc
        }),
{
    let ghost b0 = ctx@.buf;
    let dc = ctx.buf.start_delete();
    vi_repeat_motion(
        &mut ctx.buf,
        &mut ctx.mode_state,
        MotionOp::WordEnd(wmode, ViMoveDir::Right),
    );
    if mode_is_del_or_change(&ctx.mode_state) {
        let ghost moved = ctx@.buf;
        let _inclusive = ctx.buf.move_right();
        proof {
            assert(ctx@.buf =~= step_right_sp(moved).0);
        }
        dc.delete(&mut ctx.buf);
        ctx.mode_state = next_vi_mode_exec(ctx.mode_state);
    } else {
        let _unused = dc;
    }
    ctx_exclude(&mut ctx.buf, &ctx.mode_state);
}

/// The word-forward motions, with the change-word whitespace rule.
fn handle_word_fwd(ctx: &mut EditCtx, wmode: ViMoveMode)
    requires
        old(ctx).wf(),
    ensures
        final(ctx).wf(),
        ({
            let st = word_fwd_sp(old(ctx)@.buf, old(ctx)@.mode, old(ctx)@.hc, wmode);
            &&& final(ctx)@.buf == st.buf
            &&& final(ctx)@.mode == st.mode
            &&& final(ctx)@.hc == old(ctx)@.hc
            &&& final(ctx)@.prompt == old(ctx)@.prompt
            &&& final(ctx)@.pending == old(ctx)@.pending
            &&& final(ctx)@.enc == old(ctx)@.enc
        }),
{
    let ghost b0 = ctx@.buf;
    let dc = ctx.buf.start_delete();
    vi_repeat_motion(&mut ctx.buf, &mut ctx.mode_state, MotionOp::Word(wmode, ViMoveDir::Right));
    match ctx.mode_state {
        ModeState::Vi(ViMode::Delete, _) => {
            dc.delete(&mut ctx.buf);
        },
        ModeState::Vi(ViMode::Change, _) => {
            let ghost moved = ctx@.buf;
            if !dc.started_on_whitespace() && ctx.buf.move_right() {
                proof {
                    assert(ctx@.buf =~= step_right_sp(moved).0);
                }
                let _back = motion_once(&mut ctx.buf, MotionOp::Word(wmode, ViMoveDir::Left));
                let ghost a2 = ctx@.buf;
                let _fwd = ctx.buf.move_right();
                proof {
                    assert(ctx@.buf =~= step_right_sp(a2).0);
                }
            } else {
                proof {
                    assert(ctx@.buf == moved);
                }
            }
            dc.delete(&mut ctx.buf);
        },
        _ => {
            let _unused = dc;
        },
    }
    ctx.mode_state = next_vi_mode_exec(ctx.mode_state);
    ctx_exclude(&mut ctx.buf, &ctx.mode_state);
}

/// The character-search motions, with the pending delete or change
/// variants.
fn handle_char_move(ctx: &mut EditCtx, c: char, t: CharMoveType)
    requires
        old(ctx).wf(),
    ensures
        final(ctx).wf(),
        ({
            let st = char_move_sp(old(ctx)@.buf, old(ctx)@.mode, old(ctx)@.hc, c, t);
            &&& final(ctx)@.buf == st.buf
            &&& final(ctx)@.mode == st.mode
            &&& final(ctx)@.hc == old(ctx)@.hc
            &&& final(ctx)@.prompt == old(ctx)@.prompt
            &&& final(ctx)@.pending == old(ctx)@.pending
            &&& final(ctx)@.enc == old(ctx)@.enc
        }),
{
    let ghost b0 = ctx@.buf;
    match ctx.mode_state {
        ModeState::Vi(vi_mode, count) => {
            let n: u32 = if count == 0 {
                1
            } else {
                count
            };
            let is_dc = match vi_mode {
                ViMode::DeleteMoveChar(_) => true,
                ViMode::ChangeMoveChar(_) => true,
                _ => false,
            };
            let dc = ctx.buf.start_delete();
            match t {
                CharMoveType::Right => {
                    let _found = ctx.buf.move_to_char_right(c, n);
                    if is_dc {
                        let ghost b1 = ctx@.buf;
                        let _inclusive = ctx.buf.move_right();
                        proof {
                            assert(ctx@.buf =~= step_right_sp(b1).0);
                        }
                        dc.delete(&mut ctx.buf);
                    } else {
                        let _unused = dc;
                    }
                },
                CharMoveType::Left => {
                    let _found = ctx.buf.move_to_char_left(c, n);
                    if is_dc {
                        dc.delete(&mut ctx.buf);
                    } else {
                        let _unused = dc;
                    }
                },
                CharMoveType::BeforeRight => {
                    if ctx.buf.move_to_char_right(c, n) {
                        let ghost b1 = ctx@.buf;
                        let _short = ctx.buf.move_left();
                        proof {
                            assert(ctx@.buf =~= step_left_sp(b1).0);
                        }
                        if is_dc {
                            let ghost b2 = ctx@.buf;
                            let _inclusive = ctx.buf.move_right();
                            proof {
                                assert(ctx@.buf =~= step_right_sp(b2).0);
                            }
                            dc.delete(&mut ctx.buf);
                        } else {
                            let _unused = dc;
                        }
                    } else {
                        let _unused = dc;
                    }
                },
                CharMoveType::BeforeLeft => {
                    if ctx.buf.move_to_char_left(c, n) {
                        let ghost b1 = ctx@.buf;
                        let _fwd = ctx.buf.move_right();
                        proof {
                            assert(ctx@.buf =~= step_right_sp(b1).0);
                        }
                        if is_dc {
                            dc.delete(&mut ctx.buf);
                        } else {
                            let _unused = dc;
                        }
                    } else {
                        let _unused = dc;
                    }
                },
            }
        },
        ModeState::Emacs => {
        },
    }
    ctx.mode_state = next_vi_mode_exec(ctx.mode_state);
    match t {
        CharMoveType::Right => {
            ctx_exclude(&mut ctx.buf, &ctx.mode_state);
        },
        _ => {
        },
    }
}


/// The pending bytes with a recognized or discarded prefix removed; a
/// count beyond the window empties it.
pub open spec fn drop_front_sp(v: Seq<u8>, n: int) -> Seq<u8> {
    if n <= v.len() {
        v.skip(if n < 0 {
            0
        } else {
            n
        })
    } else {
        Seq::empty()
    }
}

/// What one editing cycle hands back in the model.
pub ghost enum EditOutV {
    Cont(Seq<u8>),
    Halt(Result<Seq<char>, Error>),
}

/// One editing cycle: recognize a token in the pending bytes, interpret
/// it under the mode, apply it, drop the consumed bytes, and render the
/// line; a malformed prefix is dropped instead, and missing bytes leave
/// everything as it was.  The second component is what the cycle hands
/// back.
pub open spec fn edit_sp(c: CtxV, h: Seq<Seq<char>>) -> (CtxV, EditOutV) {
    match parse_spec(c.pending, c.enc) {
        Result::Err(ParseError::Error(n)) => {
            let c2 = CtxV { pending: drop_front_sp(c.pending, n as int), ..c };
            (c2, EditOutV::Cont(render_line(c.buf, c.prompt, false)))
        },
        Result::Err(ParseError::Incomplete) => (
            c,
            EditOutV::Cont(render_line(c.buf, c.prompt, false)),
        ),
        Result::Ok(tn) => {
            let st = handle_sp(c.buf, c.mode, c.hc, h, interpret_spec(tn.0, c.mode));
            let c2 = CtxV {
                buf: st.buf,
                hc: st.hc,
                prompt: c.prompt,
                pending: drop_front_sp(c.pending, tn.1),
                enc: c.enc,
                mode: st.mode,
            };
            match st.out {
                OutV::Cont(clear) => (c2, EditOutV::Cont(render_line(st.buf, c.prompt, clear))),
                OutV::Halt(res) => (c2, EditOutV::Halt(res)),
            }
        },
    }
}

/// Whether an executable cycle outcome means what the model's says.
pub open spec fn edit_out_matches(r: EditResult<Vec<u8>>, o: EditOutV) -> bool {
    match r {
        EditResult::Cont(bytes) => (o matches EditOutV::Cont(bv) && bytes@ == bv),
        EditResult::Halt(res) => match res {
            Ok(line) => (o matches EditOutV::Halt(o2) && o2 matches Ok(sv) && line@ == sv),
            Err(e) => o == EditOutV::Halt(Result::<Seq<char>, Error>::Err(e)),
        },
    }
}

fn drop_front(pending: &mut Vec<u8>, n: usize)
    ensures
        final(pending)@ == drop_front_sp(old(pending)@, n as int),
{
    let ghost orig = pending@;
    let mut i: usize = 0;
    proof {
        assert(pending@ =~= drop_front_sp(orig, 0));
    }
    while i < n && pending.len() > 0
        invariant
            i <= n,
            pending@ == drop_front_sp(orig, i as int),
        decreases n - i,
    {
        let _b = pending.remove(0);
        i = i + 1;
        proof {
            assert(pending@ =~= drop_front_sp(orig, i as int));
        }
    }
    proof {
        if i < n {
            assert(pending@.len() == 0);
            assert(pending@ =~= drop_front_sp(orig, n as int));
        }
    }
}

/// Run one editing cycle: the context consumes what it can of its
/// pending bytes and either hands back the bytes that redraw the line or
/// ends the read.
pub fn edit(ctx: &mut EditCtx, history: &History) -> (r: EditResult<Vec<u8>>)
    requires
        old(ctx).wf(),
    ensures
        final(ctx).wf(),
        final(ctx)@ == edit_sp(old(ctx)@, history@).0,
        edit_out_matches(r, edit_sp(old(ctx)@, history@).1),
{
    let parsed = parse(pending_slice(ctx), ctx.enc);
    match parsed {
        Err(ParseError::Error(len)) => {
            drop_front(&mut ctx.pending, len);
            proof {
                assert(ctx@ =~= edit_sp(old(ctx)@, history@).0);
            }
            EditResult::Cont(ctx.buf.get_line(ctx.prompt.as_str(), false))
        },
        Err(ParseError::Incomplete) => {
            EditResult::Cont(ctx.buf.get_line(ctx.prompt.as_str(), false))
        },
        Ok(ParseSuccess(token, len)) => {
            let ins = interpret_token(token, ctx.mode_state);
            let res = handle(ctx, history, ins);
            drop_front(&mut ctx.pending, len);
            proof {
                assert(ctx@ =~= edit_sp(old(ctx)@, history@).0);
            }
            match res {
                EditResult::Cont(clear) => {
                    EditResult::Cont(ctx.buf.get_line(ctx.prompt.as_str(), clear))
                },
                EditResult::Halt(out) => EditResult::Halt(out),
            }
        },
    }
}

fn pending_slice<'a>(ctx: &'a EditCtx) -> (r: &'a [u8])
    ensures
        r@ == ctx@.pending,
{
    ctx.pending.as_slice()
}


// ---------------------------------------------------------------------------
// Laws.
// ---------------------------------------------------------------------------

proof fn lemma_repeat_right(b: BufV, k: nat)
    requires
        b.cur <= b.front.len(),
    ensures
        repeat_motion_go(MotionOp::StepRight, b, k) == with_cur(
            b,
            if b.cur + k <= b.front.len() {
                b.cur + k
            } else {
                b.front.len()
            },
        ),
    decreases k,
{
    if k == 0 {
        assert(repeat_motion_go(MotionOp::StepRight, b, k) =~= with_cur(b, b.cur));
    } else {
        if b.cur < b.front.len() {
            lemma_repeat_right(with_cur(b, b.cur + 1), (k - 1) as nat);
        } else {
            assert(repeat_motion_go(MotionOp::StepRight, b, k) =~= with_cur(b, b.front.len()));
        }
    }
}

proof fn lemma_repeat_left(b: BufV, k: nat)
    ensures
        repeat_motion_go(MotionOp::StepLeft, b, k) == with_cur(
            b,
            if b.cur >= k {
                (b.cur - k) as nat
            } else {
                0
            },
        ),
    decreases k,
{
    if k == 0 {
        assert(repeat_motion_go(MotionOp::StepLeft, b, k) =~= with_cur(b, b.cur));
    } else {
        if b.cur > 0 {
            lemma_repeat_left(with_cur(b, (b.cur - 1) as nat), (k - 1) as nat);
        } else {
            assert(repeat_motion_go(MotionOp::StepLeft, b, k) =~= with_cur(b, 0));
        }
    }
}

/// Law: from the start of the line, stepping right once per cell of the
/// line and then left the same number of times changes nothing: the
/// cursor is back at the start and the line is untouched.
pub proof fn lemma_round_trip_navigation(b: BufV)
    requires
        b.cur == 0,
    ensures
        ({
            let n = b.front.len();
            let fwd = repeat_motion_go(MotionOp::StepRight, b, n);
            &&& fwd.cur == n
            &&& repeat_motion_go(MotionOp::StepLeft, fwd, n) == b
        }),
{
    let n = b.front.len();
    lemma_repeat_right(b, n);
    let fwd = repeat_motion_go(MotionOp::StepRight, b, n);
    lemma_repeat_left(fwd, n);
    assert(repeat_motion_go(MotionOp::StepLeft, fwd, n) =~= b);
}


/// Whether the next `n` runs of a motion each succeed.
pub open spec fn steps_ok(op: MotionOp, b: BufV, n: nat) -> bool
    decreases n,
{
    if n == 0 {
        true
    } else {
        let s = motion_step_sp(op, b);
        s.1 && steps_ok(op, s.0, (n - 1) as nat)
    }
}

proof fn lemma_steps_ok_snoc(op: MotionOp, b: BufV, n: nat)
    requires
        steps_ok(op, b, n),
        motion_step_sp(op, repeat_motion_go(op, b, n)).1,
    ensures
        steps_ok(op, b, n + 1),
    decreases n,
{
    if n == 0 {
        assert(repeat_motion_go(op, b, 0) == b);
        assert(steps_ok(op, motion_step_sp(op, b).0, 0));
    } else {
        assert(motion_step_sp(op, b).1);
        assert(repeat_motion_go(op, b, n) == repeat_motion_go(
            op,
            motion_step_sp(op, b).0,
            (n - 1) as nat,
        ));
        lemma_steps_ok_snoc(op, motion_step_sp(op, b).0, (n - 1) as nat);
    }
}

/// When the first `n` runs succeed, one more run applies to their result.
proof fn lemma_repeat_snoc(op: MotionOp, b: BufV, n: nat)
    requires
        steps_ok(op, b, n),
    ensures
        repeat_motion_go(op, b, n + 1) == motion_step_sp(op, repeat_motion_go(op, b, n)).0,
    decreases n,
{
    if n == 0 {
        reveal_with_fuel(repeat_motion_go, 2);
        assert(repeat_motion_go(op, b, 0) == b);
        assert(repeat_motion_go(op, b, 1) == motion_step_sp(op, b).0);
    } else {
        assert(motion_step_sp(op, b).1);
        assert(repeat_motion_go(op, b, n + 1) == repeat_motion_go(
            op,
            motion_step_sp(op, b).0,
            n as nat,
        ));
        assert(repeat_motion_go(op, b, n) == repeat_motion_go(
            op,
            motion_step_sp(op, b).0,
            (n - 1) as nat,
        ));
        lemma_repeat_snoc(op, motion_step_sp(op, b).0, (n - 1) as nat);
    }
}

/// Law: over a line of whitespace-delimited keyword cells, with the
/// cursor on a word start, any number of word-forward motions that each
/// find a word are undone exactly by the same number of word-back
/// motions: the two are inverses.
pub proof fn lemma_word_motion_symmetry(b: BufV, n: nat)
    requires
        two_class(b.front),
        word_start(b.front, b.cur),
        steps_ok(MotionOp::Word(ViMoveMode::Keyword, ViMoveDir::Right), b, n),
    ensures
        ({
            let fwd = repeat_motion_go(MotionOp::Word(ViMoveMode::Keyword, ViMoveDir::Right), b, n);
            &&& repeat_motion_go(MotionOp::WordEnd(ViMoveMode::Keyword, ViMoveDir::Left), fwd, n)
                == b
            &&& (n >= 1 ==> steps_ok(
                MotionOp::WordEnd(ViMoveMode::Keyword, ViMoveDir::Left),
                fwd,
                (n - 1) as nat,
            ))
            &&& (n >= 1 && b.cur > 0 ==> steps_ok(
                MotionOp::WordEnd(ViMoveMode::Keyword, ViMoveDir::Left),
                fwd,
                n,
            ))
        }),
    decreases n,
{
    let fop = MotionOp::Word(ViMoveMode::Keyword, ViMoveDir::Right);
    let bop = MotionOp::WordEnd(ViMoveMode::Keyword, ViMoveDir::Left);
    if n == 0 {
    } else {
        let f = word_motion(b.front, b.cur, ViMoveMode::Keyword, ViMoveDir::Right);
        lemma_word_symmetry_step(b.front, b.cur);
        assert(f.1);
        let b1 = with_cur(b, f.0);
        assert(motion_step_sp(fop, b) == (b1, true));
        assert(repeat_motion_go(fop, b, n) == repeat_motion_go(fop, b1, (n - 1) as nat));
        lemma_word_motion_symmetry(b1, (n - 1) as nat);
        let fwd = repeat_motion_go(fop, b1, (n - 1) as nat);
        // One back run from the position after the forward run lands on
        // this word start again.
        assert(motion_step_sp(bop, b1) == (with_cur(b1, b.cur), b.cur > 0));
        assert(with_cur(b1, b.cur) =~= b);
        if n == 1 {
            assert(fwd == b1);
            lemma_repeat_snoc(bop, fwd, 0);
            assert(repeat_motion_go(bop, fwd, 1) == b);
            if b.cur > 0 {
                assert(motion_step_sp(bop, fwd).1);
                assert(steps_ok(bop, motion_step_sp(bop, fwd).0, 0));
                assert(steps_ok(bop, fwd, 1));
            }
        } else {
            // The inner runs end on word starts right of this one, so
            // every inner back run succeeds.
            assert(b1.cur > 0);
            assert(steps_ok(bop, fwd, (n - 1) as nat));
            assert(repeat_motion_go(bop, fwd, (n - 1) as nat) == b1);
            lemma_repeat_snoc(bop, fwd, (n - 1) as nat);
            assert(repeat_motion_go(bop, fwd, n as nat) == motion_step_sp(bop, b1).0);
            assert(repeat_motion_go(bop, fwd, n as nat) == b);
            if b.cur > 0 {
                lemma_steps_ok_snoc(bop, fwd, (n - 1) as nat);
            }
        }
    }
}

} // verus!
