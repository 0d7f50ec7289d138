//! Assembly of the ANSI byte sequence that redraws the line.
//!
//! The builder is an append-only byte sequence with one named operation
//! per escape code of the minimal VT100 subset this library speaks.

use vstd::prelude::*;
use vstd::string::StrSliceExecFns;
use vstd::utf8::encode_utf8;

verus! {

/// The carriage-return byte.
pub open spec fn bytes_cr() -> Seq<u8> {
    seq![13u8]
}

/// Erase from the cursor to the end of the line.
pub open spec fn bytes_erase_right() -> Seq<u8> {
    seq![27u8, 91u8, 48u8, 75u8]
}

/// Clear the screen and home the cursor.
pub open spec fn bytes_clear_screen() -> Seq<u8> {
    seq![27u8, 91u8, 72u8, 27u8, 91u8, 50u8, 74u8]
}

/// Reset the text attributes.
pub open spec fn bytes_reset_color() -> Seq<u8> {
    seq![27u8, 91u8, 48u8, 109u8]
}

/// Invert the text colors.
pub open spec fn bytes_invert_color() -> Seq<u8> {
    seq![27u8, 91u8, 55u8, 109u8]
}

/// Ask the terminal to report the cursor position.
pub open spec fn bytes_ask_cursor_pos() -> Seq<u8> {
    seq![27u8, 91u8, 54u8, 110u8]
}

/// The decimal digits of a number, most significant first.
pub open spec fn dec_rep(n: nat) -> Seq<u8>
    decreases n,
{
    if n < 10 {
        seq![(48 + n) as u8]
    } else {
        dec_rep(n / 10) + seq![(48 + n % 10) as u8]
    }
}

/// Return to column zero, then step the cursor right by the given count.
pub open spec fn bytes_set_cursor(n: nat) -> Seq<u8> {
    seq![13u8, 27u8, 91u8] + dec_rep(n) + seq![67u8]
}

fn push_decimal(out: &mut Vec<u8>, n: usize)
    ensures
        final(out)@ == old(out)@ + dec_rep(n as nat),
    decreases n,
{
    if n < 10 {
        out.push(48 + n as u8);
        proof {
            assert(out@ =~= old(out)@ + dec_rep(n as nat));
        }
    } else {
        push_decimal(out, n / 10);
        out.push(48 + (n % 10) as u8);
        proof {
            assert(out@ =~= old(out)@ + dec_rep(n as nat));
        }
    }
}

/// An append-only byte sequence under construction.
pub struct Builder {
    seq_bytes: Vec<u8>,
}

impl View for Builder {
    type V = Seq<u8>;

    closed spec fn view(&self) -> Seq<u8> {
        self.seq_bytes@
    }
}

impl Builder {
    pub fn new() -> (r: Builder)
        ensures
            r@.len() == 0,
            r@ == Seq::<u8>::empty(),
    {
        let r = Builder { seq_bytes: Vec::new() };
        proof {
            assert(r@ =~= Seq::<u8>::empty());
        }
        r
    }

    /// Hand over the accumulated bytes.
    pub fn build(self) -> (r: Vec<u8>)
        ensures
            r@ == self@,
    {
        self.seq_bytes
    }

    /// Append a string's UTF-8 bytes.
    pub fn append(&mut self, s: &str)
        ensures
            final(self)@ == old(self)@ + encode_utf8(s@),
    {
        let mut bytes = s.as_bytes_vec();
        self.seq_bytes.append(&mut bytes);
    }

    pub fn carriage_return(&mut self)
        ensures
            final(self)@ == old(self)@ + bytes_cr(),
    {
        self.seq_bytes.push(13);
        proof {
            assert(self@ =~= old(self)@ + bytes_cr());
        }
    }

    pub fn erase_to_right(&mut self)
        ensures
            final(self)@ == old(self)@ + bytes_erase_right(),
    {
        self.seq_bytes.push(27);
        self.seq_bytes.push(91);
        self.seq_bytes.push(48);
        self.seq_bytes.push(75);
        proof {
            assert(self@ =~= old(self)@ + bytes_erase_right());
        }
    }

    /// Return to column zero, then step the cursor right to the given
    /// column.
    pub fn set_cursor_pos(&mut self, pos: usize)
        ensures
            final(self)@ == old(self)@ + bytes_set_cursor(pos as nat),
    {
        self.seq_bytes.push(13);
        self.seq_bytes.push(27);
        self.seq_bytes.push(91);
        push_decimal(&mut self.seq_bytes, pos);
        self.seq_bytes.push(67);
        proof {
            assert(self@ =~= old(self)@ + bytes_set_cursor(pos as nat));
        }
    }

    pub fn clear_screen(&mut self)
        ensures
            final(self)@ == old(self)@ + bytes_clear_screen(),
    {
        self.seq_bytes.push(27);
        self.seq_bytes.push(91);
        self.seq_bytes.push(72);
        self.seq_bytes.push(27);
        self.seq_bytes.push(91);
        self.seq_bytes.push(50);
        self.seq_bytes.push(74);
        proof {
            assert(self@ =~= old(self)@ + bytes_clear_screen());
        }
    }

    pub fn reset_color(&mut self)
        ensures
            final(self)@ == old(self)@ + bytes_reset_color(),
    {
        self.seq_bytes.push(27);
        self.seq_bytes.push(91);
        self.seq_bytes.push(48);
        self.seq_bytes.push(109);
        proof {
            assert(self@ =~= old(self)@ + bytes_reset_color());
        }
    }

    pub fn invert_color(&mut self)
        ensures
            final(self)@ == old(self)@ + bytes_invert_color(),
    {
        self.seq_bytes.push(27);
        self.seq_bytes.push(91);
        self.seq_bytes.push(55);
        self.seq_bytes.push(109);
        proof {
            assert(self@ =~= old(self)@ + bytes_invert_color());
        }
    }

    pub fn ask_cursor_pos(&mut self)
        ensures
            final(self)@ == old(self)@ + bytes_ask_cursor_pos(),
    {
        self.seq_bytes.push(27);
        self.seq_bytes.push(91);
        self.seq_bytes.push(54);
        self.seq_bytes.push(110);
        proof {
            assert(self@ =~= old(self)@ + bytes_ask_cursor_pos());
        }
    }
}

} // verus!
