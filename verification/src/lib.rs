//! A line-editing engine for terminals in raw mode.
//!
//! The crate keeps an editable line buffer with a grapheme-aware cursor,
//! parses raw input bytes into key tokens, interprets them under Emacs or
//! Vi modal rules, and renders the minimal ANSI byte sequence needed to
//! redraw the line.  All editing logic is verified; terminal I/O lives in
//! the surrounding application.

pub mod buffer;
pub mod builder;
pub mod edit;
pub mod error;
pub mod history;
pub mod instr;
pub mod parser;

use vstd::prelude::*;

use crate::edit::EditMode;
use crate::parser::Encoding;

verus! {

/// Options for one line-read: the byte encoding of the input stream and
/// the key-binding flavour.
pub struct Config {
    pub encoding: Encoding,
    pub mode: EditMode,
}

impl Config {
    /// UTF-8 input interpreted with Emacs bindings.
    pub fn default() -> (r: Config)
        ensures
            r.encoding == Encoding::Utf8,
            r.mode == EditMode::Emacs,
    {
        Config { encoding: Encoding::Utf8, mode: EditMode::Emacs }
    }
}

} // verus!
