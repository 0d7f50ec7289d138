//! The editable line: a sequence of grapheme cells with a cursor.
//!
//! A cell is one user-perceived character (a grapheme cluster): its text,
//! its UTF-8 bytes, its displayed column width and its leading character.
//! The cursor is a cell index; the byte offset of the cursor is kept
//! alongside it.  A second cell sequence (the back line) stashes the live
//! line while history entries are browsed.

use vstd::prelude::*;
use vstd::string::StrSliceExecFns;
use vstd::string::StringSliceAdditionalSpecFns;
use vstd::string::StringExecFns;
use vstd::utf8::encode_utf8;

verus! {

// ---------------------------------------------------------------------------
// The mathematical model: cells and sums over them.
// ---------------------------------------------------------------------------

/// Model of one grapheme cell: its characters and its displayed width.
#[verifier::ext_equal]
pub ghost struct CellV {
    pub text: Seq<char>,
    pub width: nat,
}

/// Model of the whole buffer: both lines and the cursor's cell index.
#[verifier::ext_equal]
pub ghost struct BufV {
    pub front: Seq<CellV>,
    pub back: Seq<CellV>,
    pub cur: nat,
}

/// The UTF-8 byte length of a cell's text.
pub open spec fn cell_bytes(c: CellV) -> nat {
    encode_utf8(c.text).len()
}

/// Sum of a per-cell measure over a cell sequence.
pub open spec fn sum_of(s: Seq<CellV>, f: spec_fn(CellV) -> nat) -> nat
    decreases s.len(),
{
    if s.len() == 0 {
        0
    } else {
        f(s[0]) + sum_of(s.drop_first(), f)
    }
}

pub open spec fn sum_bytes(s: Seq<CellV>) -> nat {
    sum_of(s, |c: CellV| cell_bytes(c))
}

pub open spec fn sum_width(s: Seq<CellV>) -> nat {
    sum_of(s, |c: CellV| c.width)
}

/// The text of a cell sequence: the concatenation of the cells' characters.
pub open spec fn concat_texts(s: Seq<CellV>) -> Seq<char>
    decreases s.len(),
{
    if s.len() == 0 {
        Seq::empty()
    } else {
        s[0].text + concat_texts(s.drop_first())
    }
}

/// Concatenation of a sequence of character sequences.
pub open spec fn concat_pieces(ps: Seq<Seq<char>>) -> Seq<char>
    decreases ps.len(),
{
    if ps.len() == 0 {
        Seq::empty()
    } else {
        ps[0] + concat_pieces(ps.drop_first())
    }
}

pub proof fn lemma_sum_of_concat(a: Seq<CellV>, b: Seq<CellV>, f: spec_fn(CellV) -> nat)
    ensures
        sum_of(a + b, f) == sum_of(a, f) + sum_of(b, f),
    decreases a.len(),
{
    if a.len() == 0 {
        assert(a + b =~= b);
    } else {
        assert((a + b).drop_first() =~= a.drop_first() + b);
        lemma_sum_of_concat(a.drop_first(), b, f);
    }
}

pub proof fn lemma_sum_of_singleton(c: CellV, f: spec_fn(CellV) -> nat)
    ensures
        sum_of(seq![c], f) == f(c),
{
    let s = seq![c];
    assert(s.drop_first() =~= Seq::<CellV>::empty());
    assert(sum_of(s, f) == f(s[0]) + sum_of(s.drop_first(), f));
    assert(sum_of(s.drop_first(), f) == 0);
}

/// Splitting a sum at an index.
pub proof fn lemma_sum_of_split(s: Seq<CellV>, i: int, f: spec_fn(CellV) -> nat)
    requires
        0 <= i <= s.len(),
    ensures
        sum_of(s, f) == sum_of(s.take(i), f) + sum_of(s.skip(i), f),
{
    assert(s =~= s.take(i) + s.skip(i));
    lemma_sum_of_concat(s.take(i), s.skip(i), f);
}

/// Extending a prefix sum by one element.
pub proof fn lemma_sum_of_take_succ(s: Seq<CellV>, i: int, f: spec_fn(CellV) -> nat)
    requires
        0 <= i < s.len(),
    ensures
        sum_of(s.take(i + 1), f) == sum_of(s.take(i), f) + f(s[i]),
{
    assert(s.take(i + 1) =~= s.take(i) + seq![s[i]]);
    lemma_sum_of_concat(s.take(i), seq![s[i]], f);
    lemma_sum_of_singleton(s[i], f);
}

pub proof fn lemma_concat_texts_concat(a: Seq<CellV>, b: Seq<CellV>)
    ensures
        concat_texts(a + b) == concat_texts(a) + concat_texts(b),
    decreases a.len(),
{
    if a.len() == 0 {
        assert(a + b =~= b);
        assert(concat_texts(a) + concat_texts(b) =~= concat_texts(b));
    } else {
        assert((a + b).drop_first() =~= a.drop_first() + b);
        lemma_concat_texts_concat(a.drop_first(), b);
        assert(a[0].text + (concat_texts(a.drop_first()) + concat_texts(b)) =~= (a[0].text
            + concat_texts(a.drop_first())) + concat_texts(b));
    }
}

// ---------------------------------------------------------------------------
// Character classes and the trusted Unicode facts.
// ---------------------------------------------------------------------------

/// Whether the character has the Unicode White_Space property; the
/// tables that decide it stay outside, so the answer has a name.
pub uninterp spec fn is_white_char(c: char) -> bool;

/// Whether the character is alphanumeric under the Unicode tables.
pub uninterp spec fn is_alnum_char(c: char) -> bool;

/// The displayed column width of a string under the Unicode width tables.
pub uninterp spec fn width_of(s: Seq<char>) -> nat;

/// The grapheme clusters of a text under the Unicode segmentation rules:
/// what the segmentation crate returns, by name.
pub uninterp spec fn graphemes_of(s: Seq<char>) -> Seq<Seq<char>>;

/// Relies on char::is_whitespace: whether the character has the Unicode
/// White_Space property.
#[verifier::external_body]
fn char_is_white(c: char) -> (r: bool)
    ensures
        r == is_white_char(c),
{
    c.is_whitespace()
}

/// Relies on char::is_alphanumeric: whether the character is Unicode
/// alphabetic or a digit.
#[verifier::external_body]
fn char_is_alnum(c: char) -> (r: bool)
    ensures
        r == is_alnum_char(c),
{
    c.is_alphanumeric()
}

/// Relies on unicode_width::UnicodeWidthStr::width: the displayed column
/// count of a string; its tables give no character more than three
/// columns.
#[verifier::external_body]
fn grapheme_width(s: &str) -> (r: usize)
    ensures
        r == width_of(s@),
        r <= 3 * s@.len(),
{
    unicode_width::UnicodeWidthStr::width(s)
}

/// Relies on unicode_segmentation::UnicodeSegmentation::graphemes: the
/// clusters depend on the characters alone, and are non-empty substrings
/// that concatenate back to the input.
#[verifier::external_body]
fn split_graphemes(s: &str) -> (r: Vec<String>)
    ensures
        r.deep_view() == graphemes_of(s@),
        concat_pieces(r.deep_view()) == s@,
        forall|i: int| 0 <= i < r.deep_view().len() ==> r.deep_view()[i].len() > 0,
{
    unicode_segmentation::UnicodeSegmentation::graphemes(s, true).map(|g| g.to_string()).collect()
}

/// Relies on char::to_string: the result holds exactly the one character.
#[verifier::external_body]
pub(crate) fn char_to_string(c: char) -> (r: String)
    ensures
        r@ == seq![c],
{
    c.to_string()
}

/// The three classes the Vi word motions distinguish.
#[derive(Clone, Copy, PartialEq, Eq, Structural, Debug)]
pub enum CharClass {
    Whitespace,
    Keyword,
    Other,
}

/// The class of a character: whitespace first, then keyword characters
/// (alphanumerics and the underscore), then everything else.
pub open spec fn class_of(c: char) -> CharClass {
    if is_white_char(c) {
        CharClass::Whitespace
    } else if c == '_' || is_alnum_char(c) {
        CharClass::Keyword
    } else {
        CharClass::Other
    }
}

/// All alphanumeric characters and the underscore count as Vi keyword
/// characters.
pub fn is_vi_keyword(c: char) -> (r: bool)
    ensures
        r == (c == '_' || is_alnum_char(c)),
{
    c == '_' || char_is_alnum(c)
}

fn classify(c: char) -> (r: CharClass)
    ensures
        r == class_of(c),
{
    if char_is_white(c) {
        CharClass::Whitespace
    } else if c == '_' || char_is_alnum(c) {
        CharClass::Keyword
    } else {
        CharClass::Other
    }
}

// ---------------------------------------------------------------------------
// Cells.
// ---------------------------------------------------------------------------

/// One grapheme cluster of the line, with its rendering data.
pub struct Cell {
    text: String,
    bytes: Vec<u8>,
    width: usize,
    first: char,
}

impl View for Cell {
    type V = CellV;

    closed spec fn view(&self) -> CellV {
        CellV { text: self.text@, width: self.width as nat }
    }
}

/// A cell holds a non-empty text, its exact UTF-8 bytes and its leading
/// character.
pub closed spec fn cell_wf(c: Cell) -> bool {
    &&& c.text@.len() > 0
    &&& c.bytes@ == encode_utf8(c.text@)
    &&& c.first == c.text@[0]
}

fn cell_from_string(text: String) -> (r: Cell)
    requires
        text@.len() > 0,
    ensures
        cell_wf(r),
        r@.text == text@,
        r@.width == width_of(text@),
        r@.width <= 3 * text@.len(),
{
    let bytes = text.as_str().as_bytes_vec();
    let width = grapheme_width(text.as_str());
    let first = text.as_str().get_char(0);
    Cell { text, bytes, width, first }
}

fn cell_from_char(c: char) -> (r: Cell)
    ensures
        cell_wf(r),
        r@.text == seq![c],
        r@.width == width_of(seq![c]),
        r@.width <= 3,
{
    let text = char_to_string(c);
    cell_from_string(text)
}

// ---------------------------------------------------------------------------
// Positions.
// ---------------------------------------------------------------------------

/// A cursor position: the UTF-8 byte offset into the line's text and the
/// index of the grapheme cell the cursor sits on.
#[derive(Debug, Clone, Copy, PartialEq, Eq, Structural, PartialOrd, Ord)]
pub struct Position {
    pub byte_pos: usize,
    pub char_pos: usize,
}

/// The UTF-8 byte length of one character.
pub open spec fn utf8_char_len(c: char) -> nat {
    vstd::utf8::encode_scalar(c as u32).len()
}

impl Position {
    /// Advance the position over one character.
    pub fn increase_by_char(&mut self, c: char)
        requires
            old(self).byte_pos + 4 <= usize::MAX,
            old(self).char_pos + 1 <= usize::MAX,
        ensures
            final(self).byte_pos == old(self).byte_pos + utf8_char_len(c),
            final(self).char_pos == old(self).char_pos + 1,
    {
        let n = char_len_utf8(c);
        self.byte_pos = self.byte_pos + n;
        self.char_pos = self.char_pos + 1;
    }
}

/// The number of bytes the UTF-8 encoding of one character takes.
pub fn char_len_utf8(c: char) -> (r: usize)
    ensures
        r == utf8_char_len(c),
        1 <= r <= 4,
{
    proof {
        vstd::utf8::char_is_scalar(c);
    }
    let u: u32 = c as u32;
    if u < 0x80 {
        1
    } else if u < 0x800 {
        2
    } else if u < 0x10000 {
        3
    } else {
        4
    }
}


pub proof fn lemma_concat_texts_singleton(c: CellV)
    ensures
        concat_texts(seq![c]) == c.text,
{
    let s = seq![c];
    assert(s.drop_first() =~= Seq::<CellV>::empty());
    assert(concat_texts(s.drop_first()) =~= Seq::<char>::empty());
    assert(c.text + Seq::<char>::empty() =~= c.text);
}

pub proof fn lemma_concat_texts_take_succ(s: Seq<CellV>, i: int)
    requires
        0 <= i < s.len(),
    ensures
        concat_texts(s.take(i + 1)) == concat_texts(s.take(i)) + s[i].text,
{
    assert(s.take(i + 1) =~= s.take(i) + seq![s[i]]);
    lemma_concat_texts_concat(s.take(i), seq![s[i]]);
    lemma_concat_texts_singleton(s[i]);
}

// ---------------------------------------------------------------------------
// The buffer.
// ---------------------------------------------------------------------------

/// The line buffer: the front line being edited, the back line stashed
/// during history browsing, and the cursor.
pub struct Buffer {
    front: Vec<Cell>,
    back: Vec<Cell>,
    text: String,
    cur: usize,
    byte_off: usize,
    fbytes: usize,
    fwidth: usize,
    bbytes: usize,
    bwidth: usize,
}

impl View for Buffer {
    type V = BufV;

    closed spec fn view(&self) -> BufV {
        BufV {
            front: self.front@.map_values(|c: Cell| c@),
            back: self.back@.map_values(|c: Cell| c@),
            cur: self.cur as nat,
        }
    }
}

/// The text of the front line, as the buffer's callers see it.
pub open spec fn buf_text(b: BufV) -> Seq<char> {
    concat_texts(b.front)
}

/// The characters before the cursor.
pub open spec fn text_before(b: BufV) -> Seq<char> {
    concat_texts(b.front.take(b.cur as int))
}

/// Whether the front line can grow by a cell of the given byte length and
/// width without its bookkeeping leaving the machine's integer range.
pub open spec fn can_grow(b: BufV, nb: nat, w: nat) -> bool {
    &&& sum_bytes(b.front) + nb <= usize::MAX
    &&& sum_width(b.front) + w <= usize::MAX
}

impl Buffer {
    /// The buffer's bookkeeping is consistent: the cursor is inside the
    /// line, the byte offset and the cached totals match the cells, the
    /// materialized text matches the cells, and every cell is well formed.
    pub closed spec fn wf(&self) -> bool {
        &&& self.cur <= self.front.len()
        &&& self.byte_off as nat == sum_bytes(self@.front.take(self.cur as int))
        &&& self.fbytes as nat == sum_bytes(self@.front)
        &&& self.fwidth as nat == sum_width(self@.front)
        &&& self.bbytes as nat == sum_bytes(self@.back)
        &&& self.bwidth as nat == sum_width(self@.back)
        &&& self.text@ == concat_texts(self@.front)
        &&& forall|i: int| 0 <= i < self.front@.len() ==> cell_wf(#[trigger] self.front@[i])
        &&& forall|i: int| 0 <= i < self.back@.len() ==> cell_wf(#[trigger] self.back@[i])
    }

    proof fn lemma_view_index(&self)
        ensures
            self@.front.len() == self.front@.len(),
            self@.back.len() == self.back@.len(),
            forall|i: int|
                0 <= i < self.front@.len() ==> self@.front[i] == #[trigger] self.front@[i]@,
            forall|i: int| 0 <= i < self.back@.len() ==> self@.back[i] == #[trigger] self.back@[i]@,
    {
    }

    pub fn new() -> (r: Buffer)
        ensures
            r.wf(),
            r@.front.len() == 0,
            r@.back.len() == 0,
            r@.cur == 0,
    {
        let r = Buffer {
            front: Vec::new(),
            back: Vec::new(),
            text: String::new(),
            cur: 0,
            byte_off: 0,
            fbytes: 0,
            fwidth: 0,
            bbytes: 0,
            bwidth: 0,
        };
        proof {
            assert(r@.front =~= Seq::<CellV>::empty());
            assert(r@.back =~= Seq::<CellV>::empty());
            assert(r@.front.take(0) =~= Seq::<CellV>::empty());
        }
        r
    }

    /// The number of grapheme cells in the front line.
    pub fn cell_count(&self) -> (r: usize)
        requires
            self.wf(),
        ensures
            r == self@.front.len(),
    {
        self.front.len()
    }

    /// The cell index of the cursor.
    pub fn char_pos(&self) -> (r: usize)
        requires
            self.wf(),
        ensures
            r == self@.cur,
    {
        self.cur
    }

    /// The byte offset of the cursor into the front line's text.
    pub fn byte_pos(&self) -> (r: usize)
        requires
            self.wf(),
        ensures
            r == sum_bytes(self@.front.take(self@.cur as int)),
    {
        self.byte_off
    }

    /// The cursor as a position value.
    pub fn pos(&self) -> (r: Position)
        requires
            self.wf(),
        ensures
            r.char_pos == self@.cur,
            r.byte_pos == sum_bytes(self@.front.take(self@.cur as int)),
    {
        Position { byte_pos: self.byte_off, char_pos: self.cur }
    }

    /// Whether the front line is empty.
    pub fn is_empty(&self) -> (r: bool)
        requires
            self.wf(),
        ensures
            r == (self@.front.len() == 0),
    {
        self.front.len() == 0
    }

    /// The front line's text.
    pub fn as_str(&self) -> (r: &str)
        requires
            self.wf(),
        ensures
            r@ == buf_text(self@),
    {
        self.text.as_str()
    }

    /// Consume the buffer, handing over the front line's text.
    pub fn to_string(self) -> (r: String)
        requires
            self.wf(),
        ensures
            r@ == buf_text(self@),
    {
        self.text
    }

    /// Step the cursor one cell to the left; answers whether it moved.
    pub fn move_left(&mut self) -> (r: bool)
        requires
            old(self).wf(),
        ensures
            final(self).wf(),
            final(self)@.front == old(self)@.front,
            final(self)@.back == old(self)@.back,
            r == (old(self)@.cur > 0),
            final(self)@.cur == if old(self)@.cur > 0 {
                (old(self)@.cur - 1) as nat
            } else {
                0nat
            },
    {
        if self.cur > 0 {
            proof {
                self.lemma_view_index();
                lemma_sum_of_take_succ(
                    self@.front,
                    self.cur - 1,
                    |c: CellV| cell_bytes(c),
                );
            }
            let prev = self.cur - 1;
            let nb = self.front[prev].bytes.len();
            proof {
                assert(self.front@[self.cur - 1]@.text == self@.front[self.cur - 1].text);
                assert(nb == cell_bytes(self@.front[self.cur - 1]));
            }
            self.cur = prev;
            self.byte_off = self.byte_off - nb;
            true
        } else {
            false
        }
    }

    /// Step the cursor one cell to the right; answers whether it moved.
    pub fn move_right(&mut self) -> (r: bool)
        requires
            old(self).wf(),
        ensures
            final(self).wf(),
            final(self)@.front == old(self)@.front,
            final(self)@.back == old(self)@.back,
            r == (old(self)@.cur < old(self)@.front.len()),
            final(self)@.cur == if old(self)@.cur < old(self)@.front.len() {
                old(self)@.cur + 1
            } else {
                old(self)@.cur
            },
    {
        if self.cur < self.front.len() {
            proof {
                self.lemma_view_index();
                lemma_sum_of_take_succ(self@.front, self.cur as int, |c: CellV| cell_bytes(c));
                lemma_sum_of_split(self@.front, self.cur + 1, |c: CellV| cell_bytes(c));
            }
            let nb = self.front[self.cur].bytes.len();
            proof {
                assert(nb == cell_bytes(self@.front[self.cur as int]));
            }
            self.byte_off = self.byte_off + nb;
            self.cur = self.cur + 1;
            true
        } else {
            false
        }
    }

    /// Jump to the start of the line.
    pub fn move_start(&mut self)
        requires
            old(self).wf(),
        ensures
            final(self).wf(),
            final(self)@.front == old(self)@.front,
            final(self)@.back == old(self)@.back,
            final(self)@.cur == 0,
    {
        self.cur = 0;
        self.byte_off = 0;
        proof {
            assert(self@.front.take(0) =~= Seq::<CellV>::empty());
        }
    }

    /// Jump past the last cell of the line.
    pub fn move_end(&mut self)
        requires
            old(self).wf(),
        ensures
            final(self).wf(),
            final(self)@.front == old(self)@.front,
            final(self)@.back == old(self)@.back,
            final(self)@.cur == final(self)@.front.len(),
    {
        self.cur = self.front.len();
        self.byte_off = self.fbytes;
        proof {
            assert(self@.front.take(self@.front.len() as int) =~= self@.front);
        }
    }

    /// If the cursor is one past the last cell, step it back onto the
    /// last cell; answers whether the cursor was still inside the line.
    pub fn exclude_eol(&mut self) -> (r: bool)
        requires
            old(self).wf(),
        ensures
            final(self).wf(),
            final(self)@.front == old(self)@.front,
            final(self)@.back == old(self)@.back,
            r == (old(self)@.cur < old(self)@.front.len()),
            final(self)@.cur == if old(self)@.cur < old(self)@.front.len() {
                old(self)@.cur
            } else if old(self)@.cur > 0 {
                (old(self)@.cur - 1) as nat
            } else {
                0nat
            },
    {
        let end = self.move_right();
        self.move_left();
        end
    }

    /// Move the cursor to the cell index of the given position; a
    /// position beyond the line jumps to the end and answers false.
    pub fn move_to_pos(&mut self, pos: Position) -> (r: bool)
        requires
            old(self).wf(),
        ensures
            final(self).wf(),
            final(self)@.front == old(self)@.front,
            final(self)@.back == old(self)@.back,
            r == (pos.char_pos <= old(self)@.front.len()),
            final(self)@.cur == if pos.char_pos <= old(self)@.front.len() {
                pos.char_pos as nat
            } else {
                old(self)@.front.len()
            },
    {
        if pos.char_pos > self.front.len() {
            self.move_end();
            false
        } else {
            let off = self.prefix_bytes(pos.char_pos);
            self.cur = pos.char_pos;
            self.byte_off = off;
            true
        }
    }

    /// The byte length of the first `k` cells of the front line.
    fn prefix_bytes(&self, k: usize) -> (r: usize)
        requires
            self.wf(),
            k <= self@.front.len(),
        ensures
            r == sum_bytes(self@.front.take(k as int)),
    {
        proof {
            self.lemma_view_index();
        }
        let mut acc: usize = 0;
        let mut i: usize = 0;
        proof {
            assert(self@.front.take(0) =~= Seq::<CellV>::empty());
        }
        while i < k
            invariant
                self.wf(),
                i <= k <= self@.front.len(),
                acc == sum_bytes(self@.front.take(i as int)),
            decreases k - i,
        {
            proof {
                self.lemma_view_index();
                lemma_sum_of_take_succ(self@.front, i as int, |c: CellV| cell_bytes(c));
                lemma_sum_of_split(self@.front, i + 1, |c: CellV| cell_bytes(c));
            }
            let nb = self.front[i].bytes.len();
            proof {
                assert(nb == cell_bytes(self@.front[i as int]));
                assert(sum_bytes(self@.front.take(i + 1)) <= sum_bytes(self@.front));
            }
            acc = acc + nb;
            i = i + 1;
        }
        acc
    }
}


pub proof fn lemma_encode_utf8_concat(a: Seq<char>, b: Seq<char>)
    ensures
        encode_utf8(a + b) == encode_utf8(a) + encode_utf8(b),
    decreases a.len(),
{
    if a.len() == 0 {
        assert(a + b =~= b);
        assert(encode_utf8(a) + encode_utf8(b) =~= encode_utf8(b));
    } else {
        assert((a + b).drop_first() =~= a.drop_first() + b);
        lemma_encode_utf8_concat(a.drop_first(), b);
        assert(vstd::utf8::encode_scalar((a + b)[0] as u32) + (encode_utf8(a.drop_first())
            + encode_utf8(b)) =~= (vstd::utf8::encode_scalar(a[0] as u32) + encode_utf8(
            a.drop_first(),
        )) + encode_utf8(b));
    }
}

pub proof fn lemma_encode_utf8_single(c: char)
    ensures
        encode_utf8(seq![c]) == vstd::utf8::encode_scalar(c as u32),
        encode_utf8(seq![c]).len() == utf8_char_len(c),
{
    let s = seq![c];
    assert(s.drop_first() =~= Seq::<char>::empty());
    assert(encode_utf8(s.drop_first()) =~= Seq::<u8>::empty());
    assert(vstd::utf8::encode_scalar(c as u32) + Seq::<u8>::empty() =~= vstd::utf8::encode_scalar(
        c as u32,
    ));
}

/// The byte total of a cell sequence is the byte length of its text.
pub proof fn lemma_sum_bytes_is_text_bytes(cs: Seq<CellV>)
    ensures
        sum_bytes(cs) == encode_utf8(concat_texts(cs)).len(),
    decreases cs.len(),
{
    if cs.len() == 0 {
    } else {
        lemma_sum_bytes_is_text_bytes(cs.drop_first());
        lemma_encode_utf8_concat(cs[0].text, concat_texts(cs.drop_first()));
        lemma_sum_of_singleton(cs[0], |c: CellV| cell_bytes(c));
        assert(cs =~= seq![cs[0]] + cs.drop_first());
        lemma_sum_of_concat(seq![cs[0]], cs.drop_first(), |c: CellV| cell_bytes(c));
    }
}

/// When every cell is at most three times as wide as it is long, the
/// width total is bounded by three times the text length.
pub proof fn lemma_sum_width_bound(cs: Seq<CellV>)
    requires
        forall|i: int| 0 <= i < cs.len() ==> (#[trigger] cs[i].width) <= 3 * cs[i].text.len(),
    ensures
        sum_width(cs) <= 3 * concat_texts(cs).len(),
    decreases cs.len(),
{
    if cs.len() == 0 {
    } else {
        lemma_sum_width_bound(cs.drop_first());
        lemma_sum_of_singleton(cs[0], |c: CellV| c.width);
        assert(cs =~= seq![cs[0]] + cs.drop_first());
        lemma_sum_of_concat(seq![cs[0]], cs.drop_first(), |c: CellV| c.width);
        lemma_concat_texts_concat(seq![cs[0]], cs.drop_first());
        lemma_concat_texts_singleton(cs[0]);
    }
}

/// Cell sequences with pointwise equal texts concatenate to the same text.
pub proof fn lemma_concat_texts_pointwise(cs: Seq<CellV>, ps: Seq<Seq<char>>)
    requires
        cs.len() == ps.len(),
        forall|i: int| 0 <= i < cs.len() ==> (#[trigger] cs[i].text) == ps[i],
    ensures
        concat_texts(cs) == concat_pieces(ps),
    decreases cs.len(),
{
    if cs.len() > 0 {
        lemma_concat_texts_pointwise(cs.drop_first(), ps.drop_first());
    }
}

impl Buffer {
    fn make_text(cells: &Vec<Cell>) -> (r: String)
        ensures
            r@ == concat_texts(cells@.map_values(|c: Cell| c@)),
    {
        let ghost cs = cells@.map_values(|c: Cell| c@);
        let mut r = String::new();
        let mut i: usize = 0;
        proof {
            assert(cs.take(0) =~= Seq::<CellV>::empty());
        }
        while i < cells.len()
            invariant
                i <= cells.len(),
                cs == cells@.map_values(|c: Cell| c@),
                r@ == concat_texts(cs.take(i as int)),
            decreases cells.len() - i,
        {
            proof {
                lemma_concat_texts_take_succ(cs, i as int);
                assert(cs[i as int] == cells@[i as int]@);
            }
            r.append(cells[i].text.as_str());
            i = i + 1;
        }
        proof {
            assert(cs.take(cells@.len() as int) =~= cs);
        }
        r
    }

    /// Insert one cell at the cursor and step the cursor past it; answers
    /// false, changing nothing, when the line's bookkeeping cannot grow by
    /// the cell's size.
    fn insert_cell(&mut self, cell: Cell) -> (r: bool)
        requires
            old(self).wf(),
            cell_wf(cell),
        ensures
            final(self).wf(),
            final(self)@.back == old(self)@.back,
            r == can_grow(old(self)@, cell_bytes(cell@), cell@.width),
            r ==> final(self)@.front == old(self)@.front.insert(old(self)@.cur as int, cell@)
                && final(self)@.cur == old(self)@.cur + 1,
            !r ==> final(self)@ == old(self)@,
    {
        proof {
            self.lemma_view_index();
        }
        let nb = cell.bytes.len();
        let w = cell.width;
        proof {
            assert(nb == cell_bytes(cell@));
        }
        match (self.fbytes.checked_add(nb), self.fwidth.checked_add(w)) {
            (Some(nb2), Some(w2)) => {
                let ghost oldv = self@;
                let ghost cv = cell@;
                proof {
                    lemma_sum_of_split(oldv.front, oldv.cur as int, |c: CellV| cell_bytes(c));
                }
                self.front.insert(self.cur, cell);
                self.fbytes = nb2;
                self.fwidth = w2;
                self.byte_off = self.byte_off + nb;
                let _newlen = self.front.len();
                self.cur = self.cur + 1;
                self.text = Self::make_text(&self.front);
                proof {
                    let newf = self@.front;
                    assert(newf =~= oldv.front.insert(oldv.cur as int, cv));
                    assert(newf =~= oldv.front.take(oldv.cur as int) + seq![cv] + oldv.front.skip(
                        oldv.cur as int,
                    ));
                    let fb = |c: CellV| cell_bytes(c);
                    let fw = |c: CellV| c.width;
                    lemma_sum_of_concat(oldv.front.take(oldv.cur as int) + seq![cv], oldv.front.skip(oldv.cur as int), fb);
                    lemma_sum_of_concat(oldv.front.take(oldv.cur as int), seq![cv], fb);
                    lemma_sum_of_singleton(cv, fb);
                    lemma_sum_of_concat(oldv.front.take(oldv.cur as int) + seq![cv], oldv.front.skip(oldv.cur as int), fw);
                    lemma_sum_of_concat(oldv.front.take(oldv.cur as int), seq![cv], fw);
                    lemma_sum_of_singleton(cv, fw);
                    lemma_sum_of_split(oldv.front, oldv.cur as int, fw);
                    assert(newf.take(self.cur as int) =~= oldv.front.take(oldv.cur as int)
                        + seq![cv]);
                    assert(sum_bytes(newf.take(self.cur as int)) == sum_bytes(
                        oldv.front.take(oldv.cur as int),
                    ) + cell_bytes(cv));
                }
                true
            },
            _ => {
                false
            },
        }
    }

    /// Insert one character at the cursor as its own cell, stepping the
    /// cursor past it.
    pub fn insert_char_at_cursor(&mut self, c: char)
        requires
            old(self).wf(),
        ensures
            final(self).wf(),
            final(self)@.back == old(self)@.back,
            can_grow(old(self)@, utf8_char_len(c), width_of(seq![c])) ==> final(self)@.front == old(
                self,
            )@.front.insert(old(self)@.cur as int, (CellV { text: seq![c], width: width_of(seq![c]) }))
                && final(self)@.cur == old(self)@.cur + 1,
            !can_grow(old(self)@, utf8_char_len(c), width_of(seq![c])) ==> final(self)@ == old(
                self,
            )@,
    {
        proof {
            lemma_encode_utf8_single(c);
        }
        let cell = cell_from_char(c);
        let _ok = self.insert_cell(cell);
    }

    fn make_cells(pieces: Vec<String>) -> (r: Vec<Cell>)
        requires
            forall|i: int| 0 <= i < pieces.deep_view().len() ==> pieces.deep_view()[i].len() > 0,
        ensures
            r@.len() == pieces@.len(),
            forall|i: int| 0 <= i < r@.len() ==> cell_wf(#[trigger] r@[i]),
            forall|i: int|
                0 <= i < r@.len() ==> (#[trigger] r@[i]@).text == pieces.deep_view()[i],
            forall|i: int|
                0 <= i < r@.len() ==> (#[trigger] r@[i]@).width == width_of(pieces.deep_view()[i]),
            forall|i: int| 0 <= i < r@.len() ==> (#[trigger] r@[i]@).width <= 3 * r@[i]@.text.len(),
    {
        let mut r: Vec<Cell> = Vec::new();
        let mut i: usize = 0;
        let n = pieces.len();
        let mut pieces = pieces;
        proof {
            assert(forall|i: int|
                0 <= i < pieces@.len() ==> pieces.deep_view()[i] == (#[trigger] pieces@[i])@);
        }
        while i < n
            invariant
                i <= n,
                r@.len() == i,
                pieces@.len() == n,
                forall|j: int| 0 <= j < pieces@.len() ==> (#[trigger] pieces@[j])@.len() > 0,
                forall|j: int| 0 <= j < r@.len() ==> cell_wf(#[trigger] r@[j]),
                forall|j: int| 0 <= j < r@.len() ==> (#[trigger] r@[j]@).text == pieces@[j]@,
                forall|j: int| 0 <= j < r@.len() ==> (#[trigger] r@[j]@).width == width_of(pieces@[j]@),
                forall|j: int|
                    0 <= j < r@.len() ==> (#[trigger] r@[j]@).width <= 3 * r@[j]@.text.len(),
            decreases n - i,
        {
            let piece_ref: &String = &pieces[i];
            let cell = cell_from_string(piece_ref.clone());
            r.push(cell);
            i = i + 1;
        }
        proof {
            assert(forall|i: int|
                0 <= i < pieces@.len() ==> pieces.deep_view()[i] == (#[trigger] pieces@[i])@);
        }
        r
    }

    /// Insert a string at the cursor, one grapheme cell per cluster,
    /// stepping the cursor past the inserted span.  When the line cannot
    /// grow by the string's size, nothing changes.
    pub fn insert_chars_at_cursor(&mut self, s: &str)
        requires
            old(self).wf(),
        ensures
            final(self).wf(),
            final(self)@.back == old(self)@.back,
            final(self)@ == insert_text_full_sp(old(self)@, s@),
            insert_fits(old(self)@, s@) ==> text_before(final(self)@) == text_before(old(self)@)
                + s@,
    {
        let sbytes = s.as_bytes_vec();
        let total_bytes = sbytes.len();
        let ulen = s.unicode_len();
        let fits_b = match self.fbytes.checked_add(total_bytes) {
            Some(_) => true,
            None => false,
        };
        let fits_w = match ulen.checked_mul(3) {
            Some(w) => match self.fwidth.checked_add(w) {
                Some(_) => true,
                None => false,
            },
            None => false,
        };
        if !(fits_b && fits_w) {
            return ;
        }
        let ghost oldv = self@;
        let pieces = split_graphemes(s);
        let ghost psv = pieces.deep_view();
        let cells = Self::make_cells(pieces);
        let ghost csv = cells@.map_values(|c: Cell| c@);
        proof {
            assert(forall|i: int| 0 <= i < csv.len() ==> csv[i] == (#[trigger] cells@[i])@);
            lemma_concat_texts_pointwise(csv, psv);
            lemma_sum_bytes_is_text_bytes(csv);
            lemma_sum_width_bound(csv);
            assert(concat_texts(csv) == s@);
            assert(sbytes@ == encode_utf8(s@));
            assert(sum_bytes(csv) == total_bytes);
            assert(sum_width(csv) <= 3 * s@.len());
        }
        let mut cells = cells;
        let n = cells.len();
        let mut j: usize = 0;
        let ghost cur0 = oldv.cur;
        proof {
            assert(csv.take(0) =~= Seq::<CellV>::empty());
            assert(oldv.front.take(cur0 as int) + csv.take(0) =~= oldv.front.take(cur0 as int));
        }
        while j < n
            invariant
                j <= n,
                cells@.len() == n - j,
                csv.len() == n,
                cur0 <= oldv.front.len(),
                self.wf(),
                forall|k: int| 0 <= k < cells@.len() ==> cell_wf(#[trigger] cells@[k]),
                forall|k: int| 0 <= k < cells@.len() ==> (#[trigger] cells@[k])@ == csv[k + j],
                sum_bytes(oldv.front) + sum_bytes(csv) <= usize::MAX,
                sum_width(oldv.front) + sum_width(csv) <= usize::MAX,
                self@.back == oldv.back,
                self@.cur == cur0 + j,
                self@.front =~= oldv.front.take(cur0 as int) + csv.take(j as int) + oldv.front.skip(
                    cur0 as int,
                ),
            decreases n - j,
        {
            let ghost prev = self@;
            proof {
                let fb = |c: CellV| cell_bytes(c);
                let fw = |c: CellV| c.width;
                lemma_sum_of_concat(oldv.front.take(cur0 as int) + csv.take(j as int), oldv.front.skip(cur0 as int), fb);
                lemma_sum_of_concat(oldv.front.take(cur0 as int), csv.take(j as int), fb);
                lemma_sum_of_split(oldv.front, cur0 as int, fb);
                lemma_sum_of_take_succ(csv, j as int, fb);
                lemma_sum_of_split(csv, j + 1, fb);
                lemma_sum_of_concat(oldv.front.take(cur0 as int) + csv.take(j as int), oldv.front.skip(cur0 as int), fw);
                lemma_sum_of_concat(oldv.front.take(cur0 as int), csv.take(j as int), fw);
                lemma_sum_of_split(oldv.front, cur0 as int, fw);
                lemma_sum_of_take_succ(csv, j as int, fw);
                lemma_sum_of_split(csv, j + 1, fw);
                assert(sum_bytes(prev.front) + cell_bytes(csv[j as int]) <= usize::MAX);
                assert(sum_width(prev.front) + csv[j as int].width <= usize::MAX);
            }
            let cell = cells.remove(0);
            proof {
                assert(cell@ == csv[j as int]);
            }
            let ok = self.insert_cell(cell);
            proof {
                assert(ok);
                assert(self@.front =~= prev.front.insert(prev.cur as int, csv[j as int]));
                assert(self@.front =~= oldv.front.take(cur0 as int) + csv.take(j + 1)
                    + oldv.front.skip(cur0 as int));
            }
            j = j + 1;
        }
        proof {
            assert(csv.take(n as int) =~= csv);
            assert(self@.front.take(self@.cur as int) =~= oldv.front.take(cur0 as int) + csv);
            lemma_concat_texts_concat(oldv.front.take(cur0 as int), csv);
            assert(self@.front.skip(self@.cur as int) =~= oldv.front.skip(cur0 as int));
            assert(self@.front.take(cur0 as int) =~= oldv.front.take(cur0 as int));
            assert(csv =~= cells_of_text(s@));
            assert(self@ =~= insert_text_sp(oldv, s@));
        }
    }
}

/// The cells a text becomes when inserted: one cell per grapheme
/// cluster, each with its displayed width.
pub open spec fn cells_of_text(s: Seq<char>) -> Seq<CellV> {
    graphemes_of(s).map_values(|p: Seq<char>| CellV { text: p, width: width_of(p) })
}

/// Whether the line can grow by the given text: its byte total and twice
/// its character count must stay within the machine's integer range.
pub open spec fn insert_fits(b: BufV, s: Seq<char>) -> bool {
    &&& sum_bytes(b.front) + encode_utf8(s).len() <= usize::MAX
    &&& sum_width(b.front) + 3 * s.len() <= usize::MAX
}

/// What replacing the cell under the cursor by a text does: the cell
/// leaves, then the text's cells go in if the line can hold them, and
/// the cursor stays where it was.
pub open spec fn replace_text_sp(b: BufV, s: Seq<char>) -> BufV {
    let after_del = if b.cur < b.front.len() {
        BufV { front: b.front.remove(b.cur as int), back: b.back, cur: b.cur }
    } else {
        b
    };
    let ins = insert_text_full_sp(after_del, s);
    BufV { front: ins.front, back: ins.back, cur: b.cur }
}

/// Inserting a text that the line cannot hold changes nothing.
pub open spec fn insert_text_full_sp(b: BufV, s: Seq<char>) -> BufV {
    if insert_fits(b, s) {
        insert_text_sp(b, s)
    } else {
        b
    }
}

/// What making a string the whole front line does: its cells with the
/// cursor at the end, or an empty line for a string too large to hold.
pub open spec fn replace_line_sp(b: BufV, s: Seq<char>) -> BufV {
    if replace_fits(s) {
        BufV { front: cells_of_text(s), back: b.back, cur: cells_of_text(s).len() }
    } else {
        BufV { front: Seq::empty(), back: b.back, cur: 0 }
    }
}

/// What inserting a text at the cursor does: its cells go in at the
/// cursor, and the cursor moves past them.
pub open spec fn insert_text_sp(b: BufV, s: Seq<char>) -> BufV {
    BufV {
        front: b.front.take(b.cur as int) + cells_of_text(s) + b.front.skip(b.cur as int),
        back: b.back,
        cur: b.cur + cells_of_text(s).len(),
    }
}


/// The UTF-8 encoding of a text is between one and four bytes per
/// character.
pub proof fn lemma_encode_utf8_len_bounds(s: Seq<char>)
    ensures
        s.len() <= encode_utf8(s).len() <= 4 * s.len(),
    decreases s.len(),
{
    if s.len() > 0 {
        lemma_encode_utf8_len_bounds(s.drop_first());
    }
}

/// A line's text splits at the cursor.
pub proof fn lemma_buf_text_split(b: BufV)
    requires
        b.cur <= b.front.len(),
    ensures
        buf_text(b) == text_before(b) + concat_texts(b.front.skip(b.cur as int)),
{
    assert(b.front =~= b.front.take(b.cur as int) + b.front.skip(b.cur as int));
    lemma_concat_texts_concat(b.front.take(b.cur as int), b.front.skip(b.cur as int));
}

/// The text that replacing the cell under the cursor leaves to the right
/// of the inserted span.
pub open spec fn tail_after_replace(b: BufV) -> Seq<CellV> {
    if b.cur < b.front.len() {
        b.front.skip(b.cur as int + 1)
    } else {
        b.front.skip(b.cur as int)
    }
}

impl Buffer {
    /// The class of the leading character of the cell at the given index.
    fn char_class_at(&self, i: usize) -> (r: CharClass)
        requires
            self.wf(),
            i < self@.front.len(),
        ensures
            r == class_of(self@.front[i as int].text[0]),
    {
        proof {
            self.lemma_view_index();
        }
        classify(self.front[i].first)
    }

    /// The leading character of the cell at the given index.
    fn first_char_at(&self, i: usize) -> (r: char)
        requires
            self.wf(),
            i < self@.front.len(),
        ensures
            r == self@.front[i as int].text[0],
    {
        proof {
            self.lemma_view_index();
        }
        self.front[i].first
    }

    /// Remove the cell under the cursor; answers whether one was there.
    pub fn delete_char_right_of_cursor(&mut self) -> (r: bool)
        requires
            old(self).wf(),
        ensures
            final(self).wf(),
            final(self)@.back == old(self)@.back,
            r == (old(self)@.cur < old(self)@.front.len()),
            r ==> final(self)@.front == old(self)@.front.remove(old(self)@.cur as int)
                && final(self)@.cur == old(self)@.cur,
            !r ==> final(self)@ == old(self)@,
    {
        proof {
            self.lemma_view_index();
        }
        if self.cur < self.front.len() {
            let ghost oldv = self@;
            let ghost cv = self@.front[self.cur as int];
            proof {
                let fb = |c: CellV| cell_bytes(c);
                let fw = |c: CellV| c.width;
                lemma_sum_of_split(oldv.front, oldv.cur as int, fb);
                lemma_sum_of_split(oldv.front.skip(oldv.cur as int), 1, fb);
                lemma_sum_of_singleton(cv, fb);
                assert(oldv.front.skip(oldv.cur as int).take(1) =~= seq![cv]);
                lemma_sum_of_split(oldv.front, oldv.cur as int, fw);
                lemma_sum_of_split(oldv.front.skip(oldv.cur as int), 1, fw);
                lemma_sum_of_singleton(cv, fw);
            }
            let cell = self.front.remove(self.cur);
            let nb = cell.bytes.len();
            let w = cell.width;
            proof {
                assert(cell@ == cv);
                assert(nb == cell_bytes(cv));
                let fb = |c: CellV| cell_bytes(c);
                let fw = |c: CellV| c.width;
                assert(self@.front =~= oldv.front.remove(oldv.cur as int));
                assert(self@.front =~= oldv.front.take(oldv.cur as int) + oldv.front.skip(
                    oldv.cur as int,
                ).skip(1));
                lemma_sum_of_concat(oldv.front.take(oldv.cur as int), oldv.front.skip(oldv.cur as int).skip(1), fb);
                lemma_sum_of_concat(oldv.front.take(oldv.cur as int), oldv.front.skip(oldv.cur as int).skip(1), fw);
                assert(oldv.front.skip(oldv.cur as int).skip(1) =~= oldv.front.skip(
                    oldv.cur as int,
                ).skip(1));
                assert(self@.front.take(self.cur as int) =~= oldv.front.take(oldv.cur as int));
            }
            self.fbytes = self.fbytes - nb;
            self.fwidth = self.fwidth - w;
            self.text = Self::make_text(&self.front);
            true
        } else {
            false
        }
    }

    /// Remove the cell left of the cursor, moving the cursor onto the gap;
    /// answers whether one was there.
    pub fn delete_char_left_of_cursor(&mut self) -> (r: bool)
        requires
            old(self).wf(),
        ensures
            final(self).wf(),
            final(self)@.back == old(self)@.back,
            r == (old(self)@.cur > 0),
            r ==> final(self)@.front == old(self)@.front.remove(old(self)@.cur - 1)
                && final(self)@.cur == old(self)@.cur - 1,
            !r ==> final(self)@ == old(self)@,
    {
        if self.move_left() {
            let deleted = self.delete_char_right_of_cursor();
            proof {
                assert(deleted);
            }
            true
        } else {
            false
        }
    }

    /// Exchange the front and back lines, placing the cursor at the end
    /// of the new front line.
    pub fn swap(&mut self)
        requires
            old(self).wf(),
        ensures
            final(self).wf(),
            final(self)@.front == old(self)@.back,
            final(self)@.back == old(self)@.front,
            final(self)@.cur == old(self)@.back.len(),
    {
        core::mem::swap(&mut self.front, &mut self.back);
        let fb = self.fbytes;
        let fw = self.fwidth;
        self.fbytes = self.bbytes;
        self.fwidth = self.bwidth;
        self.bbytes = fb;
        self.bwidth = fw;
        self.cur = self.front.len();
        self.byte_off = self.fbytes;
        self.text = Self::make_text(&self.front);
        proof {
            assert(self@.front.take(self@.front.len() as int) =~= self@.front);
        }
    }

    /// Extract the front line's text, leaving the front line empty with
    /// the cursor at its start.
    pub fn drain(&mut self) -> (r: String)
        requires
            old(self).wf(),
        ensures
            final(self).wf(),
            r@ == buf_text(old(self)@),
            final(self)@.front.len() == 0,
            final(self)@.back == old(self)@.back,
            final(self)@.cur == 0,
    {
        let mut out = String::new();
        core::mem::swap(&mut out, &mut self.text);
        self.front = Vec::new();
        self.cur = 0;
        self.byte_off = 0;
        self.fbytes = 0;
        self.fwidth = 0;
        proof {
            assert(self@.front =~= Seq::<CellV>::empty());
            assert(self@.front.take(0) =~= Seq::<CellV>::empty());
        }
        out
    }

    /// Make the given string the front line, with the cursor at its end.
    /// A string too large for the line's bookkeeping leaves the front
    /// line empty.
    pub fn replace(&mut self, s: &str)
        requires
            old(self).wf(),
        ensures
            final(self).wf(),
            final(self)@.back == old(self)@.back,
            final(self)@.cur == final(self)@.front.len(),
            final(self)@ == replace_line_sp(old(self)@, s@),
            replace_fits(s@) ==> buf_text(final(self)@) == s@,
            4 * s@.len() <= usize::MAX ==> replace_fits(s@),
    {
        let _drained = self.drain();
        let ghost emptied = self@;
        self.insert_chars_at_cursor(s);
        proof {
            lemma_encode_utf8_len_bounds(s@);
            if replace_fits(s@) {
                assert(insert_fits(emptied, s@));
                lemma_buf_text_split(self@);
                assert(self@.front.skip(self@.cur as int) =~= emptied.front.skip(0));
                assert(concat_texts(emptied.front.skip(0)) =~= concat_texts(emptied.front));
                assert(emptied.front.skip(0) =~= emptied.front);
                assert(text_before(emptied) =~= Seq::<char>::empty());
                assert(self@.front.take(self@.cur as int) =~= self@.front);
                assert(text_before(self@) == s@);
                assert(self@.front =~= cells_of_text(s@));
            }
        }
        self.move_end();
        proof {
            if !replace_fits(s@) {
                assert(!insert_fits(emptied, s@));
                assert(self@.front =~= Seq::<CellV>::empty());
            }
            assert(self@ =~= replace_line_sp(old(self)@, s@));
        }
    }

    /// Replace the cell under the cursor by the given string without net
    /// cursor movement.
    pub fn replace_chars_at_cursor(&mut self, s: &str)
        requires
            old(self).wf(),
        ensures
            final(self).wf(),
            final(self)@.back == old(self)@.back,
            final(self)@.cur == old(self)@.cur,
            final(self)@ == replace_text_sp(old(self)@, s@),
            insert_fits(old(self)@, s@) ==> buf_text(final(self)@) == text_before(old(self)@) + s@
                + concat_texts(tail_after_replace(old(self)@)),
    {
        let ghost oldv = self@;
        let p = self.pos();
        let deleted = self.delete_char_right_of_cursor();
        let ghost delv = self@;
        proof {
            if deleted {
                let fb = |c: CellV| cell_bytes(c);
                let fw = |c: CellV| c.width;
                lemma_sum_of_split(oldv.front, oldv.cur as int, fb);
                lemma_sum_of_split(oldv.front.skip(oldv.cur as int), 1, fb);
                lemma_sum_of_split(oldv.front, oldv.cur as int, fw);
                lemma_sum_of_split(oldv.front.skip(oldv.cur as int), 1, fw);
                lemma_sum_of_concat(oldv.front.take(oldv.cur as int), oldv.front.skip(oldv.cur as int).skip(1), fb);
                lemma_sum_of_concat(oldv.front.take(oldv.cur as int), oldv.front.skip(oldv.cur as int).skip(1), fw);
                assert(delv.front =~= oldv.front.take(oldv.cur as int) + oldv.front.skip(
                    oldv.cur as int,
                ).skip(1));
                assert(sum_bytes(delv.front) <= sum_bytes(oldv.front));
                assert(sum_width(delv.front) <= sum_width(oldv.front));
            }
            assert(delv.front.take(delv.cur as int) =~= oldv.front.take(oldv.cur as int));
        }
        self.insert_chars_at_cursor(s);
        let ghost insv = self@;
        let moved = self.move_to_pos(p);
        proof {
            if deleted {
                assert(delv =~= (BufV {
                    front: oldv.front.remove(oldv.cur as int),
                    back: oldv.back,
                    cur: oldv.cur,
                }));
            } else {
                assert(delv =~= oldv);
            }
            assert(self@ =~= replace_text_sp(oldv, s@));
            if insert_fits(oldv, s@) {
                assert(insert_fits(delv, s@));
                lemma_buf_text_split(insv);
                assert(text_before(insv) == text_before(delv) + s@);
                assert(text_before(delv) == text_before(oldv));
                assert(insv.front.skip(insv.cur as int) == delv.front.skip(delv.cur as int));
                if deleted {
                    assert(delv.front.skip(delv.cur as int) =~= oldv.front.skip(
                        oldv.cur as int,
                    ).skip(1));
                    assert(oldv.front.skip(oldv.cur as int).skip(1) =~= oldv.front.skip(
                        oldv.cur as int + 1,
                    ));
                } else {
                    assert(delv.front.skip(delv.cur as int) =~= oldv.front.skip(oldv.cur as int));
                }
            }
            assert(moved);
        }
    }
}


/// Whether a string can become the whole front line: its encoded bytes
/// and three times its character count must stay within the machine's
/// integer range.
pub open spec fn replace_fits(s: Seq<char>) -> bool {
    &&& encode_utf8(s).len() <= usize::MAX
    &&& 3 * s.len() <= usize::MAX
}


// ---------------------------------------------------------------------------
// Word motions.
// ---------------------------------------------------------------------------

/// The two class schemes of the word motions: keyword mode tells
/// whitespace, keyword characters and other characters apart; whitespace
/// mode only tells whitespace from the rest.
#[derive(Clone, Copy, PartialEq, Eq, Structural, Debug)]
pub enum ViMoveMode {
    Keyword,
    Whitespace,
}

/// The scan direction of a word or character motion.
#[derive(Clone, Copy, PartialEq, Eq, Structural, Debug)]
pub enum ViMoveDir {
    Left,
    Right,
}

/// The class of the cell at the given index.
pub open spec fn cls_at(s: Seq<CellV>, i: int) -> CharClass {
    class_of(s[i].text[0])
}

/// One step of a scan: the cell index after moving one cell in the given
/// direction, when such a move is possible.
pub open spec fn scan_measure(s: Seq<CellV>, cur: nat, dir: ViMoveDir) -> int {
    match dir {
        ViMoveDir::Right => s.len() + 1 - cur,
        ViMoveDir::Left => cur as int,
    }
}

/// The word-start scan: starting from a cell of the class held in `st`,
/// step cell by cell in the given direction and stop on the first cell
/// that begins a different word under the class scheme, skipping
/// whitespace.  The result is the final cell index and whether a stop was
/// found before the line ran out.
pub open spec fn word_scan(
    s: Seq<CellV>,
    cur: nat,
    mode: ViMoveMode,
    dir: ViMoveDir,
    st: CharClass,
) -> (nat, bool)
    decreases scan_measure(s, cur, dir),
{
    if dir == ViMoveDir::Right && cur >= s.len() {
        (cur, false)
    } else if dir == ViMoveDir::Left && cur == 0 {
        (cur, false)
    } else {
        let c2 = if dir == ViMoveDir::Right {
            cur + 1
        } else {
            (cur - 1) as nat
        };
        if c2 >= s.len() {
            (c2, false)
        } else {
            let cl = cls_at(s, c2 as int);
            match st {
                CharClass::Whitespace => {
                    if cl == CharClass::Whitespace {
                        word_scan(s, c2, mode, dir, st)
                    } else {
                        (c2, true)
                    }
                },
                CharClass::Keyword => {
                    if cl == CharClass::Whitespace {
                        word_scan(s, c2, mode, dir, CharClass::Whitespace)
                    } else if mode == ViMoveMode::Keyword && cl == CharClass::Other {
                        (c2, true)
                    } else {
                        word_scan(s, c2, mode, dir, CharClass::Keyword)
                    }
                },
                CharClass::Other => {
                    if cl == CharClass::Whitespace {
                        word_scan(s, c2, mode, dir, CharClass::Whitespace)
                    } else if mode == ViMoveMode::Keyword && cl == CharClass::Keyword {
                        (c2, true)
                    } else {
                        word_scan(s, c2, mode, dir, CharClass::Other)
                    }
                },
            }
        }
    }
}

/// What a word-start motion does: nothing on an empty tail, else the scan
/// seeded with the class of the cell under the cursor.
pub open spec fn word_motion(s: Seq<CellV>, cur: nat, mode: ViMoveMode, dir: ViMoveDir) -> (
    nat,
    bool,
) {
    if cur < s.len() {
        word_scan(s, cur, mode, dir, cls_at(s, cur as int))
    } else {
        (cur, false)
    }
}

impl Buffer {
    fn vi_move_word(&mut self, mode: ViMoveMode, dir: ViMoveDir) -> (r: bool)
        requires
            old(self).wf(),
        ensures
            final(self).wf(),
            final(self)@.front == old(self)@.front,
            final(self)@.back == old(self)@.back,
            final(self)@.cur == word_motion(old(self)@.front, old(self)@.cur, mode, dir).0,
            r == word_motion(old(self)@.front, old(self)@.cur, mode, dir).1,
    {
        proof {
            self.lemma_view_index();
        }
        if self.cur >= self.front.len() {
            return false;
        }
        let mut state = self.char_class_at(self.cur);
        let ghost s0 = self@.front;
        let ghost cur0 = self@.cur;
        let ghost st0 = state;
        loop
            invariant
                self.wf(),
                s0 == old(self)@.front,
                self@.front == s0,
                self@.back == old(self)@.back,
                self@.cur <= s0.len(),
                word_scan(s0, cur0, mode, dir, st0) == word_scan(s0, self@.cur, mode, dir, state),
                word_motion(old(self)@.front, old(self)@.cur, mode, dir) == word_scan(
                    s0,
                    cur0,
                    mode,
                    dir,
                    st0,
                ),
            decreases scan_measure(s0, self@.cur, dir),
        {
            let ghost cur_pre = self@.cur;
            let ghost st_pre = state;
            let moved = match dir {
                ViMoveDir::Right => self.move_right(),
                ViMoveDir::Left => self.move_left(),
            };
            if !moved {
                proof {
                    assert(word_scan(s0, cur_pre, mode, dir, st_pre) == (cur_pre, false));
                }
                return false;
            }
            if self.cur >= self.front.len() {
                proof {
                    assert(word_scan(s0, cur_pre, mode, dir, st_pre) == (self@.cur, false));
                }
                return false;
            }
            let cl = self.char_class_at(self.cur);
            match state {
                CharClass::Whitespace => {
                    match cl {
                        CharClass::Whitespace => {
                        },
                        _ => {
                            return true;
                        },
                    }
                },
                CharClass::Keyword => {
                    match cl {
                        CharClass::Whitespace => {
                            state = CharClass::Whitespace;
                        },
                        CharClass::Other => {
                            if matches!(mode, ViMoveMode::Keyword) {
                                return true;
                            }
                        },
                        CharClass::Keyword => {
                        },
                    }
                },
                CharClass::Other => {
                    match cl {
                        CharClass::Whitespace => {
                            state = CharClass::Whitespace;
                        },
                        CharClass::Keyword => {
                            if matches!(mode, ViMoveMode::Keyword) {
                                return true;
                            }
                        },
                        CharClass::Other => {
                        },
                    }
                },
            }
            proof {
                assert(word_scan(s0, cur_pre, mode, dir, st_pre) == word_scan(
                    s0,
                    self@.cur,
                    mode,
                    dir,
                    state,
                ));
            }
        }
    }

    /// Step to the next word start, telling keywords, other characters
    /// and whitespace apart.
    pub fn move_word(&mut self) -> (r: bool)
        requires
            old(self).wf(),
        ensures
            final(self).wf(),
            final(self)@.front == old(self)@.front,
            final(self)@.back == old(self)@.back,
            final(self)@.cur == word_motion(
                old(self)@.front,
                old(self)@.cur,
                ViMoveMode::Keyword,
                ViMoveDir::Right,
            ).0,
            r == word_motion(
                old(self)@.front,
                old(self)@.cur,
                ViMoveMode::Keyword,
                ViMoveDir::Right,
            ).1,
    {
        self.vi_move_word(ViMoveMode::Keyword, ViMoveDir::Right)
    }

    /// Step to the next word start, telling only whitespace from the rest.
    pub fn move_word_ws(&mut self) -> (r: bool)
        requires
            old(self).wf(),
        ensures
            final(self).wf(),
            final(self)@.front == old(self)@.front,
            final(self)@.back == old(self)@.back,
            final(self)@.cur == word_motion(
                old(self)@.front,
                old(self)@.cur,
                ViMoveMode::Whitespace,
                ViMoveDir::Right,
            ).0,
            r == word_motion(
                old(self)@.front,
                old(self)@.cur,
                ViMoveMode::Whitespace,
                ViMoveDir::Right,
            ).1,
    {
        self.vi_move_word(ViMoveMode::Whitespace, ViMoveDir::Right)
    }

    /// Step left to the nearest word start boundary under the keyword
    /// scheme.
    pub fn move_to_end_of_word_back(&mut self) -> (r: bool)
        requires
            old(self).wf(),
        ensures
            final(self).wf(),
            final(self)@.front == old(self)@.front,
            final(self)@.back == old(self)@.back,
            final(self)@.cur == word_motion(
                old(self)@.front,
                old(self)@.cur,
                ViMoveMode::Keyword,
                ViMoveDir::Left,
            ).0,
            r == word_motion(
                old(self)@.front,
                old(self)@.cur,
                ViMoveMode::Keyword,
                ViMoveDir::Left,
            ).1,
    {
        self.vi_move_word(ViMoveMode::Keyword, ViMoveDir::Left)
    }

    /// Step left to the nearest word start boundary under the whitespace
    /// scheme.
    pub fn move_to_end_of_word_ws_back(&mut self) -> (r: bool)
        requires
            old(self).wf(),
        ensures
            final(self).wf(),
            final(self)@.front == old(self)@.front,
            final(self)@.back == old(self)@.back,
            final(self)@.cur == word_motion(
                old(self)@.front,
                old(self)@.cur,
                ViMoveMode::Whitespace,
                ViMoveDir::Left,
            ).0,
            r == word_motion(
                old(self)@.front,
                old(self)@.cur,
                ViMoveMode::Whitespace,
                ViMoveDir::Left,
            ).1,
    {
        self.vi_move_word(ViMoveMode::Whitespace, ViMoveDir::Left)
    }
}


/// The states of the end-of-word scan: skipping leading whitespace, or
/// committed to end on a keyword run, on a run of other characters, or on
/// a non-whitespace run.
#[derive(Clone, Copy, PartialEq, Eq, Structural, Debug)]
pub enum EndScan {
    Skip,
    OnWord,
    OnOther,
    OnWs,
}

/// Where an end-of-word scan backs off to once its terminating class
/// transition is found.
pub open spec fn scan_back(c2: nat, dir: ViMoveDir) -> nat {
    if dir == ViMoveDir::Right {
        (c2 - 1) as nat
    } else {
        c2 + 1
    }
}

/// The end-of-word scan: skip leading whitespace, commit to the class of
/// the first non-whitespace cell, then stop one cell short of the first
/// cell that ends the run.
pub open spec fn word_end_scan(
    s: Seq<CellV>,
    cur: nat,
    mode: ViMoveMode,
    dir: ViMoveDir,
    st: EndScan,
) -> (nat, bool)
    decreases scan_measure(s, cur, dir),
{
    if dir == ViMoveDir::Right && cur >= s.len() {
        (cur, false)
    } else if dir == ViMoveDir::Left && cur == 0 {
        (cur, false)
    } else {
        let c2 = if dir == ViMoveDir::Right {
            cur + 1
        } else {
            (cur - 1) as nat
        };
        if c2 >= s.len() {
            (c2, false)
        } else {
            let cl = cls_at(s, c2 as int);
            match st {
                EndScan::Skip => {
                    if cl == CharClass::Whitespace {
                        word_end_scan(s, c2, mode, dir, EndScan::Skip)
                    } else if mode == ViMoveMode::Keyword && cl == CharClass::Keyword {
                        word_end_scan(s, c2, mode, dir, EndScan::OnWord)
                    } else if mode == ViMoveMode::Whitespace {
                        word_end_scan(s, c2, mode, dir, EndScan::OnWs)
                    } else {
                        word_end_scan(s, c2, mode, dir, EndScan::OnOther)
                    }
                },
                EndScan::OnWord => {
                    if cl != CharClass::Keyword {
                        (scan_back(c2, dir), true)
                    } else {
                        word_end_scan(s, c2, mode, dir, EndScan::OnWord)
                    }
                },
                EndScan::OnWs => {
                    if cl == CharClass::Whitespace {
                        (scan_back(c2, dir), true)
                    } else {
                        word_end_scan(s, c2, mode, dir, EndScan::OnWs)
                    }
                },
                EndScan::OnOther => {
                    if cl == CharClass::Whitespace || cl == CharClass::Keyword {
                        (scan_back(c2, dir), true)
                    } else {
                        word_end_scan(s, c2, mode, dir, EndScan::OnOther)
                    }
                },
            }
        }
    }
}

/// What an end-of-word motion does.
pub open spec fn word_end_motion(s: Seq<CellV>, cur: nat, mode: ViMoveMode, dir: ViMoveDir) -> (
    nat,
    bool,
) {
    word_end_scan(s, cur, mode, dir, EndScan::Skip)
}

/// The character search: step in the given direction until a cell whose
/// leading character is the target.
pub open spec fn char_scan(s: Seq<CellV>, cur: nat, dir: ViMoveDir, t: char) -> (nat, bool)
    decreases scan_measure(s, cur, dir),
{
    if dir == ViMoveDir::Right && cur >= s.len() {
        (cur, false)
    } else if dir == ViMoveDir::Left && cur == 0 {
        (cur, false)
    } else {
        let c2 = if dir == ViMoveDir::Right {
            cur + 1
        } else {
            (cur - 1) as nat
        };
        if c2 >= s.len() {
            (c2, false)
        } else if s[c2 as int].text[0] == t {
            (c2, true)
        } else {
            char_scan(s, c2, dir, t)
        }
    }
}

/// The character search repeated: each found occurrence seeds the next
/// search; one failure fails the whole search.
pub open spec fn char_scan_n(s: Seq<CellV>, cur: nat, dir: ViMoveDir, t: char, n: nat) -> (
    nat,
    bool,
)
    decreases n,
{
    if n == 0 {
        (cur, true)
    } else {
        let once = char_scan(s, cur, dir, t);
        if !once.1 {
            (once.0, false)
        } else {
            char_scan_n(s, once.0, dir, t, (n - 1) as nat)
        }
    }
}

impl Buffer {
    fn vi_move_word_end(&mut self, mode: ViMoveMode, dir: ViMoveDir) -> (r: bool)
        requires
            old(self).wf(),
        ensures
            final(self).wf(),
            final(self)@.front == old(self)@.front,
            final(self)@.back == old(self)@.back,
            final(self)@.cur == word_end_motion(old(self)@.front, old(self)@.cur, mode, dir).0,
            r == word_end_motion(old(self)@.front, old(self)@.cur, mode, dir).1,
    {
        proof {
            self.lemma_view_index();
        }
        let mut state = EndScan::Skip;
        let ghost s0 = self@.front;
        let ghost cur0 = self@.cur;
        loop
            invariant
                self.wf(),
                s0 == old(self)@.front,
                self@.front == s0,
                self@.back == old(self)@.back,
                self@.cur <= s0.len(),
                cur0 == old(self)@.cur,
                word_end_scan(s0, cur0, mode, dir, EndScan::Skip) == word_end_scan(
                    s0,
                    self@.cur,
                    mode,
                    dir,
                    state,
                ),
            decreases scan_measure(s0, self@.cur, dir),
        {
            let ghost cur_pre = self@.cur;
            let ghost st_pre = state;
            let moved = match dir {
                ViMoveDir::Right => self.move_right(),
                ViMoveDir::Left => self.move_left(),
            };
            if !moved {
                proof {
                    assert(word_end_scan(s0, cur_pre, mode, dir, st_pre) == (cur_pre, false));
                }
                return false;
            }
            if self.cur >= self.front.len() {
                proof {
                    assert(word_end_scan(s0, cur_pre, mode, dir, st_pre) == (self@.cur, false));
                }
                return false;
            }
            let cl = self.char_class_at(self.cur);
            match state {
                EndScan::Skip => {
                    match cl {
                        CharClass::Whitespace => {
                        },
                        CharClass::Keyword => {
                            if matches!(mode, ViMoveMode::Keyword) {
                                state = EndScan::OnWord;
                            } else {
                                state = EndScan::OnWs;
                            }
                        },
                        CharClass::Other => {
                            if matches!(mode, ViMoveMode::Whitespace) {
                                state = EndScan::OnWs;
                            } else {
                                state = EndScan::OnOther;
                            }
                        },
                    }
                },
                EndScan::OnWord => {
                    if !matches!(cl, CharClass::Keyword) {
                        proof {
                            assert(word_end_scan(s0, cur_pre, mode, dir, st_pre) == (
                                scan_back(self@.cur, dir),
                                true,
                            ));
                        }
                        self.go_back(dir);
                        return true;
                    }
                },
                EndScan::OnWs => {
                    if matches!(cl, CharClass::Whitespace) {
                        proof {
                            assert(word_end_scan(s0, cur_pre, mode, dir, st_pre) == (
                                scan_back(self@.cur, dir),
                                true,
                            ));
                        }
                        self.go_back(dir);
                        return true;
                    }
                },
                EndScan::OnOther => {
                    if matches!(cl, CharClass::Whitespace) || matches!(cl, CharClass::Keyword) {
                        proof {
                            assert(word_end_scan(s0, cur_pre, mode, dir, st_pre) == (
                                scan_back(self@.cur, dir),
                                true,
                            ));
                        }
                        self.go_back(dir);
                        return true;
                    }
                },
            }
            proof {
                assert(word_end_scan(s0, cur_pre, mode, dir, st_pre) == word_end_scan(
                    s0,
                    self@.cur,
                    mode,
                    dir,
                    state,
                ));
            }
        }
    }

    /// One step against the scan direction, as the end-of-word scan's
    /// final back-off.
    fn go_back(&mut self, dir: ViMoveDir)
        requires
            old(self).wf(),
        ensures
            final(self).wf(),
            final(self)@.front == old(self)@.front,
            final(self)@.back == old(self)@.back,
            dir == ViMoveDir::Right && old(self)@.cur > 0 ==> final(self)@.cur == old(self)@.cur
                - 1,
            dir == ViMoveDir::Left && old(self)@.cur < old(self)@.front.len() ==> final(self)@.cur
                == old(self)@.cur + 1,
            dir == ViMoveDir::Right && old(self)@.cur == 0 ==> final(self)@.cur == 0,
            dir == ViMoveDir::Left && old(self)@.cur >= old(self)@.front.len() ==> final(self)@.cur
                == old(self)@.cur,
    {
        match dir {
            ViMoveDir::Right => {
                let _moved = self.move_left();
            },
            ViMoveDir::Left => {
                let _moved = self.move_right();
            },
        }
    }

    /// Step right onto the last cell of the current or next word under
    /// the keyword scheme.
    pub fn move_to_end_of_word(&mut self) -> (r: bool)
        requires
            old(self).wf(),
        ensures
            final(self).wf(),
            final(self)@.front == old(self)@.front,
            final(self)@.back == old(self)@.back,
            final(self)@.cur == word_end_motion(
                old(self)@.front,
                old(self)@.cur,
                ViMoveMode::Keyword,
                ViMoveDir::Right,
            ).0,
            r == word_end_motion(
                old(self)@.front,
                old(self)@.cur,
                ViMoveMode::Keyword,
                ViMoveDir::Right,
            ).1,
    {
        self.vi_move_word_end(ViMoveMode::Keyword, ViMoveDir::Right)
    }

    /// Step right onto the last cell of the current or next word under
    /// the whitespace scheme.
    pub fn move_to_end_of_word_ws(&mut self) -> (r: bool)
        requires
            old(self).wf(),
        ensures
            final(self).wf(),
            final(self)@.front == old(self)@.front,
            final(self)@.back == old(self)@.back,
            final(self)@.cur == word_end_motion(
                old(self)@.front,
                old(self)@.cur,
                ViMoveMode::Whitespace,
                ViMoveDir::Right,
            ).0,
            r == word_end_motion(
                old(self)@.front,
                old(self)@.cur,
                ViMoveMode::Whitespace,
                ViMoveDir::Right,
            ).1,
    {
        self.vi_move_word_end(ViMoveMode::Whitespace, ViMoveDir::Right)
    }

    /// Step left onto the first cell of the current or previous word
    /// under the keyword scheme.
    pub fn move_word_back(&mut self) -> (r: bool)
        requires
            old(self).wf(),
        ensures
            final(self).wf(),
            final(self)@.front == old(self)@.front,
            final(self)@.back == old(self)@.back,
            final(self)@.cur == word_end_motion(
                old(self)@.front,
                old(self)@.cur,
                ViMoveMode::Keyword,
                ViMoveDir::Left,
            ).0,
            r == word_end_motion(
                old(self)@.front,
                old(self)@.cur,
                ViMoveMode::Keyword,
                ViMoveDir::Left,
            ).1,
    {
        self.vi_move_word_end(ViMoveMode::Keyword, ViMoveDir::Left)
    }

    /// Step left onto the first cell of the current or previous word
    /// under the whitespace scheme.
    pub fn move_word_ws_back(&mut self) -> (r: bool)
        requires
            old(self).wf(),
        ensures
            final(self).wf(),
            final(self)@.front == old(self)@.front,
            final(self)@.back == old(self)@.back,
            final(self)@.cur == word_end_motion(
                old(self)@.front,
                old(self)@.cur,
                ViMoveMode::Whitespace,
                ViMoveDir::Left,
            ).0,
            r == word_end_motion(
                old(self)@.front,
                old(self)@.cur,
                ViMoveMode::Whitespace,
                ViMoveDir::Left,
            ).1,
    {
        self.vi_move_word_end(ViMoveMode::Whitespace, ViMoveDir::Left)
    }

    fn move_to_char(&mut self, target_c: char, dir: ViMoveDir) -> (r: bool)
        requires
            old(self).wf(),
        ensures
            final(self).wf(),
            final(self)@.front == old(self)@.front,
            final(self)@.back == old(self)@.back,
            final(self)@.cur == char_scan(old(self)@.front, old(self)@.cur, dir, target_c).0,
            r == char_scan(old(self)@.front, old(self)@.cur, dir, target_c).1,
    {
        proof {
            self.lemma_view_index();
        }
        let ghost s0 = self@.front;
        let ghost cur0 = self@.cur;
        loop
            invariant
                self.wf(),
                s0 == old(self)@.front,
                self@.front == s0,
                self@.back == old(self)@.back,
                self@.cur <= s0.len(),
                cur0 == old(self)@.cur,
                char_scan(s0, cur0, dir, target_c) == char_scan(s0, self@.cur, dir, target_c),
            decreases scan_measure(s0, self@.cur, dir),
        {
            let ghost cur_pre = self@.cur;
            let moved = match dir {
                ViMoveDir::Right => self.move_right(),
                ViMoveDir::Left => self.move_left(),
            };
            if !moved {
                proof {
                    assert(char_scan(s0, cur_pre, dir, target_c) == (cur_pre, false));
                }
                return false;
            }
            if self.cur >= self.front.len() {
                proof {
                    assert(char_scan(s0, cur_pre, dir, target_c) == (self@.cur, false));
                }
                return false;
            }
            let c = self.first_char_at(self.cur);
            if c == target_c {
                return true;
            }
            proof {
                assert(char_scan(s0, cur_pre, dir, target_c) == char_scan(
                    s0,
                    self@.cur,
                    dir,
                    target_c,
                ));
            }
        }
    }

    fn move_to_char_n(&mut self, target_c: char, dir: ViMoveDir, count: u32) -> (r: bool)
        requires
            old(self).wf(),
        ensures
            final(self).wf(),
            final(self)@.front == old(self)@.front,
            final(self)@.back == old(self)@.back,
            r == char_scan_n(old(self)@.front, old(self)@.cur, dir, target_c, count as nat).1,
            final(self)@.cur == if r {
                char_scan_n(old(self)@.front, old(self)@.cur, dir, target_c, count as nat).0
            } else {
                old(self)@.cur
            },
    {
        let p = self.pos();
        let ghost s0 = self@.front;
        let ghost cur0 = self@.cur;
        let mut i: u32 = 0;
        while i < count
            invariant
                self.wf(),
                s0 == old(self)@.front,
                self@.front == s0,
                self@.back == old(self)@.back,
                i <= count,
                p.char_pos == cur0,
                cur0 == old(self)@.cur,
                cur0 <= s0.len(),
                char_scan_n(s0, cur0, dir, target_c, count as nat) == char_scan_n(
                    s0,
                    self@.cur,
                    dir,
                    target_c,
                    (count - i) as nat,
                ),
            decreases count - i,
        {
            let ghost cur_pre = self@.cur;
            let found = self.move_to_char(target_c, dir);
            if !found {
                proof {
                    assert(!char_scan_n(s0, cur_pre, dir, target_c, (count - i) as nat).1);
                }
                let restored = self.move_to_pos(p);
                proof {
                    assert(restored);
                }
                return false;
            }
            i = i + 1;
        }
        true
    }

    /// Move right to the count-th occurrence of the target character; on
    /// failure the cursor does not change.
    pub fn move_to_char_right(&mut self, target_c: char, count: u32) -> (r: bool)
        requires
            old(self).wf(),
        ensures
            final(self).wf(),
            final(self)@.front == old(self)@.front,
            final(self)@.back == old(self)@.back,
            r == char_scan_n(
                old(self)@.front,
                old(self)@.cur,
                ViMoveDir::Right,
                target_c,
                count as nat,
            ).1,
            final(self)@.cur == if r {
                char_scan_n(
                    old(self)@.front,
                    old(self)@.cur,
                    ViMoveDir::Right,
                    target_c,
                    count as nat,
                ).0
            } else {
                old(self)@.cur
            },
    {
        self.move_to_char_n(target_c, ViMoveDir::Right, count)
    }

    /// Move left to the count-th occurrence of the target character; on
    /// failure the cursor does not change.
    pub fn move_to_char_left(&mut self, target_c: char, count: u32) -> (r: bool)
        requires
            old(self).wf(),
        ensures
            final(self).wf(),
            final(self)@.front == old(self)@.front,
            final(self)@.back == old(self)@.back,
            r == char_scan_n(
                old(self)@.front,
                old(self)@.cur,
                ViMoveDir::Left,
                target_c,
                count as nat,
            ).1,
            final(self)@.cur == if r {
                char_scan_n(
                    old(self)@.front,
                    old(self)@.cur,
                    ViMoveDir::Left,
                    target_c,
                    count as nat,
                ).0
            } else {
                old(self)@.cur
            },
    {
        self.move_to_char_n(target_c, ViMoveDir::Left, count)
    }
}


// ---------------------------------------------------------------------------
// Scoped deletion and rendering.
// ---------------------------------------------------------------------------

/// What committing a deletion does: every cell between the recorded
/// start and the cursor leaves the line, whichever of the two is further
/// left, and the cursor lands on the left end of the gap.  A recorded
/// start beyond the line counts as the line's end.
pub open spec fn delete_span(b: BufV, start: nat) -> BufV {
    let s2 = if start <= b.front.len() {
        start
    } else {
        b.front.len()
    };
    let lo = if s2 <= b.cur {
        s2
    } else {
        b.cur
    };
    let hi = if s2 <= b.cur {
        b.cur
    } else {
        s2
    };
    BufV { front: b.front.take(lo as int) + b.front.skip(hi as int), back: b.back, cur: lo }
}

/// A scoped deletion: the cursor position at its start, and whether the
/// cell under the cursor was whitespace then, which the change-word
/// command wants to know.
#[must_use]
pub struct DeleteContext {
    was_on_whitespace: bool,
    start: Position,
}

impl DeleteContext {
    /// The cell index recorded when the deletion was started.
    pub closed spec fn start_cur(self) -> nat {
        self.start.char_pos as nat
    }

    /// Whether the deletion started on a whitespace cell.
    pub closed spec fn started_ws(self) -> bool {
        self.was_on_whitespace
    }

    /// Whether the motion started on whitespace.
    pub fn started_on_whitespace(&self) -> (r: bool)
        ensures
            r == self.started_ws(),
    {
        self.was_on_whitespace
    }

    /// Remove everything between the recorded start and the cursor.
    pub fn delete(self, buf: &mut Buffer)
        requires
            old(buf).wf(),
        ensures
            final(buf).wf(),
            final(buf)@ == delete_span(old(buf)@, self.start_cur()),
    {
        let ghost oldv = buf@;
        let len = buf.cell_count();
        let sc = if self.start.char_pos > len {
            len
        } else {
            self.start.char_pos
        };
        let cur = buf.char_pos();
        let (lo, hi) = if sc <= cur {
            (sc, cur)
        } else {
            (cur, sc)
        };
        let moved = buf.move_to_pos(Position { byte_pos: 0, char_pos: hi });
        proof {
            assert(moved);
            assert(buf@.front.take(hi as int) + buf@.front.skip(hi as int) =~= buf@.front);
        }
        let mut k = hi;
        while k > lo
            invariant
                buf.wf(),
                lo <= k <= hi <= oldv.front.len(),
                buf@.back == oldv.back,
                buf@.cur == k,
                buf@.front =~= oldv.front.take(k as int) + oldv.front.skip(hi as int),
            decreases k,
        {
            let ghost prev = buf@;
            let deleted = buf.delete_char_left_of_cursor();
            proof {
                assert(deleted);
                assert(prev.front.remove(k - 1) =~= oldv.front.take(k - 1) + oldv.front.skip(
                    hi as int,
                ));
            }
            k = k - 1;
        }
        proof {
            assert(buf@ == delete_span(oldv, self.start_cur()));
        }
    }
}

impl Buffer {
    /// Record the cursor position and the class under it, to delete back
    /// to after a motion.
    pub fn start_delete(&self) -> (r: DeleteContext)
        requires
            self.wf(),
        ensures
            r.start_cur() == self@.cur,
            r.started_ws() == (self@.cur < self@.front.len() && cls_at(self@.front, self@.cur as int)
                == CharClass::Whitespace),
    {
        let ws = if self.cur < self.front.len() {
            match self.char_class_at(self.cur) {
                CharClass::Whitespace => true,
                _ => false,
            }
        } else {
            false
        };
        DeleteContext { was_on_whitespace: ws, start: self.pos() }
    }

    /// The displayed column of the cursor: the widths of the cells before
    /// it, added up.
    fn cursor_column(&self) -> (r: usize)
        requires
            self.wf(),
        ensures
            r == sum_width(self@.front.take(self@.cur as int)),
    {
        proof {
            self.lemma_view_index();
        }
        let mut acc: usize = 0;
        let mut i: usize = 0;
        proof {
            assert(self@.front.take(0) =~= Seq::<CellV>::empty());
        }
        while i < self.cur
            invariant
                self.wf(),
                i <= self.cur,
                acc == sum_width(self@.front.take(i as int)),
            decreases self.cur - i,
        {
            proof {
                self.lemma_view_index();
                lemma_sum_of_take_succ(self@.front, i as int, |c: CellV| c.width);
                lemma_sum_of_split(self@.front, i + 1, |c: CellV| c.width);
            }
            let w = self.front[i].width;
            proof {
                assert(w == self@.front[i as int].width);
                assert(sum_width(self@.front.take(i + 1)) <= sum_width(self@.front));
            }
            acc = acc + w;
            i = i + 1;
        }
        acc
    }
}

/// The displayed cursor column of a redraw: the prompt's byte count plus
/// the widths of the cells left of the cursor, saturating at the machine
/// limit.
pub open spec fn render_column(b: BufV, prompt: Seq<char>) -> nat {
    let col = encode_utf8(prompt).len() + sum_width(b.front.take(b.cur as int));
    if col <= usize::MAX {
        col
    } else {
        usize::MAX as nat
    }
}

/// The byte sequence of one redraw: an optional clear screen, a carriage
/// return, the prompt, the line, an erase to the right, and the cursor
/// repositioned to its column.
pub open spec fn render_line(b: BufV, prompt: Seq<char>, clear: bool) -> Seq<u8> {
    (if clear {
        crate::builder::bytes_clear_screen()
    } else {
        Seq::<u8>::empty()
    }) + crate::builder::bytes_cr() + encode_utf8(prompt) + encode_utf8(buf_text(b))
        + crate::builder::bytes_erase_right() + crate::builder::bytes_set_cursor(
        render_column(b, prompt),
    )
}

impl Buffer {
    /// Render the line for the given prompt as the bytes that redraw it.
    pub fn get_line(&self, prompt: &str, clear: bool) -> (r: Vec<u8>)
        requires
            self.wf(),
        ensures
            r@ == render_line(self@, prompt@, clear),
    {
        let mut line = crate::builder::Builder::new();
        if clear {
            line.clear_screen();
        }
        line.carriage_return();
        line.append(prompt);
        line.append(self.text.as_str());
        line.erase_to_right();
        let pbytes = prompt.as_bytes_vec();
        let col = pbytes.len().saturating_add(self.cursor_column());
        proof {
            assert(col as nat == render_column(self@, prompt@));
        }
        line.set_cursor_pos(col);
        let r = line.build();
        proof {
            assert(r@ =~= render_line(self@, prompt@, clear));
        }
        r
    }
}


// ---------------------------------------------------------------------------
// Laws.
// ---------------------------------------------------------------------------

/// Law: inserting a character at the cursor is motion-neutral for the
/// rest of the line.  The line becomes the text before the cursor, the
/// character, and the text after; stepping left and then right afterwards
/// lands back immediately after the inserted character.
pub proof fn lemma_insert_motion_neutral(b: BufV, c: char)
    requires
        b.cur <= b.front.len(),
    ensures
        ({
            let cell = CellV { text: seq![c], width: width_of(seq![c]) };
            let ins = BufV {
                front: b.front.insert(b.cur as int, cell),
                back: b.back,
                cur: b.cur + 1,
            };
            &&& buf_text(ins) == text_before(b) + seq![c] + concat_texts(
                b.front.skip(b.cur as int),
            )
            &&& text_before(ins) == text_before(b) + seq![c]
            &&& crate::edit::step_right_sp(crate::edit::step_left_sp(ins).0).0 == ins
        }),
{
    let cell = CellV { text: seq![c], width: width_of(seq![c]) };
    let ins = BufV { front: b.front.insert(b.cur as int, cell), back: b.back, cur: b.cur + 1 };
    assert(ins.front =~= b.front.take(b.cur as int) + seq![cell] + b.front.skip(b.cur as int));
    assert(ins.front.take(ins.cur as int) =~= b.front.take(b.cur as int) + seq![cell]);
    assert(ins.front.skip(ins.cur as int) =~= b.front.skip(b.cur as int));
    lemma_concat_texts_concat(b.front.take(b.cur as int) + seq![cell], b.front.skip(b.cur as int));
    lemma_concat_texts_concat(b.front.take(b.cur as int), seq![cell]);
    lemma_concat_texts_singleton(cell);
    lemma_buf_text_split(ins);
    assert(crate::edit::step_right_sp(crate::edit::step_left_sp(ins).0).0 =~= ins);
}

/// Law: a deletion recorded at one position and committed at another
/// removes exactly the cells between the two, whichever of them comes
/// first, shrinking the line by their count and leaving the cursor on
/// the left end of the gap; recording and cursor positions commute.
pub proof fn lemma_delete_region(b: BufV, start: nat)
    requires
        start <= b.front.len(),
        b.cur <= b.front.len(),
    ensures
        ({
            let d = delete_span(b, start);
            let lo = if start <= b.cur {
                start
            } else {
                b.cur
            };
            let hi = if start <= b.cur {
                b.cur
            } else {
                start
            };
            &&& d.front == b.front.take(lo as int) + b.front.skip(hi as int)
            &&& d.front.len() == b.front.len() - (hi - lo)
            &&& d.cur == lo
            &&& d == delete_span(
                (BufV { front: b.front, back: b.back, cur: start }),
                b.cur,
            )
        }),
{
    let d = delete_span(b, start);
    let d2 = delete_span(BufV { front: b.front, back: b.back, cur: start }, b.cur);
    assert(d.front =~= d2.front);
    assert(d =~= d2);
}


// ---------------------------------------------------------------------------
// Characterizing the word motions over whitespace-delimited text.
// ---------------------------------------------------------------------------

/// Text made only of whitespace and keyword cells: whitespace-delimited
/// tokens.
pub open spec fn two_class(s: Seq<CellV>) -> bool {
    forall|i: int| 0 <= i < s.len() ==> cls_at(s, i) != CharClass::Other
}

/// A cell that begins a word: a keyword cell at the line's start or
/// right after whitespace.
pub open spec fn word_start(s: Seq<CellV>, i: nat) -> bool {
    &&& i < s.len()
    &&& cls_at(s, i as int) == CharClass::Keyword
    &&& (i == 0 || cls_at(s, i - 1) == CharClass::Whitespace)
}

/// The end of the run of `c`-class cells from `j` on: the first index at
/// or after `j` whose cell has another class, or the line's end.
pub open spec fn run_end(s: Seq<CellV>, j: nat, c: CharClass) -> nat
    decreases s.len() - j,
{
    if j >= s.len() {
        s.len()
    } else if cls_at(s, j as int) == c {
        run_end(s, j + 1, c)
    } else {
        j
    }
}

/// The start of the run of `c`-class cells ending just before `j`: the
/// smallest index from which every cell up to `j` has class `c`.
pub open spec fn run_back(s: Seq<CellV>, j: nat, c: CharClass) -> nat
    decreases j,
{
    if j == 0 {
        0
    } else if cls_at(s, j - 1) == c {
        run_back(s, (j - 1) as nat, c)
    } else {
        j
    }
}

proof fn lemma_run_end_props(s: Seq<CellV>, j: nat, c: CharClass)
    requires
        j <= s.len(),
    ensures
        j <= run_end(s, j, c) <= s.len(),
        forall|k: int| j <= k < run_end(s, j, c) ==> cls_at(s, k) == c,
        run_end(s, j, c) < s.len() ==> cls_at(s, run_end(s, j, c) as int) != c,
    decreases s.len() - j,
{
    if j < s.len() && cls_at(s, j as int) == c {
        lemma_run_end_props(s, j + 1, c);
    }
}

proof fn lemma_run_back_props(s: Seq<CellV>, j: nat, c: CharClass)
    ensures
        run_back(s, j, c) <= j,
        forall|k: int| run_back(s, j, c) <= k < j ==> cls_at(s, k) == c,
        run_back(s, j, c) > 0 ==> cls_at(s, run_back(s, j, c) - 1) != c,
    decreases j,
{
    if j > 0 && cls_at(s, j - 1) == c {
        lemma_run_back_props(s, (j - 1) as nat, c);
    }
}

/// A run with a witness boundary pins `run_back` down.
proof fn lemma_run_back_eq(s: Seq<CellV>, j: nat, c: CharClass, m: nat)
    requires
        m <= j,
        forall|k: int| m <= k < j ==> cls_at(s, k) == c,
        m == 0 || cls_at(s, m - 1) != c,
    ensures
        run_back(s, j, c) == m,
    decreases j,
{
    if j > m {
        lemma_run_back_eq(s, (j - 1) as nat, c, m);
    }
}

/// The word-start scan seeded in the whitespace state walks over the
/// whitespace run and stops on the first cell past it.
proof fn lemma_fwd_scan_ws(s: Seq<CellV>, k: nat)
    requires
        two_class(s),
        k < s.len() || k == s.len(),
    ensures
        ({
            let w = run_end(s, k + 1, CharClass::Whitespace);
            word_scan(s, k, ViMoveMode::Keyword, ViMoveDir::Right, CharClass::Whitespace) == (
            if w < s.len() {
                (w, true)
            } else {
                (s.len(), false)
            })
        }),
    decreases s.len() - k,
{
    if k >= s.len() {
        assert(run_end(s, k + 1, CharClass::Whitespace) == s.len());
    } else if k + 1 >= s.len() {
    } else {
        if cls_at(s, (k + 1) as int) == CharClass::Whitespace {
            lemma_fwd_scan_ws(s, k + 1);
        }
    }
}

/// The word-start scan seeded in the keyword state walks to the end of
/// the keyword run, then over the whitespace run, and stops on the next
/// word's first cell.
proof fn lemma_fwd_scan_kw(s: Seq<CellV>, k: nat)
    requires
        two_class(s),
        k <= s.len(),
    ensures
        ({
            let e = run_end(s, k + 1, CharClass::Keyword);
            let w = run_end(s, e, CharClass::Whitespace);
            word_scan(s, k, ViMoveMode::Keyword, ViMoveDir::Right, CharClass::Keyword) == (
            if w < s.len() {
                (w, true)
            } else {
                (s.len(), false)
            })
        }),
    decreases s.len() - k,
{
    if k >= s.len() {
    } else if k + 1 >= s.len() {
    } else {
        if cls_at(s, (k + 1) as int) == CharClass::Keyword {
            lemma_fwd_scan_kw(s, k + 1);
        } else {
            assert(cls_at(s, (k + 1) as int) == CharClass::Whitespace);
            lemma_fwd_scan_ws(s, k + 1);
            assert(run_end(s, k + 1, CharClass::Keyword) == k + 1);
            assert(run_end(s, k + 1, CharClass::Whitespace) == run_end(
                s,
                k + 2,
                CharClass::Whitespace,
            ));
        }
    }
}

/// The end-of-word scan leftwards, already inside a keyword run, stops
/// on the run's first cell.
proof fn lemma_back_scan_onword(s: Seq<CellV>, k: nat)
    requires
        two_class(s),
        k <= s.len(),
    ensures
        ({
            let kb = run_back(s, k, CharClass::Keyword);
            word_end_scan(s, k, ViMoveMode::Keyword, ViMoveDir::Left, EndScan::OnWord) == (
            if kb == 0 {
                (0, false)
            } else {
                (kb, true)
            })
        }),
    decreases k,
{
    if k == 0 {
    } else {
        if cls_at(s, k - 1) == CharClass::Keyword {
            lemma_back_scan_onword(s, (k - 1) as nat);
        }
    }
}

/// The end-of-word scan leftwards from its skip state walks over the
/// whitespace run, then through the keyword run before it, and stops on
/// that word's first cell.
proof fn lemma_back_scan_skip(s: Seq<CellV>, j: nat)
    requires
        two_class(s),
        j <= s.len(),
    ensures
        ({
            let a = run_back(s, j, CharClass::Whitespace);
            let kb = run_back(s, a, CharClass::Keyword);
            word_end_scan(s, j, ViMoveMode::Keyword, ViMoveDir::Left, EndScan::Skip) == (
            if kb == 0 {
                (0, false)
            } else {
                (kb, true)
            })
        }),
    decreases j,
{
    if j == 0 {
    } else {
        if cls_at(s, j - 1) == CharClass::Whitespace {
            lemma_back_scan_skip(s, (j - 1) as nat);
        } else {
            assert(cls_at(s, j - 1) == CharClass::Keyword);
            lemma_back_scan_onword(s, (j - 1) as nat);
            assert(run_back(s, j, CharClass::Whitespace) == j);
            assert(run_back(s, j, CharClass::Keyword) == run_back(
                s,
                (j - 1) as nat,
                CharClass::Keyword,
            ));
        }
    }
}

/// Law (one step): over whitespace-delimited keyword text, a word-forward
/// motion from a word start lands on the next word start when it finds
/// one (or at the line's end), and one word-back motion undoes it
/// exactly.
pub proof fn lemma_word_symmetry_step(s: Seq<CellV>, i: nat)
    requires
        two_class(s),
        word_start(s, i),
    ensures
        ({
            let f = word_motion(s, i, ViMoveMode::Keyword, ViMoveDir::Right);
            &&& (f.1 ==> word_start(s, f.0) && f.0 > i)
            &&& (!f.1 ==> f.0 == s.len())
            &&& word_end_motion(s, f.0, ViMoveMode::Keyword, ViMoveDir::Left).0 == i
            &&& word_end_motion(s, f.0, ViMoveMode::Keyword, ViMoveDir::Left).1 == (i > 0)
        }),
{
    let e = run_end(s, i + 1, CharClass::Keyword);
    let w = run_end(s, e, CharClass::Whitespace);
    lemma_fwd_scan_kw(s, i);
    lemma_run_end_props(s, i + 1, CharClass::Keyword);
    lemma_run_end_props(s, e, CharClass::Whitespace);
    let f = word_motion(s, i, ViMoveMode::Keyword, ViMoveDir::Right);
    assert(f == (if w < s.len() {
        (w, true)
    } else {
        (s.len(), false)
    }));
    // Between i and e the cells are keyword cells; between e and w they
    // are whitespace; so scanning back from f.0 first crosses the
    // whitespace run to e, then the keyword run down to i.
    lemma_back_scan_skip(s, f.0);
    if e < s.len() {
        assert(cls_at(s, e as int) == CharClass::Whitespace);
    }
    if w < s.len() {
        assert(run_back(s, w, CharClass::Whitespace) == e) by {
            lemma_run_back_eq(s, w, CharClass::Whitespace, e);
        }
        assert(run_back(s, e, CharClass::Keyword) == i) by {
            lemma_run_back_eq(s, e, CharClass::Keyword, i);
        }
    } else {
        if e < s.len() {
            assert(run_back(s, s.len(), CharClass::Whitespace) == e) by {
                lemma_run_back_eq(s, s.len(), CharClass::Whitespace, e);
            }
            assert(run_back(s, e, CharClass::Keyword) == i) by {
                lemma_run_back_eq(s, e, CharClass::Keyword, i);
            }
        } else {
            assert(run_back(s, s.len(), CharClass::Whitespace) == s.len()) by {
                lemma_run_back_eq(s, s.len(), CharClass::Whitespace, s.len());
            }
            assert(run_back(s, s.len(), CharClass::Keyword) == i) by {
                lemma_run_back_eq(s, s.len(), CharClass::Keyword, i);
            }
        }
    }
}

} // verus!
