//! The recency list of past lines and a cursor over it.

use vstd::prelude::*;
use std::collections::VecDeque;

verus! {

/// Past lines, most recent first.
pub struct History {
    deque: VecDeque<String>,
}

impl View for History {
    type V = Seq<Seq<char>>;

    closed spec fn view(&self) -> Seq<Seq<char>> {
        self.deque@.map_values(|s: String| s@)
    }
}

impl History {
    pub fn new() -> (r: History)
        ensures
            r@.len() == 0,
    {
        History { deque: VecDeque::new() }
    }

    pub fn len(&self) -> (r: usize)
        ensures
            r == self@.len(),
    {
        self.deque.len()
    }

    /// Record a line: empty lines and immediate repetitions are dropped.
    pub fn push(&mut self, s: String)
        ensures
            final(self)@ == if s@.len() > 0 && (old(self)@.len() == 0 || old(self)@[0] != s@) {
                seq![s@] + old(self)@
            } else {
                old(self)@
            },
    {
        let is_repeat = if self.deque.len() > 0 {
            let front: &String = &self.deque[0];
            front.eq(&s)
        } else {
            false
        };
        if s.as_str().unicode_len() > 0 && !is_repeat {
            self.deque.push_front(s);
            assert(self@ =~= seq![s@] + old(self)@);
        }
    }

    /// Remove and return the most recent line.
    pub fn pop(&mut self) -> (r: Option<String>)
        ensures
            old(self)@.len() == 0 ==> r is None && final(self)@ == old(self)@,
            old(self)@.len() > 0 ==> (r matches Some(s) && s@ == old(self)@[0] && final(self)@
                == old(self)@.drop_first()),
    {
        let r = self.deque.pop_front();
        proof {
            if old(self)@.len() > 0 {
                assert(self@ =~= old(self)@.drop_first());
            }
        }
        r
    }

    /// The line at the given index; index 0 is the most recent.
    pub fn get(&self, idx: usize) -> (r: Option<&String>)
        ensures
            idx < self@.len() ==> (r matches Some(s) && s@ == self@[idx as int]),
            idx >= self@.len() ==> r is None,
    {
        let len = self.deque.len();
        if len > 0 && idx < len {
            Some(&self.deque[idx])
        } else {
            None
        }
    }

    /// Remove the line at the given index and return it.
    pub fn remove(&mut self, idx: usize) -> (r: Option<String>)
        ensures
            idx < old(self)@.len() ==> (r matches Some(s) && s@ == old(self)@[idx as int]
                && final(self)@ == old(self)@.remove(idx as int)),
            idx >= old(self)@.len() ==> r is None && final(self)@ == old(self)@,
    {
        if idx < self.deque.len() {
            let s = self.deque.remove(idx);
            proof {
                assert(self@ =~= old(self)@.remove(idx as int));
            }
            s
        } else {
            None
        }
    }

    /// Forget all lines.
    pub fn clear(&mut self)
        ensures
            final(self)@.len() == 0,
    {
        self.deque.clear();
    }
}

/// A cursor into the history: either no selection, or the index of the
/// entry being shown.  It never changes the history itself.
pub struct Cursor {
    cur: Option<usize>,
}

impl View for Cursor {
    type V = Option<int>;

    closed spec fn view(&self) -> Option<int> {
        match self.cur {
            Option::Some(i) => Option::Some(i as int),
            Option::None => Option::None,
        }
    }
}

impl Cursor {
    pub fn new() -> (r: Cursor)
        ensures
            r@ is None,
    {
        Cursor { cur: None }
    }

    /// Step towards older entries; answers whether browsing just began.
    pub fn incr(&mut self, hist_len: usize) -> (r: bool)
        ensures
            final(self)@ == cursor_incr(old(self)@, hist_len as int),
            r == (old(self)@ is None && hist_len > 0),
    {
        let mut flag = false;
        self.cur = match self.cur {
            Some(i) => {
                if hist_len > 0 && i < hist_len - 1 {
                    Some(i + 1)
                } else {
                    Some(i)
                }
            },
            None => {
                if hist_len > 0 {
                    flag = true;
                    Some(0)
                } else {
                    None
                }
            },
        };
        flag
    }

    /// Step towards newer entries; answers whether browsing just ended.
    pub fn decr(&mut self) -> (r: bool)
        ensures
            final(self)@ == cursor_decr(old(self)@),
            r == (old(self)@ matches Some(i) && i == 0),
    {
        let mut flag = false;
        self.cur = match self.cur {
            Some(i) => {
                if i > 0 {
                    Some(i - 1)
                } else {
                    flag = true;
                    None
                }
            },
            None => None,
        };
        flag
    }

    /// The selected entry of the given history, if any.
    pub fn get<'a>(&self, history: &'a History) -> (r: Option<&'a String>)
        ensures
            match self@ {
                Some(i) => {
                    if i < history@.len() {
                        (r matches Some(s) && s@ == history@[i])
                    } else {
                        r is None
                    }
                },
                None => r is None,
            },
    {
        match self.cur {
            None => None,
            Some(i) => history.get(i),
        }
    }
}

/// Stepping the cursor towards older entries clamps at the oldest one.
pub open spec fn cursor_incr(cur: Option<int>, hist_len: int) -> Option<int> {
    match cur {
        Some(i) => if i + 1 < hist_len {
            Some(i + 1)
        } else {
            Some(i)
        },
        None => if hist_len > 0 {
            Some(0)
        } else {
            None
        },
    }
}

/// Stepping the cursor past the most recent entry ends browsing.
pub open spec fn cursor_decr(cur: Option<int>) -> Option<int> {
    match cur {
        Some(i) => if i > 0 {
            Some(i - 1)
        } else {
            None
        },
        None => None,
    }
}

} // verus!
