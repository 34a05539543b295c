//! The character source: a positioned cursor over the input text that can be
//! peeked without consuming and reports the row/column of the next character.

use vstd::prelude::*;
use vstd::string::StrSliceExecFns;

verus! {

/// A row/column position in the source text.  Rows and columns are counted
/// from 1; every consumed character advances the column, and a consumed line
/// feed starts the next row.  The counters saturate at the machine's word
/// limit rather than wrap.
#[derive(Clone, Copy, Debug, PartialEq, Eq, Structural)]
pub struct RowCol {
    pub row: usize,
    pub col: usize,
}

impl RowCol {
    /// The starting position: row 1, column 1.
    pub fn new() -> (r: RowCol)
        ensures
            r == (RowCol { row: 1, col: 1 }),
    {
        RowCol { row: 1, col: 1 }
    }
}

/// `n + 1`, saturating at `usize::MAX`.
pub open spec fn sat_inc(n: usize) -> usize {
    if n < usize::MAX {
        (n + 1) as usize
    } else {
        n
    }
}

/// The row of the position reached after consuming the characters of `s`.
pub open spec fn row_after(s: Seq<char>) -> usize
    decreases s.len(),
{
    if s.len() == 0 {
        1
    } else if s.last() == '\n' {
        sat_inc(row_after(s.drop_last()))
    } else {
        row_after(s.drop_last())
    }
}

/// The column of the position reached after consuming the characters of `s`.
pub open spec fn col_after(s: Seq<char>) -> usize
    decreases s.len(),
{
    if s.len() == 0 {
        1
    } else if s.last() == '\n' {
        1
    } else {
        sat_inc(col_after(s.drop_last()))
    }
}

/// The position reached after consuming the characters of `s`.
pub open spec fn pos_after(s: Seq<char>) -> RowCol {
    RowCol { row: row_after(s), col: col_after(s) }
}

/// A buffered character source.  It hands out the characters of a fixed text
/// one at a time, supports peeking at the next character without consuming
/// it, signals end of input explicitly with `None`, and tracks the row/column
/// position of the next unconsumed character.
pub struct CharSource {
    chars: Vec<char>,
    index: usize,
    pos: RowCol,
}

impl CharSource {
    /// The whole input text.
    pub closed spec fn text(self) -> Seq<char> {
        self.chars@
    }

    /// How many characters have been consumed so far.
    pub closed spec fn at(self) -> int {
        self.index as int
    }

    /// The characters not yet consumed.
    pub open spec fn remaining(self) -> Seq<char> {
        self.text().skip(self.at())
    }

    /// The position of the next unconsumed character.
    pub closed spec fn pos_spec(self) -> RowCol {
        self.pos
    }

    /// The cursor is inside the text and the position matches the consumed
    /// prefix.
    pub closed spec fn wf(self) -> bool {
        &&& self.index <= self.chars.len()
        &&& self.pos == pos_after(self.chars@.take(self.index as int))
    }

    /// A well-formed source sits inside its text.
    pub proof fn lemma_bounds(self)
        requires
            self.wf(),
        ensures
            0 <= self.at() <= self.text().len(),
            self.remaining().len() == self.text().len() - self.at(),
    {
    }

    /// The position a well-formed source reports is the one reached after
    /// the consumed prefix of the text.
    pub proof fn lemma_pos(self)
        requires
            self.wf(),
        ensures
            self.pos_spec() == pos_after(self.text().take(self.at())),
    {
    }

    /// A source positioned at the start of the given text.
    pub fn new(chars: Vec<char>) -> (r: CharSource)
        ensures
            r.wf(),
            r.text() == chars@,
            r.at() == 0,
            r.pos_spec() == (RowCol { row: 1, col: 1 }),
    {
        proof {
            assert(chars@.take(0) =~= Seq::<char>::empty());
        }
        CharSource { chars, index: 0, pos: RowCol::new() }
    }

    /// The next character, without consuming it; `None` at end of input.
    pub fn peek(&self) -> (r: Option<char>)
        requires
            self.wf(),
        ensures
            r == (if self.remaining().len() == 0 {
                Option::<char>::None
            } else {
                Option::Some(self.remaining()[0])
            }),
    {
        if self.index < self.chars.len() {
            Some(self.chars[self.index])
        } else {
            None
        }
    }

    /// Advances past the previously peeked character.
    pub fn consume(&mut self)
        requires
            old(self).wf(),
            old(self).remaining().len() > 0,
        ensures
            final(self).wf(),
            final(self).text() == old(self).text(),
            final(self).at() == old(self).at() + 1,
    {
        let ch = self.chars[self.index];
        proof {
            let taken = self.chars@.take(self.index as int + 1);
            assert(taken.drop_last() =~= self.chars@.take(self.index as int));
            assert(taken.last() == ch);
        }
        self.index = self.index + 1;
        if ch == '\n' {
            self.pos = RowCol { row: sat_inc_exec(self.pos.row), col: 1 };
        } else {
            self.pos = RowCol { row: self.pos.row, col: sat_inc_exec(self.pos.col) };
        }
    }

    /// Reads the next character and consumes it; `None` at end of input.
    pub fn read_and_consume(&mut self) -> (r: Option<char>)
        requires
            old(self).wf(),
        ensures
            final(self).wf(),
            final(self).text() == old(self).text(),
            r == (if old(self).remaining().len() == 0 {
                Option::<char>::None
            } else {
                Option::Some(old(self).remaining()[0])
            }),
            final(self).at() == (if old(self).remaining().len() == 0 {
                old(self).at()
            } else {
                old(self).at() + 1
            }),
    {
        let r = self.peek();
        if r.is_some() {
            self.consume();
        }
        r
    }

    /// The row/column of the next unconsumed character.
    pub fn pos(&self) -> (r: RowCol)
        ensures
            r == self.pos_spec(),
    {
        self.pos
    }
}

/// `n + 1`, saturating at `usize::MAX`.
fn sat_inc_exec(n: usize) -> (r: usize)
    ensures
        r == sat_inc(n),
{
    if n < usize::MAX {
        n + 1
    } else {
        n
    }
}

/// The characters of `s`, in order, as a vector.
pub fn text_to_chars(s: &str) -> (v: Vec<char>)
    ensures
        v@ == s@,
{
    let n = s.unicode_len();
    let mut v: Vec<char> = Vec::new();
    let mut i: usize = 0;
    while i < n
        invariant
            i <= n,
            n == s@.len(),
            v@ =~= s@.take(i as int),
        decreases n - i,
    {
        v.push(s.get_char(i));
        i = i + 1;
    }
    proof {
        assert(v@ =~= s@);
    }
    v
}

} // verus!
