//! The text-editing state used by the input fields: a line of characters and
//! a cursor, with character and word-wise editing and movement.
use vstd::prelude::*;

verus! {

/// Whether a character counts as whitespace for word movement.
pub uninterp spec fn unicode_whitespace(c: char) -> bool;

/// Relies on char::is_whitespace: whether a character has the Unicode
/// white-space property is determined by the character alone.
pub assume_specification[ char::is_whitespace ](c: char) -> (r: bool)
    ensures
        r == unicode_whitespace(c),
;

/// The index after stepping left over whitespace from `i`.
pub open spec fn skip_ws_left(s: Seq<char>, i: int) -> int
    decreases i,
{
    if i > 0 && i <= s.len() && unicode_whitespace(s[i - 1]) {
        skip_ws_left(s, i - 1)
    } else {
        i
    }
}

/// The index after stepping left over word characters from `i`.
pub open spec fn skip_word_left(s: Seq<char>, i: int) -> int
    decreases i,
{
    if i > 0 && i <= s.len() && !unicode_whitespace(s[i - 1]) {
        skip_word_left(s, i - 1)
    } else {
        i
    }
}

/// The word boundary left of `i`: trailing whitespace first, then the word.
pub open spec fn word_left(s: Seq<char>, i: int) -> int {
    skip_word_left(s, skip_ws_left(s, i))
}

/// The index after stepping right over word characters from `i`.
pub open spec fn skip_word_right(s: Seq<char>, i: int) -> int
    decreases s.len() - i,
{
    if 0 <= i < s.len() && !unicode_whitespace(s[i]) {
        skip_word_right(s, i + 1)
    } else {
        i
    }
}

/// The word boundary right of `i`: the word first, then the whitespace
/// after it.
pub open spec fn word_right(s: Seq<char>, i: int) -> int {
    skip_ws_right(s, skip_word_right(s, i))
}

/// The index after stepping right over whitespace from `i`.
pub open spec fn skip_ws_right(s: Seq<char>, i: int) -> int
    decreases s.len() - i,
{
    if 0 <= i < s.len() && unicode_whitespace(s[i]) {
        skip_ws_right(s, i + 1)
    } else {
        i
    }
}

/// A line of text under edit, with the cursor position in characters.
#[derive(Debug)]
pub struct InputState {
    pub value: Vec<char>,
    pub cursor: usize,
}

impl InputState {
    /// The cursor never passes the end of the text.
    pub open spec fn wf(&self) -> bool {
        self.cursor <= self.value@.len()
    }

    /// An empty line.
    pub fn new() -> (s: InputState)
        ensures
            s.value@ == Seq::<char>::empty(),
            s.cursor == 0,
            s.wf(),
    {
        InputState { value: Vec::new(), cursor: 0 }
    }

    /// Empties the line.
    pub fn clear(&mut self)
        ensures
            final(self).value@ == Seq::<char>::empty(),
            final(self).cursor == 0,
            final(self).wf(),
    {
        self.value.clear();
        self.cursor = 0;
    }

    /// Inserts a character at the cursor and moves the cursor past it.
    pub fn insert(&mut self, c: char)
        requires
            old(self).wf(),
            old(self).value@.len() < usize::MAX,
        ensures
            final(self).value@ == old(self).value@.insert(old(self).cursor as int, c),
            final(self).cursor == old(self).cursor + 1,
            final(self).wf(),
    {
        self.value.insert(self.cursor, c);
        self.cursor = self.cursor + 1;
    }

    /// Removes the character left of the cursor, if any.
    pub fn backspace(&mut self)
        requires
            old(self).wf(),
        ensures
            final(self).wf(),
            old(self).cursor == 0 ==> *final(self) == *old(self),
            old(self).cursor > 0 ==> final(self).value@ == old(self).value@.remove(
                old(self).cursor - 1,
            ) && final(self).cursor == old(self).cursor - 1,
    {
        if self.cursor > 0 {
            self.value.remove(self.cursor - 1);
            self.cursor = self.cursor - 1;
        }
    }

    /// Removes everything between the word boundary left of the cursor and
    /// the cursor, and puts the cursor on that boundary.
    pub fn backspace_word(&mut self)
        requires
            old(self).wf(),
        ensures
            final(self).wf(),
            old(self).cursor == 0 ==> *final(self) == *old(self),
            old(self).cursor > 0 ==> {
                let b = word_left(old(self).value@, old(self).cursor as int);
                final(self).value@ == old(self).value@.subrange(0, b) + old(self).value@.skip(
                    old(self).cursor as int,
                ) && final(self).cursor == b
            },
    {
        if self.cursor == 0 {
            return ;
        }
        let b = self.word_boundary_left();
        let mut nv: Vec<char> = Vec::new();
        let mut k: usize = 0;
        while k < b
            invariant
                k <= b,
                b <= self.value@.len(),
                nv@ == self.value@.subrange(0, k as int),
            decreases b - k,
        {
            nv.push(self.value[k]);
            proof {
                assert(nv@ =~= self.value@.subrange(0, k + 1));
            }
            k += 1;
        }
        let mut t: usize = self.cursor;
        while t < self.value.len()
            invariant
                self.cursor <= t <= self.value@.len(),
                b <= self.value@.len(),
                nv@ == self.value@.subrange(0, b as int) + self.value@.subrange(
                    self.cursor as int,
                    t as int,
                ),
            decreases self.value@.len() - t,
        {
            nv.push(self.value[t]);
            proof {
                assert(nv@ =~= self.value@.subrange(0, b as int) + self.value@.subrange(
                    self.cursor as int,
                    t + 1,
                ));
            }
            t += 1;
        }
        proof {
            assert(self.value@.subrange(self.cursor as int, self.value@.len() as int)
                =~= self.value@.skip(self.cursor as int));
        }
        self.value = nv;
        self.cursor = b;
    }

    /// Finds the word boundary left of the cursor.
    fn word_boundary_left(&self) -> (b: usize)
        requires
            self.wf(),
        ensures
            b == word_left(self.value@, self.cursor as int),
            b <= self.cursor,
    {
        let ghost s = self.value@;
        let ghost c0 = self.cursor as int;
        let mut idx: usize = self.cursor;
        while idx > 0 && self.value[idx - 1].is_whitespace()
            invariant
                idx <= s.len(),
                s == self.value@,
                skip_ws_left(s, c0) == skip_ws_left(s, idx as int),
                idx <= self.cursor,
            decreases idx,
        {
            idx = idx - 1;
        }
        assert(skip_ws_left(s, idx as int) == idx as int);
        while idx > 0 && !self.value[idx - 1].is_whitespace()
            invariant
                idx <= s.len(),
                s == self.value@,
                word_left(s, c0) == skip_word_left(s, idx as int),
                idx <= self.cursor,
            decreases idx,
        {
            idx = idx - 1;
        }
        assert(skip_word_left(s, idx as int) == idx as int);
        idx
    }

    /// Moves the cursor one character left, stopping at the start.
    pub fn move_left(&mut self)
        requires
            old(self).wf(),
        ensures
            final(self).value == old(self).value,
            final(self).cursor == if old(self).cursor > 0 {
                (old(self).cursor - 1) as usize
            } else {
                0usize
            },
            final(self).wf(),
    {
        if self.cursor > 0 {
            self.cursor = self.cursor - 1;
        }
    }

    /// Moves the cursor to the word boundary on its left.
    pub fn move_word_left(&mut self)
        requires
            old(self).wf(),
        ensures
            final(self).value == old(self).value,
            final(self).cursor == word_left(old(self).value@, old(self).cursor as int),
            final(self).wf(),
    {
        let b = self.word_boundary_left();
        self.cursor = b;
    }

    /// Moves the cursor one character right, stopping at the end.
    pub fn move_right(&mut self)
        requires
            old(self).wf(),
        ensures
            final(self).value == old(self).value,
            final(self).cursor == if old(self).cursor < old(self).value@.len() {
                old(self).cursor + 1
            } else {
                old(self).cursor as int
            },
            final(self).wf(),
    {
        if self.cursor < self.value.len() {
            self.cursor = self.cursor + 1;
        }
    }

    /// Moves the cursor to the word boundary on its right.
    pub fn move_word_right(&mut self)
        requires
            old(self).wf(),
        ensures
            final(self).value == old(self).value,
            final(self).cursor == word_right(old(self).value@, old(self).cursor as int),
            final(self).wf(),
    {
        let ghost s = self.value@;
        let ghost c0 = self.cursor as int;
        let mut idx: usize = self.cursor;
        while idx < self.value.len() && !self.value[idx].is_whitespace()
            invariant
                idx <= s.len(),
                s == self.value@,
                self.cursor == old(self).cursor,
                self.value == old(self).value,
                skip_word_right(s, c0) == skip_word_right(s, idx as int),
            decreases s.len() - idx,
        {
            idx = idx + 1;
        }
        assert(skip_word_right(s, idx as int) == idx as int);
        while idx < self.value.len() && self.value[idx].is_whitespace()
            invariant
                idx <= s.len(),
                s == self.value@,
                self.cursor == old(self).cursor,
                self.value == old(self).value,
                word_right(s, c0) == skip_ws_right(s, idx as int),
            decreases s.len() - idx,
        {
            idx = idx + 1;
        }
        assert(skip_ws_right(s, idx as int) == idx as int);
        self.cursor = idx;
    }

    /// Moves the cursor to the start.
    pub fn move_home(&mut self)
        ensures
            final(self).value == old(self).value,
            final(self).cursor == 0,
            final(self).wf(),
    {
        self.cursor = 0;
    }

    /// Moves the cursor to the end.
    pub fn move_end(&mut self)
        ensures
            final(self).value == old(self).value,
            final(self).cursor == old(self).value@.len(),
            final(self).wf(),
    {
        self.cursor = self.value.len();
    }
}

} // verus!
