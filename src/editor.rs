use vstd::prelude::*;

verus! {

/// The text being composed and the edit cursor within it.
pub struct InputLine {
    chars: Vec<char>,
    cursor: usize,
}

/// Where `cursor + delta` lands once clamped into `[0, len]`.
pub open spec fn clamped(cursor: int, delta: int, len: int) -> int {
    let c = cursor + delta;
    if c < 0 {
        0
    } else if c > len {
        len
    } else {
        c
    }
}

impl InputLine {
    pub closed spec fn text(&self) -> Seq<char> {
        self.chars@
    }

    pub closed spec fn cursor_spec(&self) -> int {
        self.cursor as int
    }

    /// The cursor never leaves `[0, len]`.
    pub open spec fn wf(&self) -> bool {
        0 <= self.cursor_spec() <= self.text().len()
    }

    pub fn new() -> (r: InputLine)
        ensures
            r.wf(),
            r.text() == Seq::<char>::empty(),
            r.cursor_spec() == 0,
    {
        InputLine { chars: Vec::new(), cursor: 0 }
    }

    pub fn cursor(&self) -> (r: usize)
        ensures
            r as int == self.cursor_spec(),
    {
        self.cursor
    }

    pub fn len(&self) -> (r: usize)
        ensures
            r as int == self.text().len(),
    {
        self.chars.len()
    }

    pub fn chars(&self) -> (r: &Vec<char>)
        ensures
            r@ == self.text(),
    {
        &self.chars
    }

    /// Inserts `c` at the cursor and moves the cursor past it.
    pub fn insert(&mut self, c: char)
        requires
            old(self).wf(),
            old(self).text().len() < usize::MAX,
        ensures
            final(self).wf(),
            final(self).text() == old(self).text().insert(old(self).cursor_spec(), c),
            final(self).cursor_spec() == old(self).cursor_spec() + 1,
    {
        if self.cursor <= self.chars.len() {
            self.chars.insert(self.cursor, c);
            self.cursor = self.cursor + 1;
        }
    }

    /// Removes the character before the cursor; at the start of the line it
    /// does nothing.
    pub fn backspace(&mut self)
        requires
            old(self).wf(),
        ensures
            final(self).wf(),
            old(self).cursor_spec() > 0 ==> {
                &&& final(self).text() == old(self).text().remove(old(self).cursor_spec() - 1)
                &&& final(self).cursor_spec() == old(self).cursor_spec() - 1
            },
            old(self).cursor_spec() == 0 ==> *final(self) == *old(self),
    {
        if self.cursor > 0 && self.cursor - 1 < self.chars.len() {
            self.cursor = self.cursor - 1;
            self.chars.remove(self.cursor);
        }
    }

    /// Shifts the cursor by `delta`, clamped into `[0, len]`.
    pub fn move_cursor(&mut self, delta: i16)
        requires
            old(self).wf(),
        ensures
            final(self).wf(),
            final(self).text() == old(self).text(),
            final(self).cursor_spec() == clamped(
                old(self).cursor_spec(),
                delta as int,
                old(self).text().len() as int,
            ),
    {
        if delta < 0 {
            let back: usize = (-(delta as i32)) as usize;
            if back > self.cursor {
                self.cursor = 0;
            } else {
                self.cursor = self.cursor - back;
            }
        } else {
            let ahead: usize = delta as usize;
            let room: usize = self.chars.len() - self.cursor;
            if ahead > room {
                self.cursor = self.chars.len();
            } else {
                self.cursor = self.cursor + ahead;
            }
        }
    }

    /// Hands out the text and leaves the line empty with the cursor at 0.
    pub fn submit(&mut self) -> (r: Vec<char>)
        requires
            old(self).wf(),
        ensures
            r@ == old(self).text(),
            final(self).wf(),
            final(self).text() == Seq::<char>::empty(),
            final(self).cursor_spec() == 0,
    {
        let mut r: Vec<char> = Vec::new();
        std::mem::swap(&mut r, &mut self.chars);
        self.cursor = 0;
        r
    }
}

} // verus!
