//! The terminal cursor model: where on the screen grid the next typed
//! character goes, and single steps over one character at a time.
use vstd::prelude::*;

verus! {

/// The character that stands for an explicit line break in the text.
pub const LINE_BREAK: char = '\n';

/// A position on a terminal grid of `num_cols` by `num_rows` cells.
#[derive(Clone, Copy, Debug, PartialEq, Eq, Structural)]
pub struct Cursor {
    pub col: u16,
    pub row: u16,
    pub num_cols: u16,
    pub num_rows: u16,
}

/// A single step would leave the grid.
#[derive(Clone, Copy, Debug, PartialEq, Eq, Structural)]
pub struct CursorBoundaryError;

/// One step back over the character `ch` that stands before the cursor.
pub open spec fn step_back_spec(c: Cursor, ch: char) -> Option<Cursor> {
    if ch == LINE_BREAK {
        if c.row == 0 {
            None
        } else {
            Some(Cursor { row: (c.row - 1) as u16, ..c })
        }
    } else if c.col == 0 {
        if c.row == 0 {
            None
        } else {
            Some(Cursor { col: (c.num_cols - 1) as u16, row: (c.row - 1) as u16, ..c })
        }
    } else {
        Some(Cursor { col: (c.col - 1) as u16, ..c })
    }
}

/// One step forward over the character `ch` that stands at the cursor.
pub open spec fn step_forward_spec(c: Cursor, ch: char) -> Option<Cursor> {
    if ch == LINE_BREAK || c.col + 1 >= c.num_cols {
        if c.row + 1 >= c.num_rows {
            None
        } else {
            Some(Cursor { col: 0, row: (c.row + 1) as u16, ..c })
        }
    } else {
        Some(Cursor { col: (c.col + 1) as u16, ..c })
    }
}

/// Steps forward over each character of `s` in turn; `None` once a step fails.
pub open spec fn walk_forward(c: Cursor, s: Seq<char>) -> Option<Cursor>
    decreases s.len(),
{
    if s.len() == 0 {
        Some(c)
    } else {
        match step_forward_spec(c, s[0]) {
            Some(n) => walk_forward(n, s.drop_first()),
            None => None,
        }
    }
}

/// Steps back over the characters of `s`, the last one first; `None` once a
/// step fails.
pub open spec fn walk_back(c: Cursor, s: Seq<char>) -> Option<Cursor>
    decreases s.len(),
{
    if s.len() == 0 {
        Some(c)
    } else {
        match walk_back(c, s.drop_first()) {
            Some(p) => step_back_spec(p, s[0]),
            None => None,
        }
    }
}

/// Each line break of `s`, walking forward from `c`, is stepped over from
/// the first column.
pub open spec fn breaks_at_line_start(c: Cursor, s: Seq<char>) -> bool
    decreases s.len(),
{
    if s.len() == 0 {
        true
    } else {
        &&& (s[0] == LINE_BREAK ==> c.col == 0)
        &&& match step_forward_spec(c, s[0]) {
            Some(n) => breaks_at_line_start(n, s.drop_first()),
            None => true,
        }
    }
}

impl Cursor {
    /// The cursor lies on a non-empty grid.
    pub open spec fn wf(self) -> bool {
        &&& self.num_cols > 0
        &&& self.num_rows > 0
        &&& self.col < self.num_cols
        &&& self.row < self.num_rows
    }

    /// A cursor at the top left corner of a grid of the given size.
    pub fn new(num_cols: u16, num_rows: u16) -> (r: Cursor)
        ensures
            r == (Cursor { col: 0, row: 0, num_cols, num_rows }),
    {
        Cursor { col: 0, row: 0, num_cols, num_rows }
    }

    /// Moves the cursor to where the character after `num_chars` typed
    /// characters goes.
    pub fn align_center(&mut self, num_chars: usize)
        requires
            old(self).num_cols > 0,
        ensures
            *final(self) == cursor_at(num_chars as nat, old(self).num_cols as nat, old(self).num_rows as nat),
    {
        *self = position_for(num_chars, self.num_cols, self.num_rows);
    }

    /// Steps back over `consumed`, the character before the cursor. At the
    /// top of the grid the cursor stays where it is and an error comes back.
    pub fn cursor_back_one(&mut self, consumed: char) -> (r: Result<(), CursorBoundaryError>)
        requires
            old(self).wf(),
        ensures
            final(self).wf(),
            match step_back_spec(*old(self), consumed) {
                Some(p) => r is Ok && *final(self) == p,
                None => r is Err && *final(self) == *old(self),
            },
    {
        if consumed == LINE_BREAK {
            if self.row == 0 {
                return Err(CursorBoundaryError);
            }
            self.row = self.row - 1;
        } else if self.col == 0 {
            if self.row == 0 {
                return Err(CursorBoundaryError);
            }
            self.row = self.row - 1;
            self.col = self.num_cols - 1;
        } else {
            self.col = self.col - 1;
        }
        Ok(())
    }

    /// Steps forward over `next`, the character at the cursor. On the last
    /// row the cursor stays where it is and an error comes back instead of a
    /// wrap to the top.
    pub fn cursor_forward_one(&mut self, next: char) -> (r: Result<(), CursorBoundaryError>)
        requires
            old(self).wf(),
        ensures
            final(self).wf(),
            match step_forward_spec(*old(self), next) {
                Some(n) => r is Ok && *final(self) == n,
                None => r is Err && *final(self) == *old(self),
            },
    {
        if next == LINE_BREAK || self.col == self.num_cols - 1 {
            if self.row == self.num_rows - 1 {
                return Err(CursorBoundaryError);
            }
            self.row = self.row + 1;
            self.col = 0;
        } else {
            self.col = self.col + 1;
        }
        Ok(())
    }
}

/// The cursor for `count` typed characters on a grid of `width` by `height`:
/// row-major wrapping, with the row held at half the screen height.
pub open spec fn cursor_at(count: nat, width: nat, height: nat) -> Cursor
    recommends
        width > 0,
{
    let row = count / width;
    Cursor {
        col: (count % width) as u16,
        row: (if row > height / 2 { height / 2 } else { row }) as u16,
        num_cols: width as u16,
        num_rows: height as u16,
    }
}

/// The cursor for `count` typed characters on a grid of `width` by `height`:
/// the column is `count % width`, the row `count / width` held at `height / 2`.
pub fn position_for(count: usize, width: u16, height: u16) -> (r: Cursor)
    requires
        width > 0,
    ensures
        r == cursor_at(count as nat, width as nat, height as nat),
        r.col as nat == count as nat % width as nat,
        height > 0 ==> r.wf(),
{
    let w: usize = width as usize;
    let col: usize = count % w;
    let full_rows: usize = count / w;
    let half: u16 = height / 2;
    let row: u16 = if full_rows > half as usize {
        half
    } else {
        full_rows as u16
    };
    Cursor { col: col as u16, row, num_cols: width, num_rows: height }
}

/// Stepping forward over a sequence of characters and back over the same
/// characters returns to the starting cell, as long as every line break was
/// stepped over from the first column (a step back over a line break cannot
/// know the column it came from).
pub proof fn lemma_forward_back_round_trip(c: Cursor, s: Seq<char>)
    requires
        c.wf(),
        walk_forward(c, s) is Some,
        breaks_at_line_start(c, s),
    ensures
        walk_back(walk_forward(c, s)->Some_0, s) == Some(c),
    decreases s.len(),
{
    if s.len() > 0 {
        let n = step_forward_spec(c, s[0])->Some_0;
        lemma_forward_back_round_trip(n, s.drop_first());
        assert(step_back_spec(n, s[0]) == Some(c));
    }
}

} // verus!
