//! The rendering plan: the positioned, colored writes that bring the screen
//! up to date with the target and typed text.
use vstd::prelude::*;
use crate::cursor::{Cursor, cursor_at, position_for, step_back_spec, step_forward_spec};
use crate::stats::Stats;

verus! {

/// The foreground colors the display uses.
#[derive(Clone, Copy, Debug, PartialEq, Eq, Structural)]
pub enum Color {
    /// A correctly typed character.
    Green,
    /// A mistyped character.
    Red,
    /// The terminal's default color, for text not typed yet.
    Reset,
    /// A figure in the session report.
    Blue,
}

/// A typed position as it is drawn: a glyph and its color.
#[derive(Clone, Copy, Debug, PartialEq, Eq, Structural)]
pub struct ColoredChar {
    pub character: char,
    pub color: Color,
}

/// One operation on the terminal.
#[derive(Clone, Copy, Debug, PartialEq, Eq, Structural)]
pub enum DrawOp {
    /// Moves the terminal cursor to a column and row.
    MoveTo(u16, u16),
    /// Sets the foreground color.
    SetColor(Color),
    /// Prints one character at the terminal cursor.
    PrintChar(char),
    /// Prints the status line of these statistics at the terminal cursor.
    PrintStatus(Stats),
    /// Moves the terminal cursor to the start of the next line.
    MoveToNextLine,
    /// Clears from the terminal cursor to the end of its line.
    ClearUntilNewLine,
}

/// How the typed character `t` at a position whose target is `q` is drawn:
/// green when equal, else red; the target glyph, except that a target space
/// shows what was typed.
pub open spec fn colored_spec(t: char, q: char) -> ColoredChar {
    ColoredChar {
        character: if q == ' ' { t } else { q },
        color: if t == q { Color::Green } else { Color::Red },
    }
}

/// The typed positions as drawn, the one nearest the cursor first.
pub open spec fn before_cursor(q: Seq<char>, t: Seq<char>) -> Seq<ColoredChar> {
    Seq::new(t.len(), |i: int| colored_spec(t[t.len() - 1 - i], q[t.len() - 1 - i]))
}

/// The writes of `s` going back from `c`, one cell per character; they stop
/// where a step back fails. `q` is the target text before the cursor, and
/// each step goes back over its last character, so that the layout follows
/// the target text whatever was typed.
pub open spec fn before_ops(c: Cursor, s: Seq<ColoredChar>, q: Seq<char>) -> Seq<DrawOp>
    decreases s.len(),
{
    if s.len() == 0 || q.len() == 0 {
        seq![]
    } else {
        match step_back_spec(c, q.last()) {
            Some(p) => seq![
                DrawOp::MoveTo(p.col, p.row),
                DrawOp::SetColor(s[0].color),
                DrawOp::PrintChar(s[0].character),
            ] + before_ops(p, s.drop_first(), q.drop_last()),
            None => seq![],
        }
    }
}

/// The prints of `s` going forward from `c`; they stop where a step forward
/// fails.
pub open spec fn after_ops(c: Cursor, s: Seq<char>) -> Seq<DrawOp>
    decreases s.len(),
{
    if s.len() == 0 {
        seq![]
    } else {
        let ch = s.first();
        match step_forward_spec(c, ch) {
            Some(next) => seq![DrawOp::PrintChar(ch)] + after_ops(next, s.drop_first()),
            None => seq![],
        }
    }
}

/// The status line at the bottom row, where statistics are shown.
pub open spec fn stats_ops(stats: Option<Stats>, num_rows: u16) -> Seq<DrawOp> {
    match stats {
        Some(s) => seq![DrawOp::MoveTo(0, (num_rows - 1) as u16), DrawOp::PrintStatus(s)],
        None => seq![],
    }
}

/// The full redraw of target `q` and typed `t` on a grid of the given size.
pub open spec fn render_spec(
    q: Seq<char>,
    t: Seq<char>,
    stats: Option<Stats>,
    num_cols: u16,
    num_rows: u16,
) -> Seq<DrawOp> {
    let pos = cursor_at(t.len(), num_cols as nat, num_rows as nat);
    stats_ops(stats, num_rows) + seq![DrawOp::MoveTo(pos.col, pos.row)] + before_ops(
        pos,
        before_cursor(q, t),
        q.take(t.len() as int),
    ) + seq![DrawOp::MoveTo(pos.col, pos.row), DrawOp::SetColor(Color::Reset)] + after_ops(
        pos,
        q.skip(t.len() as int),
    ) + seq![
        DrawOp::MoveToNextLine,
        DrawOp::ClearUntilNewLine,
        DrawOp::MoveTo(pos.col, pos.row),
    ]
}

/// A step of `write_after`: printing `x`, the first character of `s`, and
/// going on from the cell after it.
proof fn lemma_after_ops_step(ops: Seq<DrawOp>, c: Cursor, s: Seq<char>, x: char, n: Cursor)
    requires
        s.len() > 0,
        s[0] == x,
        step_forward_spec(c, x) == Some(n),
    ensures
        ops.push(DrawOp::PrintChar(x)) + after_ops(n, s.drop_first()) == ops + after_ops(c, s),
{
    assert(after_ops(c, s) == seq![DrawOp::PrintChar(x)] + after_ops(n, s.drop_first()));
    assert(ops.push(DrawOp::PrintChar(x)) + after_ops(n, s.drop_first()) =~= ops + after_ops(
        c,
        s,
    ));
}

impl ColoredChar {
    /// How `typed_char` is drawn at a position whose target is `quote_char`.
    pub fn new(typed_char: char, quote_char: char) -> (r: ColoredChar)
        ensures
            r == colored_spec(typed_char, quote_char),
    {
        let color = if typed_char == quote_char {
            Color::Green
        } else {
            Color::Red
        };
        let character = if quote_char == ' ' {
            typed_char
        } else {
            quote_char
        };
        ColoredChar { character, color }
    }
}

impl Cursor {
    /// Writes the status line at the bottom row.
    pub fn print_stats(&self, ops: &mut Vec<DrawOp>, stats: Stats)
        requires
            self.num_rows > 0,
        ensures
            final(ops)@ == old(ops)@ + stats_ops(Some(stats), self.num_rows),
    {
        ops.push(DrawOp::MoveTo(0, self.num_rows - 1));
        ops.push(DrawOp::PrintStatus(stats));
        proof {
            assert(final(ops)@ =~= old(ops)@ + stats_ops(Some(stats), self.num_rows));
        }
    }

    /// Writes `chars` going back from the cursor, each in the cell before the
    /// last, and moves back to the cursor.
    pub fn write_before(&self, ops: &mut Vec<DrawOp>, chars: &[ColoredChar], targets: &[char])
        requires
            self.wf(),
            chars@.len() <= targets@.len(),
        ensures
            final(ops)@ == old(ops)@ + before_ops(
                *self,
                chars@,
                targets@.take(chars@.len() as int),
            ) + seq![DrawOp::MoveTo(self.col, self.row)],
    {
        let ghost start = ops@;
        let n: usize = chars.len();
        let mut cursor: Cursor = *self;
        let mut i: usize = 0;
        proof {
            assert(chars@.skip(0) =~= chars@);
        }
        while i < n
            invariant
                n == chars@.len(),
                n <= targets@.len(),
                i <= n,
                cursor.wf(),
                ops@ + before_ops(cursor, chars@.skip(i as int), targets@.take(n - i)) == start
                    + before_ops(*self, chars@, targets@.take(n as int)),
            decreases n - i,
        {
            let c: ColoredChar = chars[i];
            let target: char = targets[n - 1 - i];
            let ghost prev = cursor;
            let ghost rest = chars@.skip(i as int);
            let ghost q = targets@.take(n - i);
            proof {
                assert(rest[0] == c);
                assert(rest.drop_first() =~= chars@.skip(i + 1));
                assert(q.last() == target);
                assert(q.drop_last() =~= targets@.take(n - (i + 1)));
            }
            if cursor.cursor_back_one(target).is_err() {
                proof {
                    assert(chars@.skip(n as int) =~= Seq::<ColoredChar>::empty());
                    assert(ops@ + before_ops(prev, rest, q) =~= ops@);
                }
                i = n;
            } else {
                let ghost before = ops@;
                ops.push(DrawOp::MoveTo(cursor.col, cursor.row));
                ops.push(DrawOp::SetColor(c.color));
                ops.push(DrawOp::PrintChar(c.character));
                proof {
                    assert(ops@ + before_ops(cursor, chars@.skip(i + 1), targets@.take(n - (i + 1)))
                        =~= before + before_ops(prev, rest, q));
                }
                i = i + 1;
            }
        }
        proof {
            assert(chars@.skip(n as int) =~= Seq::<ColoredChar>::empty());
            assert(ops@ =~= start + before_ops(*self, chars@, targets@.take(n as int)));
        }
        ops.push(DrawOp::MoveTo(self.col, self.row));
    }

    /// Prints `chars` in the default color forward from the cursor, clears
    /// the rest of the following line and moves back to the cursor.
    pub fn write_after(&self, ops: &mut Vec<DrawOp>, chars: &[char])
        requires
            self.wf(),
        ensures
            final(ops)@ == old(ops)@ + seq![DrawOp::SetColor(Color::Reset)] + after_ops(
                *self,
                chars@,
            ) + seq![
                DrawOp::MoveToNextLine,
                DrawOp::ClearUntilNewLine,
                DrawOp::MoveTo(self.col, self.row),
            ],
    {
        ops.push(DrawOp::SetColor(Color::Reset));
        let ghost start = ops@;
        let n: usize = chars.len();
        let mut cursor: Cursor = *self;
        let mut i: usize = 0;
        proof {
            assert(chars@.skip(0) =~= chars@);
        }
        while i < n
            invariant
                n == chars@.len(),
                i <= n,
                cursor.wf(),
                ops@ + after_ops(cursor, chars@.skip(i as int)) == start + after_ops(
                    *self,
                    chars@,
                ),
            decreases n - i,
        {
            let c: char = chars[i];
            let ghost prev = cursor;
            let ghost rest = chars@.skip(i as int);
            proof {
                assert(rest[0] == c);
                assert(rest.drop_first() =~= chars@.skip(i + 1));
            }
            if cursor.cursor_forward_one(c).is_err() {
                proof {
                    assert(chars@.skip(n as int) =~= Seq::<char>::empty());
                    assert(ops@ + after_ops(prev, rest) =~= ops@);
                }
                i = n;
            } else {
                let ghost before = ops@;
                ops.push(DrawOp::PrintChar(c));
                proof {
                    lemma_after_ops_step(before, prev, rest, c, cursor);
                }
                i = i + 1;
            }
        }
        proof {
            assert(chars@.skip(n as int) =~= Seq::<char>::empty());
            assert(ops@ =~= start + after_ops(*self, chars@));
        }
        ops.push(DrawOp::MoveToNextLine);
        ops.push(DrawOp::ClearUntilNewLine);
        ops.push(DrawOp::MoveTo(self.col, self.row));
        proof {
            assert(final(ops)@ =~= old(ops)@ + seq![DrawOp::SetColor(Color::Reset)] + after_ops(
                *self,
                chars@,
            ) + seq![
                DrawOp::MoveToNextLine,
                DrawOp::ClearUntilNewLine,
                DrawOp::MoveTo(self.col, self.row),
            ]);
        }
    }
}

/// The typed positions as drawn, the one nearest the cursor first.
pub fn colored_before(quote_chars: &[char], typed_chars: &[char]) -> (r: Vec<ColoredChar>)
    requires
        typed_chars@.len() <= quote_chars@.len(),
    ensures
        r@ == before_cursor(quote_chars@, typed_chars@),
{
    let n: usize = typed_chars.len();
    let mut r: Vec<ColoredChar> = Vec::new();
    let mut i: usize = 0;
    while i < n
        invariant
            n == typed_chars@.len(),
            n <= quote_chars@.len(),
            i <= n,
            r@ == before_cursor(quote_chars@, typed_chars@).take(i as int),
        decreases n - i,
    {
        let k: usize = n - 1 - i;
        r.push(ColoredChar::new(typed_chars[k], quote_chars[k]));
        proof {
            assert(before_cursor(quote_chars@, typed_chars@).take(i + 1) =~= before_cursor(
                quote_chars@,
                typed_chars@,
            ).take(i as int).push(colored_spec(typed_chars@[k as int], quote_chars@[k as int])));
        }
        i = i + 1;
    }
    proof {
        assert(before_cursor(quote_chars@, typed_chars@).take(n as int) =~= before_cursor(
            quote_chars@,
            typed_chars@,
        ));
    }
    r
}

/// The full redraw of the target `quote_chars` and the typed `typed_chars`
/// on a grid of `num_cols` by `num_rows`: the status line if statistics are
/// given, the typed positions colored by correctness, the rest of the target
/// in the default color, and the terminal cursor left where the next
/// character goes.
pub fn render(
    quote_chars: &[char],
    typed_chars: &[char],
    stats: Option<Stats>,
    num_cols: u16,
    num_rows: u16,
) -> (r: Vec<DrawOp>)
    requires
        typed_chars@.len() <= quote_chars@.len(),
        num_cols > 0,
        num_rows > 0,
    ensures
        r@ == render_spec(quote_chars@, typed_chars@, stats, num_cols, num_rows),
{
    let mut ops: Vec<DrawOp> = Vec::new();
    let mut cursor = Cursor::new(num_cols, num_rows);
    match stats {
        Some(s) => cursor.print_stats(&mut ops, s),
        None => {},
    }
    let n: usize = typed_chars.len();
    cursor.align_center(n);
    ops.push(DrawOp::MoveTo(cursor.col, cursor.row));
    let ghost head = ops@;
    let before = colored_before(quote_chars, typed_chars);
    cursor.write_before(&mut ops, before.as_slice(), quote_chars);
    let ghost mid = ops@;
    let mut after: Vec<char> = Vec::new();
    let mut j: usize = n;
    while j < quote_chars.len()
        invariant
            n <= j <= quote_chars@.len(),
            after@ == quote_chars@.subrange(n as int, j as int),
        decreases quote_chars@.len() - j,
    {
        after.push(quote_chars[j]);
        proof {
            assert(quote_chars@.subrange(n as int, j + 1) =~= quote_chars@.subrange(
                n as int,
                j as int,
            ).push(quote_chars@[j as int]));
        }
        j = j + 1;
    }
    proof {
        assert(after@ =~= quote_chars@.skip(n as int));
    }
    cursor.write_after(&mut ops, after.as_slice());
    proof {
        assert(ops@ =~= render_spec(quote_chars@, typed_chars@, stats, num_cols, num_rows));
    }
    ops
}

/// The update after one keystroke that took the typed length from
/// `prev_len` to `t.len()`: only the cell at the boundary is redrawn (the
/// new typed character in its color, or the removed position in the default
/// color), with the status line if statistics are given. `None` where no
/// such update fits: more than one position changed, or a single step from
/// the old cursor over the target character at the boundary fails or lands
/// elsewhere than the cursor for the new length (a line break, or the row
/// held at half height); a full redraw is then due.
pub open spec fn keystroke_spec(
    q: Seq<char>,
    t: Seq<char>,
    stats: Option<Stats>,
    prev_len: nat,
    num_cols: u16,
    num_rows: u16,
) -> Option<Seq<DrawOp>> {
    let from = cursor_at(prev_len, num_cols as nat, num_rows as nat);
    let to = cursor_at(t.len(), num_cols as nat, num_rows as nat);
    if t.len() > q.len() || prev_len > q.len() {
        None
    } else if t.len() == prev_len {
        Some(stats_ops(stats, num_rows) + seq![DrawOp::MoveTo(to.col, to.row)])
    } else if t.len() == prev_len + 1 {
        let g = colored_spec(t[prev_len as int], q[prev_len as int]);
        if step_forward_spec(from, q[prev_len as int]) == Some(to) {
            Some(stats_ops(stats, num_rows) + seq![
                DrawOp::MoveTo(from.col, from.row),
                DrawOp::SetColor(g.color),
                DrawOp::PrintChar(g.character),
                DrawOp::MoveTo(to.col, to.row),
            ])
        } else {
            None
        }
    } else if t.len() + 1 == prev_len {
        let c = q[t.len() as int];
        if step_back_spec(from, c) == Some(to) {
            Some(stats_ops(stats, num_rows) + seq![
                DrawOp::MoveTo(to.col, to.row),
                DrawOp::SetColor(Color::Reset),
                DrawOp::PrintChar(c),
                DrawOp::MoveTo(to.col, to.row),
            ])
        } else {
            None
        }
    } else {
        None
    }
}

/// The update after a backspace that removed position `t.len()`, whose
/// target character is `c`.
proof fn lemma_keystroke_removal(
    q: Seq<char>,
    t: Seq<char>,
    stats: Option<Stats>,
    prev_len: nat,
    num_cols: u16,
    num_rows: u16,
    c: char,
    ops: Seq<DrawOp>,
)
    requires
        t.len() + 1 == prev_len,
        prev_len <= q.len(),
        q[t.len() as int] == c,
        step_back_spec(cursor_at(prev_len, num_cols as nat, num_rows as nat), c) == Some(
            cursor_at(t.len(), num_cols as nat, num_rows as nat),
        ),
        ops == Seq::<DrawOp>::empty().push(
            DrawOp::MoveTo(
                cursor_at(t.len(), num_cols as nat, num_rows as nat).col,
                cursor_at(t.len(), num_cols as nat, num_rows as nat).row,
            ),
        ).push(DrawOp::SetColor(Color::Reset)).push(DrawOp::PrintChar(c)).push(
            DrawOp::MoveTo(
                cursor_at(t.len(), num_cols as nat, num_rows as nat).col,
                cursor_at(t.len(), num_cols as nat, num_rows as nat).row,
            ),
        ),
    ensures
        keystroke_spec(q, t, stats, prev_len, num_cols, num_rows) == Some(
            stats_ops(stats, num_rows) + ops,
        ),
{
    assert(ops =~= seq![
        ops[0],
        DrawOp::SetColor(Color::Reset),
        DrawOp::PrintChar(c),
        ops[0],
    ]);
}

/// The update after one keystroke that took the typed length from
/// `prev_len` to `typed_chars.len()`, or `None` where a full redraw is due.
pub fn render_keystroke(
    quote_chars: &[char],
    typed_chars: &[char],
    stats: Option<Stats>,
    prev_len: usize,
    num_cols: u16,
    num_rows: u16,
) -> (r: Option<Vec<DrawOp>>)
    requires
        num_cols > 0,
        num_rows > 0,
    ensures
        match r {
            Some(ops) => keystroke_spec(
                quote_chars@,
                typed_chars@,
                stats,
                prev_len as nat,
                num_cols,
                num_rows,
            ) == Some(ops@),
            None => keystroke_spec(
                quote_chars@,
                typed_chars@,
                stats,
                prev_len as nat,
                num_cols,
                num_rows,
            ) is None,
        },
{
    let n: usize = typed_chars.len();
    if n > quote_chars.len() || prev_len > quote_chars.len() {
        return None;
    }
    let from = position_for(prev_len, num_cols, num_rows);
    let to = position_for(n, num_cols, num_rows);
    let mut ops: Vec<DrawOp> = Vec::new();
    let mut cursor = from;
    if n == prev_len {
    } else if n > prev_len && n - prev_len == 1 {
        let target: char = quote_chars[prev_len];
        let g = ColoredChar::new(typed_chars[prev_len], target);
        if cursor.cursor_forward_one(target).is_err() || cursor != to {
            return None;
        }
        ops.push(DrawOp::MoveTo(from.col, from.row));
        ops.push(DrawOp::SetColor(g.color));
        ops.push(DrawOp::PrintChar(g.character));
    } else if prev_len > n && prev_len - n == 1 {
        let c: char = quote_chars[n];
        if cursor.cursor_back_one(c).is_err() || cursor != to {
            return None;
        }
        ops.push(DrawOp::MoveTo(to.col, to.row));
        ops.push(DrawOp::SetColor(Color::Reset));
        ops.push(DrawOp::PrintChar(c));
        ops.push(DrawOp::MoveTo(to.col, to.row));
        let mut r: Vec<DrawOp> = Vec::new();
        match stats {
            Some(s) => to.print_stats(&mut r, s),
            None => {},
        }
        proof {
            lemma_keystroke_removal(
                quote_chars@,
                typed_chars@,
                stats,
                prev_len as nat,
                num_cols,
                num_rows,
                c,
                ops@,
            );
        }
        r.append(&mut ops);
        return Some(r);
    } else {
        return None;
    }
    ops.push(DrawOp::MoveTo(to.col, to.row));
    let mut r: Vec<DrawOp> = Vec::new();
    match stats {
        Some(s) => to.print_stats(&mut r, s),
        None => {},
    }
    r.append(&mut ops);
    proof {
        assert(r@ =~= keystroke_spec(
            quote_chars@,
            typed_chars@,
            stats,
            prev_len as nat,
            num_cols,
            num_rows,
        )->Some_0);
    }
    Some(r)
}

} // verus!
