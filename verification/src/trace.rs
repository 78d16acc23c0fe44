//! The diagnostic view of the tape, as two lines of text.
//!
//! The second line shows every materialised cell from the lowest offset to
//! the highest, each value in decimal and followed by `|`. The first line
//! holds a `v` above the last digit of the cell under the cursor. Making the
//! view changes nothing on the tape.

use vstd::prelude::*;
use crate::memory::Memory;
use crate::tape::Tape;
use crate::text::decimal;
use crate::text::pad;
use crate::text::push_decimal;
use crate::text::spaces;

verus! {

/// The text of one cell: its value in decimal, then `|`.
pub open spec fn cell_text(value: u8) -> Seq<char> {
    decimal(value as nat).push('|')
}

/// The text of `cells`, first cell first.
pub open spec fn cells_text(cells: Seq<u8>) -> Seq<char>
    decreases cells.len(),
{
    if cells.len() == 0 {
        Seq::empty()
    } else {
        cells_text(cells.drop_last()) + cell_text(cells.last())
    }
}

/// The column of the mark: that of the last digit of the cell under the
/// cursor, or zero if that cell is not materialised.
pub open spec fn mark_column(t: Tape) -> nat {
    if t.present() {
        let index = t.backward.len() + t.cursor;
        (cells_text(t.cells().take(index)).len() + decimal(t.cells()[index] as nat).len()
            - 1) as nat
    } else {
        0
    }
}

/// The first line: the mark in its column. For an unbounded tape there
/// follow, after `p` and `b`, how far the cursor is above offset zero and how
/// far below offset minus one, of which one is zero.
pub open spec fn mark_line(t: Tape) -> Seq<char> {
    let mark = spaces(mark_column(t)).push('v');
    if t.bounded {
        mark
    } else if t.cursor < 0 {
        mark + " p"@ + decimal(0) + " b"@ + decimal((-t.cursor - 1) as nat)
    } else {
        mark + " p"@ + decimal(t.cursor as nat) + " b"@ + decimal(0)
    }
}

/// The second line: the cells. For an unbounded tape there follows whether
/// the cursor is below offset zero.
pub open spec fn tape_line(t: Tape) -> Seq<char> {
    if t.bounded {
        cells_text(t.cells())
    } else if t.cursor < 0 {
        cells_text(t.cells()) + " back:"@ + "true"@
    } else {
        cells_text(t.cells()) + " back:"@ + "false"@
    }
}

/// A value below 256 has one, two or three digits.
pub proof fn lemma_digits(value: u8)
    ensures
        decimal(value as nat).len() == (if value < 10 {
            1nat
        } else if value < 100 {
            2nat
        } else {
            3nat
        }),
{
    reveal_with_fuel(decimal, 3);
}

/// The text of some cells with one more cell behind them is the text of the
/// cells followed by the text of that cell.
pub proof fn lemma_cells_text_push(cells: Seq<u8>, value: u8)
    ensures
        cells_text(cells.push(value)) == cells_text(cells) + cell_text(value),
{
    assert(cells.push(value).drop_last() =~= cells);
}

/// How many digits `value` has.
fn digits(value: u8) -> (n: usize)
    ensures
        n == decimal(value as nat).len(),
        1 <= n <= 3,
{
    proof {
        lemma_digits(value);
    }
    if value < 10 {
        1
    } else if value < 100 {
        2
    } else {
        3
    }
}

impl Memory {
    /// The index of the cell under the cursor among all `total` materialised
    /// cells, if it is materialised.
    fn cursor_index(&self, total: usize) -> (index: Option<usize>)
        requires
            self.wf(),
            total == self@.backward.len() + self@.forward.len(),
        ensures
            index is Some <==> self@.present(),
            index matches Some(i) ==> i == self@.backward.len() + self@.cursor,
    {
        let away = self.distance();
        if self.is_back() {
            if away <= self.backward_len() {
                Some(self.backward_len() - away)
            } else {
                None
            }
        } else if away < self.forward_len() {
            Some(self.backward_len() + away)
        } else {
            None
        }
    }

    /// The diagnostic view of the tape: the line with the mark, then the line
    /// with the cells.
    pub fn debug(&self) -> (lines: (String, String))
        requires
            self.wf(),
        ensures
            lines.0@ == mark_line(self@),
            lines.1@ == tape_line(self@),
    {
        let all = self.cells();
        let index = self.cursor_index(all.len());
        let mut mark = String::new();
        let mut tape = String::new();
        let mut done: usize = 0;
        while done < all.len()
            invariant
                done <= all.len(),
                all@ == self@.cells(),
                index is Some <==> self@.present(),
                index matches Some(i) ==> i == self@.backward.len() + self@.cursor && i < all.len(),
                tape@ == cells_text(all@.take(done as int)),
                index matches Some(i) ==> mark@ == (if done <= i {
                    spaces(tape@.len())
                } else {
                    spaces(mark_column(self@)).push('v')
                }),
                index is None ==> mark@ == Seq::<char>::empty(),
            decreases all.len() - done,
        {
            let value = all[done];
            proof {
                reveal_strlit("|");
                reveal_strlit("v");
                lemma_cells_text_push(all@.take(done as int), value);
                assert(all@.take(done as int).push(value) =~= all@.take(done + 1));
            }
            push_decimal(&mut tape, value as usize);
            tape.append("|");
            match index {
                Some(i) => {
                    if done < i {
                        pad(&mut mark, digits(value) + 1);
                    } else if done == i {
                        pad(&mut mark, digits(value) - 1);
                        mark.append("v");
                    }
                },
                None => {},
            }
            done = done + 1;
        }
        proof {
            reveal_strlit("v");
            assert(all@.take(done as int) =~= all@);
        }
        if index.is_none() {
            mark.append("v");
        }
        if !self.is_bounded() {
            let away = self.distance();
            mark.append(" p");
            if self.is_back() {
                push_decimal(&mut mark, 0);
                mark.append(" b");
                push_decimal(&mut mark, away - 1);
                tape.append(" back:");
                tape.append("true");
            } else {
                push_decimal(&mut mark, away);
                mark.append(" b");
                push_decimal(&mut mark, 0);
                tape.append(" back:");
                tape.append("false");
            }
        }
        (mark, tape)
    }
}

} // verus!
