//! The tape as a mathematical value.
//!
//! A [`Tape`] is what a [`crate::memory::Memory`] stands for: the cells that
//! have been materialised so far and the place of the cursor. Every operation
//! of the memory is stated as a function on tapes.

use vstd::prelude::*;

verus! {

/// `n` cells that all hold zero.
pub open spec fn zeros(n: nat) -> Seq<u8> {
    Seq::new(n, |i: int| 0u8)
}

/// A tape of byte cells with a cursor.
///
/// A bounded tape is a ring: `forward` holds all of its cells, `backward` is
/// empty, and the cursor is an index into `forward` that wraps at either end.
///
/// An unbounded tape is a line without ends. The cell at offset `i >= 0` is
/// `forward[i]`, the cell at offset `i < 0` is `backward[-i - 1]`, and a cell
/// that neither sequence reaches yet holds zero.
pub struct Tape {
    pub bounded: bool,
    pub forward: Seq<u8>,
    pub backward: Seq<u8>,
    pub cursor: int,
}

impl Tape {
    /// A bounded tape has at least one cell, none behind offset zero, and its
    /// cursor on one of its cells. An unbounded tape is always well formed.
    pub open spec fn wf(self) -> bool {
        self.bounded ==> {
            &&& self.backward.len() == 0
            &&& 0 <= self.cursor < self.forward.len()
        }
    }

    /// The bounded tape of `capacity` zero cells, cursor on the first.
    pub open spec fn ring(capacity: nat) -> Tape {
        Tape { bounded: true, forward: zeros(capacity), backward: Seq::empty(), cursor: 0 }
    }

    /// The unbounded tape on which no cell has been materialised, cursor at
    /// offset zero.
    pub open spec fn line() -> Tape {
        Tape { bounded: false, forward: Seq::empty(), backward: Seq::empty(), cursor: 0 }
    }

    /// The value of the cell at offset `at`.
    pub open spec fn cell(self, at: int) -> u8 {
        if 0 <= at < self.forward.len() {
            self.forward[at]
        } else if -self.backward.len() <= at < 0 {
            self.backward[-at - 1]
        } else {
            0
        }
    }

    /// Every materialised cell, from the lowest offset to the highest.
    pub open spec fn cells(self) -> Seq<u8> {
        self.backward.reverse() + self.forward
    }

    /// The value of the cell under the cursor.
    pub open spec fn current(self) -> u8 {
        self.cell(self.cursor)
    }

    /// Whether the cell under the cursor has been materialised.
    pub open spec fn present(self) -> bool {
        -self.backward.len() <= self.cursor < self.forward.len()
    }

    /// The cursor moved one cell forward: modulo the capacity on a bounded
    /// tape, without limit on an unbounded one. No cell changes.
    pub open spec fn advance(self) -> Tape {
        Tape {
            cursor: if self.bounded {
                (self.cursor + 1) % (self.forward.len() as int)
            } else {
                self.cursor + 1
            },
            ..self
        }
    }

    /// The cursor moved one cell backward: modulo the capacity on a bounded
    /// tape, without limit on an unbounded one. No cell changes.
    pub open spec fn retreat(self) -> Tape {
        Tape {
            cursor: if self.bounded {
                (self.cursor - 1) % (self.forward.len() as int)
            } else {
                self.cursor - 1
            },
            ..self
        }
    }

    /// The tape with the cell under the cursor materialised. The sequence on
    /// the cursor's side grows by zero cells up to the cursor, and only if it
    /// does not reach the cursor yet; the other side stays as it is.
    pub open spec fn touch(self) -> Tape {
        if self.present() {
            self
        } else if self.cursor >= 0 {
            Tape {
                forward: self.forward + zeros((self.cursor + 1 - self.forward.len()) as nat),
                ..self
            }
        } else {
            Tape {
                backward: self.backward + zeros((-self.cursor - self.backward.len()) as nat),
                ..self
            }
        }
    }

    /// The tape with the cell under the cursor materialised and set to `byte`.
    pub open spec fn write(self, byte: u8) -> Tape {
        let t = self.touch();
        if t.cursor >= 0 {
            Tape { forward: t.forward.update(t.cursor, byte), ..t }
        } else {
            Tape { backward: t.backward.update(-t.cursor - 1, byte), ..t }
        }
    }

    /// The tape with one added to the cell under the cursor, modulo 256.
    pub open spec fn increment(self) -> Tape {
        self.write(((self.current() + 1) % 256) as u8)
    }

    /// The tape with one taken from the cell under the cursor, modulo 256.
    pub open spec fn decrement(self) -> Tape {
        self.write(((self.current() - 1) % 256) as u8)
    }
}

/// Materialising the cell under the cursor leaves the cursor and the value of
/// every cell as they were, and afterwards the cell is there.
pub proof fn lemma_touch_keeps_cells(t: Tape, at: int)
    requires
        t.wf(),
    ensures
        t.touch().wf(),
        t.touch().present(),
        t.touch().cursor == t.cursor,
        t.touch().bounded == t.bounded,
        t.touch().cell(at) == t.cell(at),
{
}

/// A write sets the cell under the cursor and changes no other cell, nor the
/// cursor.
pub proof fn lemma_write_one_cell(t: Tape, byte: u8, at: int)
    requires
        t.wf(),
    ensures
        t.write(byte).wf(),
        t.write(byte).present(),
        t.write(byte).cursor == t.cursor,
        t.write(byte).bounded == t.bounded,
        t.write(byte).cell(at) == (if at == t.cursor { byte } else { t.cell(at) }),
{
}

/// Adding one and then taking one, or the other way round, gives back the
/// value that the cell held: cell arithmetic is modulo 256.
pub proof fn lemma_increment_decrement(t: Tape)
    requires
        t.wf(),
    ensures
        t.increment().current() == (t.current() + 1) % 256,
        t.decrement().current() == (t.current() - 1) % 256,
        t.increment().decrement().current() == t.current(),
        t.decrement().increment().current() == t.current(),
{
}

/// Of two writes to the same cell the later one stays; and a cell that was
/// written is there, so materialising it changes nothing.
pub proof fn lemma_write_twice(t: Tape, first: u8, second: u8)
    requires
        t.wf(),
    ensures
        t.write(first).write(second) == t.write(second),
        t.write(first).touch() == t.write(first),
        t.touch().write(first) == t.write(first),
        t.touch().touch() == t.touch(),
        t.write(t.current()) == t.touch(),
{
    assert(t.write(first).write(second).forward =~= t.write(second).forward);
    assert(t.write(first).write(second).backward =~= t.write(second).backward);
    assert(t.write(t.current()).forward =~= t.touch().forward);
    assert(t.write(t.current()).backward =~= t.touch().backward);
}

/// A move keeps the tape well formed and changes no cell of it.
pub proof fn lemma_moves_keep_cells(t: Tape)
    requires
        t.wf(),
    ensures
        t.advance().wf(),
        t.retreat().wf(),
        t.advance().forward == t.forward && t.advance().backward == t.backward,
        t.retreat().forward == t.forward && t.retreat().backward == t.backward,
{
}

/// One move forward and one move backward, in either order, lead back to the
/// cell that the cursor was on.
pub proof fn lemma_moves_cancel(t: Tape)
    requires
        t.wf(),
    ensures
        t.advance().retreat() == t,
        t.retreat().advance() == t,
{
    if t.bounded {
        let n = t.forward.len() as int;
        lemma_ring_steps(t.cursor, n);
        lemma_ring_steps(t.advance().cursor, n);
        lemma_ring_steps(t.retreat().cursor, n);
    }
}

/// On a bounded tape, a move backward from the first cell puts the cursor on
/// the last cell. The tape neither grows nor changes.
pub proof fn lemma_ring_wraps_backward(t: Tape)
    requires
        t.wf(),
        t.bounded,
        t.cursor == 0,
    ensures
        t.retreat().cursor == t.forward.len() - 1,
        t.retreat().forward == t.forward,
        t.retreat().backward == t.backward,
        t.retreat().wf(),
{
    lemma_ring_steps(t.cursor, t.forward.len() as int);
}

/// On a bounded tape, a move forward from the last cell puts the cursor on
/// the first cell. The tape neither grows nor changes.
pub proof fn lemma_ring_wraps_forward(t: Tape)
    requires
        t.wf(),
        t.bounded,
        t.cursor == t.forward.len() - 1,
    ensures
        t.advance().cursor == 0,
        t.advance().forward == t.forward,
        t.advance().backward == t.backward,
        t.advance().wf(),
{
    lemma_ring_steps(t.cursor, t.forward.len() as int);
}

/// On an unbounded tape with the cursor at offset zero: a move backward and a
/// write of `byte` leave the forward cells alone. Where there was no backward
/// cell yet, exactly one is made, holding zero before the write and `byte`
/// after it; where there were some, none is added. A move forward then leads
/// back to offset zero, and the cell read there is the one that was there
/// before.
pub proof fn lemma_line_backward_write(t: Tape, byte: u8)
    requires
        !t.bounded,
        t.cursor == 0,
    ensures
        t.retreat().cursor == -1,
        t.backward.len() == 0 ==> t.retreat().touch().backward == seq![0u8],
        t.backward.len() == 0 ==> t.retreat().write(byte).backward == seq![byte],
        t.backward.len() > 0 ==> t.retreat().touch().backward == t.backward,
        t.backward.len() > 0 ==> t.retreat().write(byte).backward == t.backward.update(0, byte),
        t.retreat().write(byte).forward == t.forward,
        t.retreat().write(byte).advance().cursor == 0,
        t.retreat().write(byte).advance().current() == t.current(),
        t.retreat().write(byte).advance().touch().current() == t.current(),
{
}

/// On a ring of `n` cells, one step forward from the last index leads to the
/// first, one step backward from the first leads to the last, and any other
/// step stays inside.
pub proof fn lemma_ring_steps(i: int, n: int)
    requires
        0 <= i < n,
    ensures
        (i + 1) % n == (if i + 1 == n { 0 } else { i + 1 }),
        (i - 1) % n == (if i == 0 { n - 1 } else { i - 1 }),
{
    if i + 1 < n {
        vstd::arithmetic::div_mod::lemma_small_mod((i + 1) as nat, n as nat);
    }
    if i == 0 {
        vstd::arithmetic::div_mod::lemma_mod_add_multiples_vanish(-1, n);
        vstd::arithmetic::div_mod::lemma_small_mod((n - 1) as nat, n as nat);
    } else {
        vstd::arithmetic::div_mod::lemma_small_mod((i - 1) as nat, n as nat);
    }
}

} // verus!
