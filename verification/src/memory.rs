//! The tape in memory, in two forms.
//!
//! A bounded memory is a ring of a fixed number of cells: the cursor wraps at
//! either end and nothing is ever allocated after construction. An unbounded
//! memory keeps one growable sequence for the offsets from zero upward and
//! one for the offsets below zero, and materialises a cell when it is first
//! read or written.

use vstd::prelude::*;
use crate::tape::lemma_ring_steps;
use crate::tape::zeros;
use crate::tape::Tape;

verus! {

/// The number of cells of the memory that `Memory::default` builds.
pub const DEFAULT_CAPACITY: usize = 30_000;

#[derive(Debug)]
enum Repr {
    /// `vec` holds every cell; `ptr` is the index of the cursor.
    Ring { vec: Vec<u8>, ptr: usize },
    /// `vec` holds the cells at offsets `0, 1, 2, ..` and `back` those at
    /// offsets `-1, -2, -3, ..`. The cursor is at offset `ptr` when `is_back`
    /// is false, and at offset `-back_ptr - 1` when it is true.
    Line { vec: Vec<u8>, back: Vec<u8>, ptr: usize, back_ptr: usize, is_back: bool },
}

/// A tape of byte cells with a cursor, bounded or unbounded.
#[derive(Debug)]
pub struct Memory {
    repr: Repr,
}

/// Whether the cursor of `t` can move forward without leaving the offsets
/// that a `usize` can index. A bounded tape wraps, so it always can.
pub open spec fn can_advance(t: Tape) -> bool {
    t.bounded || t.cursor + 1 < usize::MAX
}

/// Whether the cursor of `t` can move backward without leaving the offsets
/// that a `usize` can index. A bounded tape wraps, so it always can.
pub open spec fn can_retreat(t: Tape) -> bool {
    t.bounded || -t.cursor < usize::MAX
}

impl View for Memory {
    type V = Tape;

    closed spec fn view(&self) -> Tape {
        match self.repr {
            Repr::Ring { vec, ptr } => Tape {
                bounded: true,
                forward: vec@,
                backward: Seq::empty(),
                cursor: ptr as int,
            },
            Repr::Line { vec, back, ptr, back_ptr, is_back } => Tape {
                bounded: false,
                forward: vec@,
                backward: back@,
                cursor: if is_back {
                    -(back_ptr as int) - 1
                } else {
                    ptr as int
                },
            },
        }
    }
}

/// Appends zero cells to `cells` until it holds `len` of them.
fn grow(cells: &mut Vec<u8>, len: usize)
    requires
        old(cells).len() <= len,
    ensures
        final(cells)@ == old(cells)@ + zeros((len - old(cells).len()) as nat),
{
    while cells.len() < len
        invariant
            old(cells).len() <= cells.len() <= len,
            cells@ == old(cells)@ + zeros((cells.len() - old(cells).len()) as nat),
        decreases len - cells.len(),
    {
        cells.push(0);
    }
}

/// Appends the cells of `from` to `all`, last cell first.
fn push_reversed(all: &mut Vec<u8>, from: &Vec<u8>)
    ensures
        final(all)@ == old(all)@ + from@.reverse(),
{
    let mut left: usize = from.len();
    while left > 0
        invariant
            left <= from.len(),
            all@ == old(all)@ + from@.reverse().subrange(0, from.len() - left),
        decreases left,
    {
        left = left - 1;
        all.push(from[left]);
    }
}

/// Appends the cells of `from` to `all`, first cell first.
fn push_all(all: &mut Vec<u8>, from: &Vec<u8>)
    ensures
        final(all)@ == old(all)@ + from@,
{
    let mut done: usize = 0;
    while done < from.len()
        invariant
            done <= from.len(),
            all@ == old(all)@ + from@.subrange(0, done as int),
        decreases from.len() - done,
    {
        all.push(from[done]);
        done = done + 1;
    }
}

impl Memory {
    /// The invariant of the representation. Every constructor establishes it
    /// and every method keeps it.
    pub closed spec fn wf(&self) -> bool {
        match self.repr {
            Repr::Ring { vec, ptr } => ptr < vec.len(),
            Repr::Line { vec, back, ptr, back_ptr, is_back } => {
                &&& ptr < usize::MAX
                &&& back_ptr < usize::MAX
                &&& is_back ==> ptr == 0
                &&& !is_back ==> back_ptr == 0
            },
        }
    }

    /// A well-formed memory stands for a well-formed tape whose cursor a
    /// `usize` can index on either side.
    pub proof fn lemma_wf(&self)
        requires
            self.wf(),
        ensures
            self@.wf(),
            -usize::MAX <= self@.cursor < usize::MAX,
    {
    }

    /// A bounded memory of `capacity` zero cells, cursor on the first.
    pub fn bounded(capacity: usize) -> (m: Self)
        requires
            capacity > 0,
        ensures
            m.wf(),
            m@ == Tape::ring(capacity as nat),
    {
        let mut vec: Vec<u8> = Vec::new();
        grow(&mut vec, capacity);
        Memory { repr: Repr::Ring { vec, ptr: 0 } }
    }

    /// An unbounded memory with no cell materialised, cursor at offset zero.
    pub fn unbounded() -> (m: Self)
        ensures
            m.wf(),
            m@ == Tape::line(),
    {
        Memory {
            repr: Repr::Line {
                vec: Vec::new(),
                back: Vec::new(),
                ptr: 0,
                back_ptr: 0,
                is_back: false,
            },
        }
    }

    /// Materialises the cell under the cursor, if it is not there yet.
    pub fn fill_to_ptr(&mut self)
        requires
            old(self).wf(),
        ensures
            final(self).wf(),
            final(self)@ == old(self)@.touch(),
            final(self)@.present(),
    {
        match &mut self.repr {
            Repr::Ring { vec, ptr } => {},
            Repr::Line { vec, back, ptr, back_ptr, is_back } => {
                if *is_back {
                    if *back_ptr >= back.len() {
                        grow(back, *back_ptr + 1);
                    }
                } else if *ptr >= vec.len() {
                    grow(vec, *ptr + 1);
                }
            },
        }
    }

    /// Moves the cursor one cell forward.
    pub fn inc(&mut self)
        requires
            old(self).wf(),
            can_advance(old(self)@),
        ensures
            final(self).wf(),
            final(self)@ == old(self)@.advance(),
    {
        match &mut self.repr {
            Repr::Ring { vec, ptr } => {
                proof {
                    lemma_ring_steps(*ptr as int, vec.len() as int);
                }
                if *ptr + 1 == vec.len() {
                    *ptr = 0;
                } else {
                    *ptr = *ptr + 1;
                }
            },
            Repr::Line { vec, back, ptr, back_ptr, is_back } => {
                if *is_back {
                    if *back_ptr == 0 {
                        *is_back = false;
                    } else {
                        *back_ptr = *back_ptr - 1;
                    }
                } else {
                    *ptr = *ptr + 1;
                }
            },
        }
    }

    /// Moves the cursor one cell backward.
    pub fn dec(&mut self)
        requires
            old(self).wf(),
            can_retreat(old(self)@),
        ensures
            final(self).wf(),
            final(self)@ == old(self)@.retreat(),
    {
        match &mut self.repr {
            Repr::Ring { vec, ptr } => {
                proof {
                    lemma_ring_steps(*ptr as int, vec.len() as int);
                }
                if *ptr == 0 {
                    *ptr = vec.len() - 1;
                } else {
                    *ptr = *ptr - 1;
                }
            },
            Repr::Line { vec, back, ptr, back_ptr, is_back } => {
                if *is_back {
                    *back_ptr = *back_ptr + 1;
                } else if *ptr == 0 {
                    *is_back = true;
                } else {
                    *ptr = *ptr - 1;
                }
            },
        }
    }

    /// The cell under the cursor, which is there already.
    fn get(&self) -> (byte: u8)
        requires
            self.wf(),
            self@.present(),
        ensures
            byte == self@.current(),
    {
        match &self.repr {
            Repr::Ring { vec, ptr } => vec[*ptr],
            Repr::Line { vec, back, ptr, back_ptr, is_back } => {
                if *is_back {
                    back[*back_ptr]
                } else {
                    vec[*ptr]
                }
            },
        }
    }

    /// Overwrites the cell under the cursor, which is there already.
    fn put(&mut self, byte: u8)
        requires
            old(self).wf(),
            old(self)@.present(),
        ensures
            final(self).wf(),
            final(self)@ == old(self)@.write(byte),
    {
        match &mut self.repr {
            Repr::Ring { vec, ptr } => {
                vec.set(*ptr, byte);
            },
            Repr::Line { vec, back, ptr, back_ptr, is_back } => {
                if *is_back {
                    back.set(*back_ptr, byte);
                } else {
                    vec.set(*ptr, byte);
                }
            },
        }
    }

    /// Adds one to the cell under the cursor, from 255 on to 0.
    pub fn plus(&mut self)
        requires
            old(self).wf(),
        ensures
            final(self).wf(),
            final(self)@ == old(self)@.increment(),
            final(self)@.present(),
    {
        self.fill_to_ptr();
        let byte = self.get().wrapping_add(1);
        self.put(byte);
    }

    /// Takes one from the cell under the cursor, from 0 on to 255.
    pub fn minus(&mut self)
        requires
            old(self).wf(),
        ensures
            final(self).wf(),
            final(self)@ == old(self)@.decrement(),
            final(self)@.present(),
    {
        self.fill_to_ptr();
        let byte = self.get().wrapping_sub(1);
        self.put(byte);
    }

    /// Sets the cell under the cursor to `byte`.
    pub fn store(&mut self, byte: u8)
        requires
            old(self).wf(),
        ensures
            final(self).wf(),
            final(self)@ == old(self)@.write(byte),
            final(self)@.present(),
    {
        self.fill_to_ptr();
        self.put(byte);
    }

    /// Returns the cell under the cursor, materialising it first.
    pub fn load(&mut self) -> (byte: u8)
        requires
            old(self).wf(),
        ensures
            final(self).wf(),
            final(self)@ == old(self)@.touch(),
            final(self)@.present(),
            byte == old(self)@.current(),
    {
        self.fill_to_ptr();
        self.get()
    }

    /// Returns the cell under the cursor and materialises nothing.
    pub fn peek(&self) -> (byte: u8)
        requires
            self.wf(),
        ensures
            byte == self@.current(),
    {
        match &self.repr {
            Repr::Ring { vec, ptr } => vec[*ptr],
            Repr::Line { vec, back, ptr, back_ptr, is_back } => {
                if *is_back {
                    if *back_ptr < back.len() {
                        back[*back_ptr]
                    } else {
                        0
                    }
                } else if *ptr < vec.len() {
                    vec[*ptr]
                } else {
                    0
                }
            },
        }
    }

    /// Whether `inc` can be called: always on a bounded memory, and on an
    /// unbounded one unless the cursor is as far forward as a `usize` reaches.
    pub fn can_inc(&self) -> (b: bool)
        requires
            self.wf(),
        ensures
            b == can_advance(self@),
    {
        match &self.repr {
            Repr::Ring { vec, ptr } => true,
            Repr::Line { vec, back, ptr, back_ptr, is_back } => *is_back || *ptr < usize::MAX - 1,
        }
    }

    /// Whether `dec` can be called: always on a bounded memory, and on an
    /// unbounded one unless the cursor is as far backward as a `usize`
    /// reaches.
    pub fn can_dec(&self) -> (b: bool)
        requires
            self.wf(),
        ensures
            b == can_retreat(self@),
    {
        match &self.repr {
            Repr::Ring { vec, ptr } => true,
            Repr::Line { vec, back, ptr, back_ptr, is_back } => !*is_back || *back_ptr
                < usize::MAX - 1,
        }
    }

    /// Whether this is a bounded memory.
    pub fn is_bounded(&self) -> (b: bool)
        ensures
            b == self@.bounded,
    {
        match &self.repr {
            Repr::Ring { vec, ptr } => true,
            Repr::Line { vec, back, ptr, back_ptr, is_back } => false,
        }
    }

    /// Whether the cursor is at an offset below zero.
    pub fn is_back(&self) -> (b: bool)
        ensures
            b == (self@.cursor < 0),
    {
        match &self.repr {
            Repr::Ring { vec, ptr } => false,
            Repr::Line { vec, back, ptr, back_ptr, is_back } => *is_back,
        }
    }

    /// How many cells the cursor is away from offset zero, on either side.
    pub fn distance(&self) -> (d: usize)
        requires
            self.wf(),
        ensures
            d == (if self@.cursor < 0 { -self@.cursor } else { self@.cursor }),
    {
        match &self.repr {
            Repr::Ring { vec, ptr } => *ptr,
            Repr::Line { vec, back, ptr, back_ptr, is_back } => {
                if *is_back {
                    *back_ptr + 1
                } else {
                    *ptr
                }
            },
        }
    }

    /// How many cells there are at offsets from zero upward.
    pub fn forward_len(&self) -> (n: usize)
        ensures
            n == self@.forward.len(),
    {
        match &self.repr {
            Repr::Ring { vec, ptr } => vec.len(),
            Repr::Line { vec, back, ptr, back_ptr, is_back } => vec.len(),
        }
    }

    /// How many cells there are at offsets below zero.
    pub fn backward_len(&self) -> (n: usize)
        ensures
            n == self@.backward.len(),
    {
        match &self.repr {
            Repr::Ring { vec, ptr } => 0,
            Repr::Line { vec, back, ptr, back_ptr, is_back } => back.len(),
        }
    }

    /// A copy of every materialised cell, from the lowest offset to the
    /// highest.
    pub fn cells(&self) -> (all: Vec<u8>)
        ensures
            all@ == self@.cells(),
    {
        let mut all: Vec<u8> = Vec::new();
        match &self.repr {
            Repr::Ring { vec, ptr } => {
                push_all(&mut all, vec);
            },
            Repr::Line { vec, back, ptr, back_ptr, is_back } => {
                push_reversed(&mut all, back);
                push_all(&mut all, vec);
            },
        }
        all
    }
}

impl Default for Memory {
    /// The bounded memory of `DEFAULT_CAPACITY` cells.
    fn default() -> (m: Self)
        ensures
            m.wf(),
            m@ == Tape::ring(DEFAULT_CAPACITY as nat),
    {
        Memory::bounded(DEFAULT_CAPACITY)
    }
}

} // verus!
