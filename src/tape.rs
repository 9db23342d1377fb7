//! The tape: a fixed row of byte cells and a data pointer into it.
use vstd::prelude::*;

verus! {

/// The number of cells of the tape an interpreter gets by default.
pub const TAPE_SIZE: usize = 4096;

/// The cell value after `+`: one more, modulo 256.
pub open spec fn wrap_inc(b: u8) -> u8 {
    ((b as int + 1) % 256) as u8
}

/// The cell value after `-`: one less, modulo 256.
pub open spec fn wrap_dec(b: u8) -> u8 {
    ((b as int + 255) % 256) as u8
}

/// A tape of `n` zero cells.
pub open spec fn zeros(n: nat) -> Seq<u8> {
    Seq::new(n, |i: int| 0u8)
}

/// What a tape holds: its cells and the index of the current cell.
pub struct TapeView {
    pub cells: Seq<u8>,
    pub ptr: int,
}

/// A fixed-length sequence of byte cells with a data pointer.
pub struct Tape {
    cells: Vec<u8>,
    ptr: usize,
}

impl View for Tape {
    type V = TapeView;

    closed spec fn view(&self) -> TapeView {
        TapeView { cells: self.cells@, ptr: self.ptr as int }
    }
}

impl Tape {
    /// The data pointer indexes a cell.
    pub open spec fn wf(&self) -> bool {
        0 <= self@.ptr < self@.cells.len()
    }

    /// The value of the current cell.
    pub open spec fn current(&self) -> u8 {
        self@.cells[self@.ptr]
    }

    /// A tape of `size` zero cells, with the data pointer on the first.
    pub fn new(size: usize) -> (t: Tape)
        requires
            size > 0,
        ensures
            t.wf(),
            t@.cells == zeros(size as nat),
            t@.ptr == 0,
    {
        let mut cells: Vec<u8> = Vec::new();
        let mut i: usize = 0;
        while i < size
            invariant
                i <= size,
                cells@ == zeros(i as nat),
            decreases size - i,
        {
            cells.push(0u8);
            i = i + 1;
            proof {
                assert(cells@ == zeros(i as nat));
            }
        }
        Tape { cells, ptr: 0 }
    }

    /// The number of cells.
    pub fn len(&self) -> (n: usize)
        ensures
            n == self@.cells.len(),
    {
        self.cells.len()
    }

    /// The index of the current cell.
    pub fn pointer(&self) -> (p: usize)
        ensures
            p == self@.ptr,
    {
        self.ptr
    }

    /// The value of the cell at `i`.
    pub fn cell(&self, i: usize) -> (b: u8)
        requires
            i < self@.cells.len(),
        ensures
            b == self@.cells[i as int],
    {
        self.cells[i]
    }

    /// Returns the value of the current cell.
    pub fn read(&self) -> (b: u8)
        requires
            self.wf(),
        ensures
            b == self.current(),
    {
        self.cells[self.ptr]
    }

    /// Stores `b` in the current cell.
    pub fn write(&mut self, b: u8)
        requires
            old(self).wf(),
        ensures
            final(self).wf(),
            final(self)@.ptr == old(self)@.ptr,
            final(self)@.cells == old(self)@.cells.update(old(self)@.ptr, b),
    {
        self.cells.set(self.ptr, b);
    }

    /// Moves the data pointer one cell to the right. When the current cell is the last
    /// one, nothing changes and the result is `false`.
    pub fn shift_right(&mut self) -> (moved: bool)
        requires
            old(self).wf(),
        ensures
            final(self).wf(),
            moved == (old(self)@.ptr + 1 < old(self)@.cells.len()),
            final(self)@.cells == old(self)@.cells,
            final(self)@.ptr == if moved { old(self)@.ptr + 1 } else { old(self)@.ptr },
    {
        if self.ptr < self.cells.len() - 1 {
            self.ptr = self.ptr + 1;
            true
        } else {
            false
        }
    }

    /// Moves the data pointer one cell to the left. When the current cell is the first
    /// one, nothing changes and the result is `false`.
    pub fn shift_left(&mut self) -> (moved: bool)
        requires
            old(self).wf(),
        ensures
            final(self).wf(),
            moved == (old(self)@.ptr > 0),
            final(self)@.cells == old(self)@.cells,
            final(self)@.ptr == if moved { old(self)@.ptr - 1 } else { old(self)@.ptr },
    {
        if self.ptr > 0 {
            self.ptr = self.ptr - 1;
            true
        } else {
            false
        }
    }

    /// Adds one to the current cell, modulo 256.
    pub fn incr(&mut self)
        requires
            old(self).wf(),
        ensures
            final(self).wf(),
            final(self)@.ptr == old(self)@.ptr,
            final(self)@.cells == old(self)@.cells.update(old(self)@.ptr, wrap_inc(old(self).current())),
    {
        let b = self.read();
        let v: u8 = if b == 255 { 0 } else { b + 1 };
        self.write(v);
    }

    /// Subtracts one from the current cell, modulo 256.
    pub fn decr(&mut self)
        requires
            old(self).wf(),
        ensures
            final(self).wf(),
            final(self)@.ptr == old(self)@.ptr,
            final(self)@.cells == old(self)@.cells.update(old(self)@.ptr, wrap_dec(old(self).current())),
    {
        let b = self.read();
        let v: u8 = if b == 0 { 255 } else { b - 1 };
        self.write(v);
    }
}

} // verus!
