//! Input in line mode: each `,` takes the first byte of the next line and discards the
//! rest of that line, its line feed included.
use vstd::prelude::*;

verus! {

/// The byte that a `,` receives when the unread input starts at `pos`: the first byte of
/// that line, or `None` when the input is exhausted.
pub open spec fn next_line_byte(data: Seq<u8>, pos: int) -> Option<u8> {
    if 0 <= pos < data.len() {
        Some(data[pos])
    } else {
        None
    }
}

/// Where the line that starts at `pos` ends: just past its line feed, or the end of the
/// input when it has none.
pub open spec fn line_end(data: Seq<u8>, pos: int) -> int
    decreases data.len() - pos,
{
    if pos >= data.len() {
        data.len() as int
    } else if data[pos] == 10u8 {
        pos + 1
    } else {
        line_end(data, pos + 1)
    }
}

/// The input bytes and how far they have been read.
pub struct InputView {
    pub data: Seq<u8>,
    pub pos: int,
}

/// A buffer of input bytes read a line at a time.
pub struct LineInput {
    data: Vec<u8>,
    pos: usize,
}

impl View for LineInput {
    type V = InputView;

    closed spec fn view(&self) -> InputView {
        InputView { data: self.data@, pos: self.pos as int }
    }
}

impl LineInput {
    /// The read position lies within the buffer.
    pub open spec fn wf(&self) -> bool {
        0 <= self@.pos <= self@.data.len()
    }

    /// Input over `data`, nothing read yet.
    pub fn new(data: Vec<u8>) -> (r: LineInput)
        ensures
            r.wf(),
            r@.data == data@,
            r@.pos == 0,
    {
        LineInput { data, pos: 0 }
    }

    /// How many bytes have been consumed.
    pub fn position(&self) -> (p: usize)
        ensures
            p == self@.pos,
    {
        self.pos
    }

    /// Takes the first byte of the next line and skips past that line's end. `None`,
    /// with nothing consumed, when no input is left.
    pub fn read_byte(&mut self) -> (r: Option<u8>)
        requires
            old(self).wf(),
        ensures
            final(self).wf(),
            r == next_line_byte(old(self)@.data, old(self)@.pos),
            final(self)@.data == old(self)@.data,
            final(self)@.pos == if r is Some {
                line_end(old(self)@.data, old(self)@.pos)
            } else {
                old(self)@.pos
            },
    {
        let n = self.data.len();
        if self.pos >= n {
            return None;
        }
        let first = self.data[self.pos];
        let ghost start = self.pos as int;
        let mut i: usize = self.pos;
        while i < n && self.data[i] != 10u8
            invariant
                start <= i <= n,
                n == self.data@.len(),
                start < n,
                line_end(self.data@, start) == line_end(self.data@, i as int),
            decreases n - i,
        {
            i = i + 1;
        }
        if i < n {
            i = i + 1;
        }
        self.pos = i;
        Some(first)
    }
}

} // verus!
