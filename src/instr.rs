//! The instruction alphabet and the loader that turns source text into a program buffer.
use vstd::prelude::*;

verus! {

/// One of the eight instructions of the language.
#[derive(Clone, Copy, Debug, PartialEq, Eq, Structural)]
pub enum Instr {
    /// `>`: move the data pointer one cell to the right.
    Right,
    /// `<`: move the data pointer one cell to the left.
    Left,
    /// `+`: add one to the current cell, wrapping.
    Inc,
    /// `-`: subtract one from the current cell, wrapping.
    Dec,
    /// `.`: emit the current cell.
    Output,
    /// `,`: store the next input byte in the current cell.
    Input,
    /// `[`: skip past the matching `]` when the current cell is zero.
    LoopStart,
    /// `]`: jump back past the matching `[` when the current cell is not zero.
    LoopEnd,
}

/// The instruction a symbol stands for, if any.
pub open spec fn spec_decode(c: char) -> Option<Instr> {
    if c == '>' {
        Some(Instr::Right)
    } else if c == '<' {
        Some(Instr::Left)
    } else if c == '+' {
        Some(Instr::Inc)
    } else if c == '-' {
        Some(Instr::Dec)
    } else if c == '.' {
        Some(Instr::Output)
    } else if c == ',' {
        Some(Instr::Input)
    } else if c == '[' {
        Some(Instr::LoopStart)
    } else if c == ']' {
        Some(Instr::LoopEnd)
    } else {
        None
    }
}

/// Whether a character belongs to the instruction alphabet `><+-.,[]`.
pub open spec fn is_instruction(c: char) -> bool {
    spec_decode(c) is Some
}

/// The program buffer that a source text loads to: its instruction symbols, in order.
pub open spec fn strip_comments(source: Seq<char>) -> Seq<char> {
    source.filter(|c: char| is_instruction(c))
}

impl Instr {
    /// Decodes one symbol; `None` for a character outside the alphabet.
    pub fn decode(c: char) -> (r: Option<Instr>)
        ensures
            r == spec_decode(c),
    {
        match c {
            '>' => Some(Instr::Right),
            '<' => Some(Instr::Left),
            '+' => Some(Instr::Inc),
            '-' => Some(Instr::Dec),
            '.' => Some(Instr::Output),
            ',' => Some(Instr::Input),
            '[' => Some(Instr::LoopStart),
            ']' => Some(Instr::LoopEnd),
            _ => None,
        }
    }
}

/// Whether `c` is one of the instruction symbols.
pub fn is_instruction_char(c: char) -> (r: bool)
    ensures
        r == is_instruction(c),
{
    Instr::decode(c).is_some()
}

/// Loads a program: keeps the instruction symbols of `source`, in order, and drops
/// every other character (comments, spaces, line breaks).
pub fn load_program(source: &str) -> (r: Vec<char>)
    ensures
        r@ == strip_comments(source@),
{
    broadcast use vstd::string::group_string_axioms;
    let mut r: Vec<char> = Vec::new();
    for c in it: source.chars()
        invariant
            it.seq() == source@,
            r@ == strip_comments(source@.take(it.index() as int)),
    {
        proof {
            reveal(Seq::filter);
            assert(source@.take(it.index() + 1).drop_last() == source@.take(it.index() as int));
        }
        if is_instruction_char(c) {
            r.push(c);
        }
    }
    proof {
        assert(source@.take(source@.len() as int) == source@);
    }
    r
}

} // verus!
