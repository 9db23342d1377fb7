//! The interpreter: a tape, a program buffer and a program counter, with the semantics of
//! one step and of a bounded run stated as spec functions.
use vstd::prelude::*;
use crate::brackets::{closes, find_matching_close, find_matching_open, opens};
use crate::input::{line_end, next_line_byte, LineInput};
use crate::instr::{load_program, spec_decode, strip_comments, Instr};
use crate::tape::{wrap_dec, wrap_inc, zeros, Tape, TAPE_SIZE};

verus! {

/// Why execution stopped. Each kind carries the program counter of the instruction that
/// failed.
#[derive(Clone, Copy, Debug, PartialEq, Eq, Structural)]
pub enum BfError {
    /// The symbol at `pc` is not an instruction.
    InvalidInstruction { pc: usize, symbol: char },
    /// `>` on the last cell or `<` on the first; `ptr` is the data pointer.
    PointerOutOfRange { pc: usize, ptr: usize },
    /// The bracket at `pc` has no partner: the scan reached an end of the buffer.
    UnbalancedBrackets { pc: usize },
    /// `,` at `pc` found no input left.
    InputExhausted { pc: usize },
}

/// The whole state of an interpreter.
pub struct MachineState {
    pub tape: Seq<u8>,
    pub ptr: int,
    pub program: Seq<char>,
    pub pc: int,
}

/// The data pointer indexes a cell and the program counter lies within the buffer or
/// just past its end.
pub open spec fn state_wf(s: MachineState) -> bool {
    &&& 0 <= s.ptr < s.tape.len()
    &&& 0 <= s.pc <= s.program.len()
}

/// The state a source text starts in: `size` zero cells, and the source's instruction
/// symbols as the program.
pub open spec fn initial_state(source: Seq<char>, size: nat) -> MachineState {
    MachineState { tape: zeros(size), ptr: 0, program: strip_comments(source), pc: 0 }
}

/// The partner of the `[` at `p`: the first `]` after it at depth zero.
pub open spec fn forward_partner(s: Seq<char>, p: int) -> Option<int> {
    if exists|q: int| closes(s, p, q) && forall|k: int| p < k < q ==> !closes(s, p, k) {
        Some(choose|q: int| closes(s, p, q) && forall|k: int| p < k < q ==> !closes(s, p, k))
    } else {
        None
    }
}

/// The partner of the `]` at `p`: the nearest `[` before it at depth zero.
pub open spec fn backward_partner(s: Seq<char>, p: int) -> Option<int> {
    if exists|q: int| opens(s, q, p) && forall|k: int| q < k < p ==> !opens(s, k, p) {
        Some(choose|q: int| opens(s, q, p) && forall|k: int| q < k < p ==> !opens(s, k, p))
    } else {
        None
    }
}

/// The state with the program counter moved to `pc`.
pub open spec fn goto(s: MachineState, pc: int) -> MachineState {
    MachineState { pc, ..s }
}

/// The state with the current cell set to `b` and the program counter advanced.
pub open spec fn store(s: MachineState, b: u8) -> MachineState {
    MachineState { tape: s.tape.update(s.ptr, b), pc: s.pc + 1, ..s }
}

/// One step from `s`, whose program counter is inside the buffer: the next state and the
/// byte emitted, if any, or the error. `input` is what a `,` receives.
pub open spec fn step_spec(s: MachineState, input: Option<u8>) -> Result<
    (MachineState, Option<u8>),
    BfError,
> {
    let c = s.program[s.pc];
    let cur = s.tape[s.ptr];
    match spec_decode(c) {
        None => Err(BfError::InvalidInstruction { pc: s.pc as usize, symbol: c }),
        Some(Instr::Right) => if s.ptr + 1 < s.tape.len() {
            Ok((MachineState { ptr: s.ptr + 1, pc: s.pc + 1, ..s }, None))
        } else {
            Err(BfError::PointerOutOfRange { pc: s.pc as usize, ptr: s.ptr as usize })
        },
        Some(Instr::Left) => if s.ptr > 0 {
            Ok((MachineState { ptr: s.ptr - 1, pc: s.pc + 1, ..s }, None))
        } else {
            Err(BfError::PointerOutOfRange { pc: s.pc as usize, ptr: s.ptr as usize })
        },
        Some(Instr::Inc) => Ok((store(s, wrap_inc(cur)), None)),
        Some(Instr::Dec) => Ok((store(s, wrap_dec(cur)), None)),
        Some(Instr::Output) => Ok((goto(s, s.pc + 1), Some(cur))),
        Some(Instr::Input) => match input {
            Some(b) => Ok((store(s, b), None)),
            None => Err(BfError::InputExhausted { pc: s.pc as usize }),
        },
        Some(Instr::LoopStart) => if cur == 0 {
            match forward_partner(s.program, s.pc) {
                Some(q) => Ok((goto(s, q + 1), None)),
                None => Err(BfError::UnbalancedBrackets { pc: s.pc as usize }),
            }
        } else {
            Ok((goto(s, s.pc + 1), None))
        },
        Some(Instr::LoopEnd) => if cur == 0 {
            Ok((goto(s, s.pc + 1), None))
        } else {
            match backward_partner(s.program, s.pc) {
                Some(q) => Ok((goto(s, q + 1), None)),
                None => Err(BfError::UnbalancedBrackets { pc: s.pc as usize }),
            }
        },
    }
}

/// The outcome of a bounded run: the final state, how far the input was read, the bytes
/// emitted, and `Ok(true)` when the program ran to its end, `Ok(false)` when the step
/// budget ran out first, or the error that stopped it.
pub struct RunModel {
    pub state: MachineState,
    pub pos: int,
    pub output: Seq<u8>,
    pub result: Result<bool, BfError>,
}

/// At most `fuel` steps from `s`, with `,` reading `data` in line mode from `pos`.
pub open spec fn run_spec(s: MachineState, data: Seq<u8>, pos: int, fuel: nat) -> RunModel
    decreases fuel,
{
    if s.pc >= s.program.len() {
        RunModel { state: s, pos, output: seq![], result: Ok(true) }
    } else if fuel == 0 {
        RunModel { state: s, pos, output: seq![], result: Ok(false) }
    } else {
        let reads = s.program[s.pc] == ',';
        let b = if reads {
            next_line_byte(data, pos)
        } else {
            None
        };
        match step_spec(s, b) {
            Err(e) => RunModel { state: s, pos, output: seq![], result: Err(e) },
            Ok((next, out)) => {
                let pos2 = if reads {
                    line_end(data, pos)
                } else {
                    pos
                };
                let rest = run_spec(next, data, pos2, (fuel - 1) as nat);
                let emitted = match out {
                    Some(x) => seq![x],
                    None => seq![],
                };
                RunModel { output: emitted + rest.output, ..rest }
            },
        }
    }
}

proof fn lemma_forward_partner(s: Seq<char>, p: int, q: int)
    requires
        closes(s, p, q),
        forall|k: int| p < k < q ==> !closes(s, p, k),
    ensures
        forward_partner(s, p) == Some(q),
{
    let q2 = choose|q: int| closes(s, p, q) && forall|k: int| p < k < q ==> !closes(s, p, k);
    assert(closes(s, p, q2) && forall|k: int| p < k < q2 ==> !closes(s, p, k));
    if q2 < q {
        assert(!closes(s, p, q2));
    } else if q < q2 {
        assert(!closes(s, p, q));
    }
}

proof fn lemma_backward_partner(s: Seq<char>, p: int, q: int)
    requires
        opens(s, q, p),
        forall|k: int| q < k < p ==> !opens(s, k, p),
    ensures
        backward_partner(s, p) == Some(q),
{
    let q2 = choose|q: int| opens(s, q, p) && forall|k: int| q < k < p ==> !opens(s, k, p);
    assert(opens(s, q2, p) && forall|k: int| q2 < k < p ==> !opens(s, k, p));
    if q2 < q {
        assert(!opens(s, q, p));
    } else if q < q2 {
        assert(!opens(s, q2, p));
    }
}

/// A Brainfuck interpreter: a tape, a program buffer and a program counter.
pub struct Brainfuck {
    tape: Tape,
    program: Vec<char>,
    pc: usize,
}

impl View for Brainfuck {
    type V = MachineState;

    closed spec fn view(&self) -> MachineState {
        MachineState {
            tape: self.tape@.cells,
            ptr: self.tape@.ptr,
            program: self.program@,
            pc: self.pc as int,
        }
    }
}

impl Brainfuck {
    /// The data pointer is on the tape and the program counter within the buffer or just
    /// past its end.
    pub open spec fn wf(&self) -> bool {
        state_wf(self@)
    }

    /// An interpreter for the program text `program`, on a tape of the default size. Every
    /// character outside the instruction alphabet is dropped.
    pub fn new(program: String) -> (r: Brainfuck)
        ensures
            r.wf(),
            r@ == initial_state(program@, TAPE_SIZE as nat),
    {
        Brainfuck::with_tape_size(program, TAPE_SIZE)
    }

    /// An interpreter for the program text `program`, on a tape of `tape_size` cells; characters
    /// outside the instruction alphabet are dropped.
    pub fn with_tape_size(program: String, tape_size: usize) -> (r: Brainfuck)
        requires
            tape_size > 0,
        ensures
            r.wf(),
            r@ == initial_state(program@, tape_size as nat),
    {
        let symbols = load_program(program.as_str());
        Brainfuck { tape: Tape::new(tape_size), program: symbols, pc: 0 }
    }

    /// An interpreter for a program buffer taken as it is, on a tape of `tape_size`
    /// cells. A symbol outside the alphabet fails when it is reached.
    pub fn from_symbols(program: Vec<char>, tape_size: usize) -> (r: Brainfuck)
        requires
            tape_size > 0,
        ensures
            r.wf(),
            r@ == (MachineState { tape: zeros(tape_size as nat), ptr: 0, program: program@, pc: 0 }),
    {
        Brainfuck { tape: Tape::new(tape_size), program, pc: 0 }
    }

    /// Executes the instruction at the program counter. `input` is the byte a `,`
    /// receives (`None`: the input is exhausted); other instructions ignore it. Returns
    /// the byte a `.` emits. On an error nothing changes.
    pub fn step(&mut self, input: Option<u8>) -> (r: Result<Option<u8>, BfError>)
        requires
            old(self).wf(),
            old(self)@.pc < old(self)@.program.len(),
        ensures
            final(self).wf(),
            match step_spec(old(self)@, input) {
                Ok((next, out)) => r == Ok::<Option<u8>, BfError>(out) && final(self)@ == next,
                Err(e) => r == Err::<Option<u8>, BfError>(e) && final(self)@ == old(self)@,
            },
    {
        let pc = self.pc;
        let c = self.program[pc];
        let len = self.program.len();
        // `pc < len` by the precondition; testing it here also bounds `pc + 1`.
        let next_pc: usize = if pc < len { pc + 1 } else { len };
        match Instr::decode(c) {
            None => Err(BfError::InvalidInstruction { pc, symbol: c }),
            Some(Instr::Right) => {
                if self.tape.shift_right() {
                    self.pc = next_pc;
                    Ok(None)
                } else {
                    Err(BfError::PointerOutOfRange { pc, ptr: self.tape.pointer() })
                }
            },
            Some(Instr::Left) => {
                if self.tape.shift_left() {
                    self.pc = next_pc;
                    Ok(None)
                } else {
                    Err(BfError::PointerOutOfRange { pc, ptr: self.tape.pointer() })
                }
            },
            Some(Instr::Inc) => {
                self.tape.incr();
                self.pc = next_pc;
                Ok(None)
            },
            Some(Instr::Dec) => {
                self.tape.decr();
                self.pc = next_pc;
                Ok(None)
            },
            Some(Instr::Output) => {
                let b = self.tape.read();
                self.pc = next_pc;
                Ok(Some(b))
            },
            Some(Instr::Input) => match input {
                Some(b) => {
                    self.tape.write(b);
                    self.pc = next_pc;
                    Ok(None)
                },
                None => Err(BfError::InputExhausted { pc }),
            },
            Some(Instr::LoopStart) => {
                if self.tape.read() == 0 {
                    match find_matching_close(&self.program, pc) {
                        Some(q) => {
                            proof {
                                lemma_forward_partner(self.program@, pc as int, q as int);
                            }
                            self.pc = q + 1;
                            Ok(None)
                        },
                        None => Err(BfError::UnbalancedBrackets { pc }),
                    }
                } else {
                    self.pc = next_pc;
                    Ok(None)
                }
            },
            Some(Instr::LoopEnd) => {
                if self.tape.read() == 0 {
                    self.pc = next_pc;
                    Ok(None)
                } else {
                    match find_matching_open(&self.program, pc) {
                        Some(q) => {
                            proof {
                                lemma_backward_partner(self.program@, pc as int, q as int);
                            }
                            self.pc = q + 1;
                            Ok(None)
                        },
                        None => Err(BfError::UnbalancedBrackets { pc }),
                    }
                }
            },
        }
    }

    /// Runs until the program counter leaves the buffer, an error stops execution, or
    /// `max_steps` steps have been taken. Each `,` reads `input` in line mode; each `.`
    /// appends its byte to `output`. Returns `Ok(true)` when the program finished and
    /// `Ok(false)` when the budget ran out first; a later call resumes.
    pub fn run(&mut self, input: &mut LineInput, output: &mut Vec<u8>, max_steps: u64) -> (r:
        Result<bool, BfError>)
        requires
            old(self).wf(),
            old(input).wf(),
        ensures
            ({
                let m = run_spec(old(self)@, old(input)@.data, old(input)@.pos, max_steps as nat);
                &&& final(self).wf()
                &&& final(input).wf()
                &&& final(self)@ == m.state
                &&& final(input)@.data == old(input)@.data
                &&& final(input)@.pos == m.pos
                &&& final(output)@ == old(output)@ + m.output
                &&& r == m.result
            }),
    {
        let ghost s0 = self@;
        let ghost data = input@.data;
        let ghost pos0 = input@.pos;
        let ghost out0 = output@;
        let ghost m0 = run_spec(s0, data, pos0, max_steps as nat);
        let mut left: u64 = max_steps;
        loop
            invariant
                self.wf(),
                input.wf(),
                input@.data == data,
                s0 == old(self)@,
                out0 == old(output)@,
                pos0 == old(input)@.pos,
                data == old(input)@.data,
                m0 == run_spec(s0, data, pos0, max_steps as nat),
                ({
                    let m = run_spec(self@, data, input@.pos, left as nat);
                    &&& out0 + m0.output == output@ + m.output
                    &&& m0.state == m.state
                    &&& m0.pos == m.pos
                    &&& m0.result == m.result
                }),
            decreases left,
        {
            if self.pc >= self.program.len() {
                proof {
                    assert(output@ + seq![] == output@);
                }
                return Ok(true);
            }
            if left == 0 {
                proof {
                    assert(output@ + seq![] == output@);
                }
                return Ok(false);
            }
            let ghost before = self@;
            let ghost pos = input@.pos;
            let b = if self.program[self.pc] == ',' {
                input.read_byte()
            } else {
                None
            };
            match self.step(b) {
                Err(e) => {
                    proof {
                        assert(output@ + seq![] == output@);
                    }
                    return Err(e);
                },
                Ok(out) => {
                    let ghost prev = output@;
                    match out {
                        Some(x) => output.push(x),
                        None => {},
                    }
                    proof {
                        let rest = run_spec(self@, data, input@.pos, (left - 1) as nat);
                        let emitted: Seq<u8> = match out {
                            Some(x) => seq![x],
                            None => seq![],
                        };
                        assert(output@ == prev + emitted);
                        assert(prev + (emitted + rest.output) == (prev + emitted) + rest.output);
                    }
                    left = left - 1;
                },
            }
        }
    }

    /// Whether the program counter has left the buffer.
    pub fn is_halted(&self) -> (r: bool)
        ensures
            r == (self@.pc >= self@.program.len()),
    {
        self.pc >= self.program.len()
    }

    /// Whether the next step executes a `,` and so needs an input byte.
    pub fn wants_input(&self) -> (r: bool)
        ensures
            r == (self@.pc < self@.program.len() && self@.program[self@.pc] == ','),
    {
        self.pc < self.program.len() && self.program[self.pc] == ','
    }

    /// The program counter.
    pub fn pc(&self) -> (r: usize)
        ensures
            r == self@.pc,
    {
        self.pc
    }

    /// The data pointer.
    pub fn pointer(&self) -> (r: usize)
        ensures
            r == self@.ptr,
    {
        self.tape.pointer()
    }

    /// The number of cells of the tape.
    pub fn tape_len(&self) -> (r: usize)
        ensures
            r == self@.tape.len(),
    {
        self.tape.len()
    }

    /// The value of cell `i`.
    pub fn cell(&self, i: usize) -> (r: u8)
        requires
            i < self@.tape.len(),
        ensures
            r == self@.tape[i as int],
    {
        self.tape.cell(i)
    }

    /// The program buffer.
    pub fn program(&self) -> (r: &Vec<char>)
        ensures
            r@ == self@.program,
    {
        &self.program
    }
}

} // verus!
