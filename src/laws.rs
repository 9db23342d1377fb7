//! Properties of the interpreter's semantics that hold for every program, tape and input.
use vstd::prelude::*;
use crate::brackets::{closes, depth_delta, lemma_nest_split, nest, opens};
use crate::input::line_end;
use crate::instr::{is_instruction, strip_comments};
use crate::machine::{forward_partner, initial_state, run_spec, state_wf, step_spec, BfError, MachineState};

verus! {

/// A step from a well-formed state leads to a well-formed state over the same program
/// and tape length: the data pointer never leaves the tape, since a move that would is
/// refused with `PointerOutOfRange`.
pub proof fn lemma_step_keeps_pointer_in_range(s: MachineState, input: Option<u8>)
    requires
        state_wf(s),
        s.pc < s.program.len(),
    ensures
        match step_spec(s, input) {
            Ok((next, _)) => {
                &&& state_wf(next)
                &&& next.program == s.program
                &&& next.tape.len() == s.tape.len()
            },
            Err(_) => true,
        },
        s.program[s.pc] == '>' && s.ptr + 1 >= s.tape.len() ==> step_spec(s, input) == Err::<
            (MachineState, Option<u8>),
            BfError,
        >(BfError::PointerOutOfRange { pc: s.pc as usize, ptr: s.ptr as usize }),
        s.program[s.pc] == '<' && s.ptr == 0 ==> step_spec(s, input) == Err::<
            (MachineState, Option<u8>),
            BfError,
        >(BfError::PointerOutOfRange { pc: s.pc as usize, ptr: s.ptr as usize }),
{
}

/// However many steps a run takes, the data pointer stays on the tape.
pub proof fn lemma_run_keeps_pointer_in_range(s: MachineState, data: Seq<u8>, pos: int, fuel: nat)
    requires
        state_wf(s),
    ensures
        state_wf(run_spec(s, data, pos, fuel).state),
        run_spec(s, data, pos, fuel).state.tape.len() == s.tape.len(),
    decreases fuel,
{
    if s.pc < s.program.len() && fuel > 0 {
        let reads = s.program[s.pc] == ',';
        let b = if reads {
            crate::input::next_line_byte(data, pos)
        } else {
            None
        };
        lemma_step_keeps_pointer_in_range(s, b);
        match step_spec(s, b) {
            Ok((next, _)) => {
                let pos2 = if reads {
                    line_end(data, pos)
                } else {
                    pos
                };
                lemma_run_keeps_pointer_in_range(next, data, pos2, (fuel - 1) as nat);
            },
            Err(_) => {},
        }
    }
}

/// `+` adds one to the current cell modulo 256, and `-` adds 255 modulo 256; no other
/// cell changes.
pub proof fn lemma_cell_arithmetic_wraps(s: MachineState, input: Option<u8>)
    requires
        state_wf(s),
        s.pc < s.program.len(),
        s.program[s.pc] == '+' || s.program[s.pc] == '-',
    ensures
        step_spec(s, input) is Ok,
        ({
            let next = step_spec(s, input)->Ok_0.0;
            let b = s.tape[s.ptr] as int;
            &&& next.tape.len() == s.tape.len()
            &&& next.tape[s.ptr] as int == if s.program[s.pc] == '+' {
                (b + 1) % 256
            } else {
                (b + 255) % 256
            }
            &&& forall|i: int| 0 <= i < s.tape.len() && i != s.ptr ==> next.tape[i] == s.tape[i]
        }),
{
}

/// The depth from a `[` never drops below zero before its partner: up to the first `]`
/// at depth zero every prefix of what follows the `[` opens at least as often as it
/// closes.
proof fn lemma_depth_stays_nonneg(s: Seq<char>, p: int, q: int, k: int)
    requires
        p + 1 <= k <= q,
        forall|j: int| p < j < q ==> !closes(s, p, j),
        q < s.len(),
    ensures
        nest(s, p + 1, k) >= 0,
    decreases k - p,
{
    if k > p + 1 {
        lemma_depth_stays_nonneg(s, p, q, k - 1);
        if s[k - 1] == ']' {
            assert(!closes(s, p, k - 1));
        }
    }
}

/// Matching is nesting-balanced: when the first `]` at depth zero after the `[` at `p`
/// is at `q`, the nearest `[` at depth zero before `q` is `p` again.
pub proof fn lemma_partners_agree(s: Seq<char>, p: int, q: int)
    requires
        0 <= p,
        s[p] == '[',
        closes(s, p, q),
        forall|k: int| p < k < q ==> !closes(s, p, k),
    ensures
        opens(s, p, q),
        forall|k: int| p < k < q ==> !opens(s, k, q),
{
    assert forall|k: int| p < k < q implies !opens(s, k, q) by {
        lemma_depth_stays_nonneg(s, p, q, k);
        lemma_nest_split(s, p + 1, k, q);
        lemma_nest_split(s, k, k + 1, q);
        assert(nest(s, k, k + 1) == depth_delta(s[k])) by {
            assert(nest(s, k, k) == 0);
        }
    }
}

/// A `[` on a zero cell moves the program counter one past the first `]` after it at
/// depth zero, and fails with `UnbalancedBrackets` exactly when there is none.
pub proof fn lemma_skip_lands_after_first_close(s: MachineState, input: Option<u8>)
    requires
        state_wf(s),
        s.pc < s.program.len(),
        s.program[s.pc] == '[',
        s.tape[s.ptr] == 0,
    ensures
        match step_spec(s, input) {
            Ok((next, out)) => {
                let q = next.pc - 1;
                &&& out is None
                &&& closes(s.program, s.pc, q)
                &&& forall|k: int| s.pc < k < q ==> !closes(s.program, s.pc, k)
            },
            Err(e) => {
                &&& e == BfError::UnbalancedBrackets { pc: s.pc as usize }
                &&& forall|q: int| !closes(s.program, s.pc, q)
            },
        },
{
    let sp = s.program;
    let p = s.pc;
    if forward_partner(sp, p) is None {
        assert forall|q: int| !closes(sp, p, q) by {
            if closes(sp, p, q) {
                lemma_first_close_exists(sp, p, q);
            }
        }
    }
}

/// Where some `]` closes the `[` at `p`, a first one does.
proof fn lemma_first_close_exists(s: Seq<char>, p: int, q: int)
    requires
        closes(s, p, q),
    ensures
        exists|m: int| closes(s, p, m) && forall|k: int| p < k < m ==> !closes(s, p, k),
    decreases q - p,
{
    if exists|k: int| p < k < q && closes(s, p, k) {
        let k = choose|k: int| p < k < q && closes(s, p, k);
        lemma_first_close_exists(s, p, k);
    } else {
        assert(forall|k: int| p < k < q ==> !closes(s, p, k));
    }
}

/// A program without `.` emits nothing, whatever its input and however long it runs;
/// in particular one made of non-I/O instructions only.
pub proof fn lemma_no_output_without_print(s: MachineState, data: Seq<u8>, pos: int, fuel: nat)
    requires
        state_wf(s),
        forall|i: int| 0 <= i < s.program.len() ==> s.program[i] != '.',
    ensures
        run_spec(s, data, pos, fuel).output == Seq::<u8>::empty(),
    decreases fuel,
{
    if s.pc < s.program.len() && fuel > 0 {
        let reads = s.program[s.pc] == ',';
        let b = if reads {
            crate::input::next_line_byte(data, pos)
        } else {
            None
        };
        lemma_step_keeps_pointer_in_range(s, b);
        match step_spec(s, b) {
            Ok((next, out)) => {
                let pos2 = if reads {
                    line_end(data, pos)
                } else {
                    pos
                };
                assert(out is None);
                lemma_no_output_without_print(next, data, pos2, (fuel - 1) as nat);
                assert(Seq::<u8>::empty() + Seq::<u8>::empty() == Seq::<u8>::empty());
            },
            Err(_) => {},
        }
    }
}

/// Inserting a character outside the instruction alphabet anywhere in a source leaves
/// the loaded program, and so every run of it, unchanged.
pub proof fn lemma_comments_change_nothing(
    a: Seq<char>,
    b: Seq<char>,
    c: char,
    size: nat,
    data: Seq<u8>,
    pos: int,
    fuel: nat,
)
    requires
        !is_instruction(c),
    ensures
        strip_comments(a + seq![c] + b) == strip_comments(a + b),
        initial_state(a + seq![c] + b, size) == initial_state(a + b, size),
        run_spec(initial_state(a + seq![c] + b, size), data, pos, fuel) == run_spec(
            initial_state(a + b, size),
            data,
            pos,
            fuel,
        ),
{
    let pred = |x: char| is_instruction(x);
    Seq::filter_distributes_over_add(a + seq![c], b, pred);
    Seq::filter_distributes_over_add(a, seq![c], pred);
    Seq::filter_distributes_over_add(a, b, pred);
    assert(seq![c].filter(pred) == Seq::<char>::empty()) by {
        reveal(Seq::filter);
        assert(seq![c].drop_last() == Seq::<char>::empty());
        assert(Seq::<char>::empty().filter(pred) == Seq::<char>::empty());
        assert(seq![c].last() == c);
        assert(!pred(c));
    }
    assert(a.filter(pred) + Seq::<char>::empty() == a.filter(pred));
}

} // verus!
