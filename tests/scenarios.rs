use brainfuck::input::LineInput;
use brainfuck::machine::{BfError, Brainfuck};

const BUDGET: u64 = 1_000_000;

fn run_source(source: &str, input: &[u8]) -> (Result<bool, BfError>, Vec<u8>, Brainfuck) {
    let mut bf = Brainfuck::new(String::from(source));
    let mut inp = LineInput::new(input.to_vec());
    let mut out: Vec<u8> = Vec::new();
    let r = bf.run(&mut inp, &mut out, BUDGET);
    (r, out, bf)
}

#[test]
fn empty_program() {
    let (r, out, bf) = run_source("", b"");
    assert_eq!(r, Ok(true));
    assert!(out.is_empty());
    assert!(bf.is_halted());
}

#[test]
fn print_a() {
    let (r, out, _) = run_source("++++++++[>++++++++<-]>+.", b"");
    assert_eq!(r, Ok(true));
    assert_eq!(out, b"A".to_vec());
}

#[test]
fn hello_world() {
    let src = "++++++++[>++++[>++>+++>+++>+<<<<-]>+>+>->>+[<]<-]>>.>---.+++++++..+++.>>.<-.<.+++.------.--------.>>+.>++.";
    let (r, out, _) = run_source(src, b"");
    assert_eq!(r, Ok(true));
    assert_eq!(out, b"Hello World!\n".to_vec());
}

#[test]
fn echo_one_byte() {
    let (r, out, _) = run_source(",.", b"Z\n");
    assert_eq!(r, Ok(true));
    assert_eq!(out, b"Z".to_vec());
}

#[test]
fn wrap_decrement() {
    let (r, out, bf) = run_source("-.", b"");
    assert_eq!(r, Ok(true));
    assert_eq!(out, vec![255u8]);
    assert_eq!(bf.cell(0), 255);
}

#[test]
fn empty_loop_never_enters() {
    let (r, out, bf) = run_source("[+]", b"");
    assert_eq!(r, Ok(true));
    assert!(out.is_empty());
    assert_eq!(bf.cell(0), 0);
    assert_eq!(bf.pc(), 3);
}

#[test]
fn comments_are_ignored() {
    let (r1, out1, _) = run_source("++++++++[>++++++++<-]>+.", b"");
    let (r2, out2, _) = run_source("8 times: ++++++++ [ > ++++++++ < - ] then > + and print .\n", b"");
    assert_eq!(r1, r2);
    assert_eq!(out1, out2);
    assert_eq!(out2, b"A".to_vec());
}

#[test]
fn no_io_program_prints_nothing() {
    let (r, out, bf) = run_source("+++[>++<-]>>+<<-", b"");
    assert_eq!(r, Ok(true));
    assert!(out.is_empty());
    assert_eq!(bf.cell(1), 6);
    assert_eq!(bf.cell(2), 1);
    assert_eq!(bf.cell(0), 255);
}

#[test]
fn nested_loops_match_at_their_own_depth() {
    // The inner loop's `]` must not be taken as the partner of the outer `[`.
    let (r, out, bf) = run_source("[[-]+]+.", b"");
    assert_eq!(r, Ok(true));
    assert_eq!(out, vec![1u8]);
    assert_eq!(bf.pc(), 8);
}

#[test]
fn empty_loop_body_on_zero_cell() {
    let (r, out, _) = run_source("[].", b"");
    assert_eq!(r, Ok(true));
    assert_eq!(out, vec![0u8]);
}

#[test]
fn line_mode_takes_first_byte_of_each_line() {
    let (r, out, _) = run_source(",.,.,.", b"abc\nd\n\n");
    assert_eq!(r, Ok(true));
    assert_eq!(out, b"ad\n".to_vec());
}

#[test]
fn last_line_without_line_feed() {
    let (r, out, _) = run_source(",.,.", b"xy\nq");
    assert_eq!(r, Ok(true));
    assert_eq!(out, b"xq".to_vec());
}

#[test]
fn input_exhausted() {
    let (r, out, bf) = run_source(".,.,", b"k\n");
    assert_eq!(r, Err(BfError::InputExhausted { pc: 3 }));
    assert_eq!(out, vec![0u8, b'k']);
    assert_eq!(bf.pc(), 3);
}

#[test]
fn pointer_left_of_first_cell() {
    let (r, _, bf) = run_source("+<", b"");
    assert_eq!(r, Err(BfError::PointerOutOfRange { pc: 1, ptr: 0 }));
    assert_eq!(bf.pointer(), 0);
}

#[test]
fn pointer_right_of_last_cell_default_tape() {
    let src = format!("{}>", ">".repeat(4095));
    let (r, _, bf) = run_source(&src, b"");
    assert_eq!(r, Err(BfError::PointerOutOfRange { pc: 4095, ptr: 4095 }));
    assert_eq!(bf.pointer(), 4095);
    assert_eq!(bf.tape_len(), 4096);
}

#[test]
fn pointer_right_on_small_tape() {
    let mut bf = Brainfuck::with_tape_size(String::from(">>"), 2);
    let mut inp = LineInput::new(Vec::new());
    let mut out: Vec<u8> = Vec::new();
    assert_eq!(bf.run(&mut inp, &mut out, BUDGET), Err(BfError::PointerOutOfRange { pc: 1, ptr: 1 }));
    assert_eq!(bf.pc(), 1);
}

#[test]
fn unbalanced_open_bracket() {
    let (r, _, bf) = run_source("+-[", b"");
    assert_eq!(r, Err(BfError::UnbalancedBrackets { pc: 2 }));
    assert_eq!(bf.pc(), 2);
}

#[test]
fn unbalanced_close_bracket() {
    let (r, _, _) = run_source("+]", b"");
    assert_eq!(r, Err(BfError::UnbalancedBrackets { pc: 1 }));
}

#[test]
fn close_bracket_on_zero_cell_just_advances() {
    let (r, out, _) = run_source("].", b"");
    assert_eq!(r, Ok(true));
    assert_eq!(out, vec![0u8]);
}

#[test]
fn invalid_instruction_in_raw_buffer() {
    let mut bf = Brainfuck::from_symbols(vec!['+', 'x', '.'], 8);
    let mut inp = LineInput::new(Vec::new());
    let mut out: Vec<u8> = Vec::new();
    assert_eq!(
        bf.run(&mut inp, &mut out, BUDGET),
        Err(BfError::InvalidInstruction { pc: 1, symbol: 'x' })
    );
    assert_eq!(bf.cell(0), 1);
}

#[test]
fn step_budget_then_resume() {
    let mut bf = Brainfuck::new(String::from("+++++."));
    let mut inp = LineInput::new(Vec::new());
    let mut out: Vec<u8> = Vec::new();
    assert_eq!(bf.run(&mut inp, &mut out, 3), Ok(false));
    assert_eq!(bf.pc(), 3);
    assert_eq!(bf.cell(0), 3);
    assert_eq!(bf.run(&mut inp, &mut out, 100), Ok(true));
    assert_eq!(out, vec![5u8]);
}

#[test]
fn endless_loop_stops_at_budget() {
    let mut bf = Brainfuck::new(String::from("+[]"));
    let mut inp = LineInput::new(Vec::new());
    let mut out: Vec<u8> = Vec::new();
    assert_eq!(bf.run(&mut inp, &mut out, 1000), Ok(false));
    assert!(!bf.is_halted());
}
