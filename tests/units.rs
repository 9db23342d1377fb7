use brainfuck::brackets::{find_matching_close, find_matching_open};
use brainfuck::input::LineInput;
use brainfuck::instr::{is_instruction_char, load_program, Instr};
use brainfuck::machine::{BfError, Brainfuck};
use brainfuck::tape::{Tape, TAPE_SIZE};

#[test]
fn decode_each_symbol() {
    assert_eq!(Instr::decode('>'), Some(Instr::Right));
    assert_eq!(Instr::decode('<'), Some(Instr::Left));
    assert_eq!(Instr::decode('+'), Some(Instr::Inc));
    assert_eq!(Instr::decode('-'), Some(Instr::Dec));
    assert_eq!(Instr::decode('.'), Some(Instr::Output));
    assert_eq!(Instr::decode(','), Some(Instr::Input));
    assert_eq!(Instr::decode('['), Some(Instr::LoopStart));
    assert_eq!(Instr::decode(']'), Some(Instr::LoopEnd));
    assert_eq!(Instr::decode('a'), None);
    assert!(!is_instruction_char(' '));
    assert!(is_instruction_char(','));
}

#[test]
fn loader_keeps_only_instructions() {
    assert_eq!(load_program("+ a -\n.é[x]"), vec!['+', '-', '.', '[', ']']);
    assert!(load_program("no code here").is_empty());
    assert!(load_program("").is_empty());
}

#[test]
fn new_loads_and_starts_at_zero() {
    let bf = Brainfuck::new(String::from("+ +\n."));
    assert_eq!(bf.program(), &vec!['+', '+', '.']);
    assert_eq!(bf.pc(), 0);
    assert_eq!(bf.pointer(), 0);
    assert_eq!(bf.tape_len(), TAPE_SIZE);
    assert_eq!(TAPE_SIZE, 4096);
}

#[test]
fn tape_wraps_both_ways() {
    let mut t = Tape::new(3);
    t.decr();
    assert_eq!(t.read(), 255);
    t.incr();
    assert_eq!(t.read(), 0);
    t.write(255);
    t.incr();
    assert_eq!(t.read(), 0);
    t.write(41);
    t.incr();
    assert_eq!(t.read(), 42);
    t.decr();
    t.decr();
    assert_eq!(t.read(), 40);
}

#[test]
fn tape_shifts_stop_at_ends() {
    let mut t = Tape::new(2);
    assert!(!t.shift_left());
    assert_eq!(t.pointer(), 0);
    assert!(t.shift_right());
    assert_eq!(t.pointer(), 1);
    assert!(!t.shift_right());
    assert_eq!(t.pointer(), 1);
    t.write(7);
    assert!(t.shift_left());
    assert_eq!(t.read(), 0);
    assert_eq!(t.cell(1), 7);
    assert_eq!(t.len(), 2);
}

#[test]
fn forward_scan_counts_depth() {
    let p: Vec<char> = "[[][]]]".chars().collect();
    assert_eq!(find_matching_close(&p, 0), Some(5));
    assert_eq!(find_matching_close(&p, 1), Some(2));
    assert_eq!(find_matching_close(&p, 3), Some(4));
    let q: Vec<char> = "[[]".chars().collect();
    assert_eq!(find_matching_close(&q, 0), None);
}

#[test]
fn backward_scan_counts_depth() {
    let p: Vec<char> = "[[[]+[]]".chars().collect();
    assert_eq!(find_matching_open(&p, 7), Some(1));
    assert_eq!(find_matching_open(&p, 3), Some(2));
    assert_eq!(find_matching_open(&p, 6), Some(5));
    let q: Vec<char> = "[]]".chars().collect();
    assert_eq!(find_matching_open(&q, 2), None);
}

#[test]
fn line_input_reads_line_by_line() {
    let mut inp = LineInput::new(b"ab\n\nc".to_vec());
    assert_eq!(inp.read_byte(), Some(b'a'));
    assert_eq!(inp.position(), 3);
    assert_eq!(inp.read_byte(), Some(b'\n'));
    assert_eq!(inp.position(), 4);
    assert_eq!(inp.read_byte(), Some(b'c'));
    assert_eq!(inp.position(), 5);
    assert_eq!(inp.read_byte(), None);
    assert_eq!(inp.position(), 5);
}

#[test]
fn step_by_step() {
    let mut bf = Brainfuck::new(String::from(",+.>"));
    assert!(bf.wants_input());
    assert_eq!(bf.step(Some(b'a')), Ok(None));
    assert!(!bf.wants_input());
    assert_eq!(bf.step(None), Ok(None));
    assert_eq!(bf.step(None), Ok(Some(b'b')));
    assert_eq!(bf.step(None), Ok(None));
    assert_eq!(bf.pointer(), 1);
    assert!(bf.is_halted());
}

#[test]
fn failed_step_changes_nothing() {
    let mut bf = Brainfuck::new(String::from(","));
    assert_eq!(bf.step(None), Err(BfError::InputExhausted { pc: 0 }));
    assert_eq!(bf.pc(), 0);
    assert_eq!(bf.cell(0), 0);
}

#[test]
fn loop_end_jumps_back_past_partner() {
    let mut bf = Brainfuck::new(String::from("++[-]"));
    for _ in 0..4 {
        assert_eq!(bf.step(None), Ok(None));
    }
    assert_eq!(bf.pc(), 4);
    assert_eq!(bf.step(None), Ok(None));
    assert_eq!(bf.pc(), 3);
}
