use brainfck::engine::{fck, Engine, Outcome, RunError, START_CELL, TAPE_LEN};
use brainfck::instruction::{instruction_of, parse, Instruction};

fn program(text: &str) -> Vec<Instruction> {
    parse(&text.to_string())
}

const FUEL: u64 = 1_000_000;

#[test]
fn two_increments_then_output_writes_two() {
    let report = fck(&program("++."), FUEL);
    assert_eq!(report.output, vec![2u8]);
    assert_eq!(report.outcome, Outcome::Halted);
}

#[test]
fn transfer_loop_moves_the_cell() {
    let prog = program("+[->+<]");
    let mut engine = Engine::new();
    let report = engine.run(&prog, FUEL);
    assert_eq!(report.outcome, Outcome::Halted);
    assert_eq!(engine.cell(START_CELL), 0);
    assert_eq!(engine.cell(START_CELL + 1), 1);
    assert_eq!(engine.data_pointer(), START_CELL);
    assert_eq!(engine.loop_depth(), 0);
}

#[test]
fn input_copies_the_last_output_register() {
    let report = fck(&program(",."), FUEL);
    assert_eq!(report.output, vec![0u8]);
    assert_eq!(report.outcome, Outcome::Halted);
}

#[test]
fn input_after_output_reads_that_byte() {
    let report = fck(&program("+++.[-],."), FUEL);
    assert_eq!(report.output, vec![3u8, 3u8]);
}

#[test]
fn lone_open_bracket_is_unmatched() {
    let report = fck(&program("["), FUEL);
    assert!(report.output.is_empty());
    assert_eq!(report.outcome, Outcome::Failed(RunError::UnmatchedBracket));
}

#[test]
fn lone_close_bracket_is_unbalanced() {
    let report = fck(&program("]"), FUEL);
    assert_eq!(report.outcome, Outcome::Failed(RunError::UnbalancedBrackets));
}

#[test]
fn close_bracket_with_nonzero_guard_and_no_open_loop_is_unbalanced() {
    let report = fck(&program("+]"), FUEL);
    assert_eq!(report.outcome, Outcome::Failed(RunError::UnbalancedBrackets));
}

#[test]
fn output_before_a_failure_is_kept() {
    let report = fck(&program("+.]"), FUEL);
    assert_eq!(report.output, vec![1u8]);
    assert_eq!(report.outcome, Outcome::Failed(RunError::UnbalancedBrackets));
}

#[test]
fn empty_program_halts_at_once() {
    let report = fck(&Vec::new(), 0);
    assert!(report.output.is_empty());
    assert_eq!(report.outcome, Outcome::Halted);
}

#[test]
fn increments_wrap_past_255() {
    let mut text = String::new();
    for _ in 0..255 {
        text.push('+');
    }
    let mut engine = Engine::new();
    engine.run(&program(&text), FUEL);
    assert_eq!(engine.cell(START_CELL), 255);
    text.push('+');
    let mut engine = Engine::new();
    engine.run(&program(&text), FUEL);
    assert_eq!(engine.cell(START_CELL), 0);
}

#[test]
fn decrement_from_zero_wraps_to_255() {
    let report = fck(&program("-."), FUEL);
    assert_eq!(report.output, vec![255u8]);
}

#[test]
fn mixed_arithmetic_is_net_count_modulo_256() {
    // 300 up, 2 down: 298 mod 256 = 42
    let mut text = String::new();
    for _ in 0..300 {
        text.push('+');
    }
    text.push_str("--.");
    let report = fck(&program(&text), FUEL);
    assert_eq!(report.output, vec![42u8]);
}

#[test]
fn zero_guard_skips_the_whole_body() {
    let report = fck(&program("[+++.[>.]<.]++."), FUEL);
    assert_eq!(report.output, vec![2u8]);
    assert_eq!(report.outcome, Outcome::Halted);
}

#[test]
fn zero_guard_skip_resumes_after_the_matching_end() {
    let prog = program("[[]+]+");
    let mut engine = Engine::new();
    assert_eq!(engine.step(&prog), Ok(None));
    assert_eq!(engine.instruction_pointer(), 5);
    assert_eq!(engine.loop_depth(), 0);
}

#[test]
fn nonzero_guard_resumes_at_the_first_body_instruction() {
    let prog = program("+[-]");
    let mut engine = Engine::new();
    assert_eq!(engine.step(&prog), Ok(None));
    assert_eq!(engine.step(&prog), Ok(None));
    assert_eq!(engine.loop_depth(), 1);
    assert_eq!(engine.instruction_pointer(), 2);
    // the cell is now 1; after the decrement it is 0 and the loop ends
    let prog2 = program("++[-]");
    let mut engine = Engine::new();
    for _ in 0..4 {
        assert_eq!(engine.step(&prog2), Ok(None));
    }
    assert_eq!(engine.instruction_pointer(), 4);
    assert_eq!(engine.step(&prog2), Ok(None));
    assert_eq!(engine.instruction_pointer(), 3);
    assert_eq!(engine.cell(START_CELL), 1);
}

#[test]
fn loop_counts_down() {
    let report = fck(&program("++[>+++<-]>."), FUEL);
    assert_eq!(report.output, vec![6u8]);
}

#[test]
fn fresh_runs_give_identical_output() {
    let prog = program("++++++++[>++++++++<-]>+.+.+.<,.");
    let a = fck(&prog, FUEL);
    let b = fck(&prog, FUEL);
    assert_eq!(a.output, b.output);
    assert_eq!(a.outcome, b.outcome);
    assert_eq!(a.output, vec![65u8, 66, 67, 67]);
}

#[test]
fn thirty_thousand_left_moves_are_legal() {
    let text: String = std::iter::repeat('<').take(30000).collect();
    let mut engine = Engine::new();
    let report = engine.run(&program(&text), FUEL);
    assert_eq!(report.outcome, Outcome::Halted);
    assert_eq!(engine.data_pointer(), 0);
}

#[test]
fn left_move_number_30001_is_out_of_bounds() {
    let text: String = std::iter::repeat('<').take(30001).collect();
    let mut engine = Engine::new();
    let report = engine.run(&program(&text), FUEL);
    assert_eq!(report.outcome, Outcome::Failed(RunError::OutOfBounds));
    assert_eq!(engine.instruction_pointer(), 30000);
    assert_eq!(engine.data_pointer(), 0);
}

#[test]
fn right_edge_allows_29999_moves() {
    let text: String = std::iter::repeat('>').take(29999).collect();
    let mut engine = Engine::new();
    assert_eq!(engine.run(&program(&text), FUEL).outcome, Outcome::Halted);
    assert_eq!(engine.data_pointer(), TAPE_LEN - 1);
    let text: String = std::iter::repeat('>').take(30000).collect();
    assert_eq!(
        fck(&program(&text), FUEL).outcome,
        Outcome::Failed(RunError::OutOfBounds)
    );
}

#[test]
fn endless_loop_runs_out_of_fuel() {
    let mut engine = Engine::new();
    let report = engine.run(&program("+[]"), 100);
    assert_eq!(report.outcome, Outcome::OutOfFuel);
    assert!(!engine.is_halted(&program("+[]")));
}

#[test]
fn fuel_counts_steps_exactly() {
    assert_eq!(fck(&program("+++"), 2).outcome, Outcome::OutOfFuel);
    assert_eq!(fck(&program("+++"), 3).outcome, Outcome::Halted);
}

#[test]
fn output_updates_last_output() {
    let mut engine = Engine::new();
    let prog = program("+++.");
    assert_eq!(engine.last_output(), 0);
    engine.run(&prog, FUEL);
    assert_eq!(engine.last_output(), 3);
    assert!(engine.is_halted(&prog));
}

#[test]
fn step_reports_the_byte_written() {
    let prog = program("+.");
    let mut engine = Engine::new();
    assert_eq!(engine.step(&prog), Ok(None));
    assert_eq!(engine.step(&prog), Ok(Some(1u8)));
    assert!(engine.is_halted(&prog));
}

#[test]
fn failed_step_leaves_the_machine_unchanged() {
    let text: String = std::iter::repeat('<').take(30001).collect();
    let prog = program(&text);
    let mut engine = Engine::new();
    assert_eq!(engine.run(&prog, 30000).outcome, Outcome::OutOfFuel);
    assert_eq!(engine.data_pointer(), 0);
    assert_eq!(engine.step(&prog), Err(RunError::OutOfBounds));
    assert_eq!(engine.data_pointer(), 0);
    assert_eq!(engine.instruction_pointer(), 30000);
}

#[test]
fn parse_maps_each_symbol() {
    assert_eq!(
        program("+-><.,[]"),
        vec![
            Instruction::Add,
            Instruction::Subtract,
            Instruction::Next,
            Instruction::Previous,
            Instruction::Output,
            Instruction::GetInput,
            Instruction::BeginLoop,
            Instruction::EndLoop,
        ]
    );
}

#[test]
fn parse_drops_other_characters() {
    assert_eq!(
        program("a + b\n-é[x]"),
        vec![
            Instruction::Add,
            Instruction::Subtract,
            Instruction::BeginLoop,
            Instruction::EndLoop,
        ]
    );
    assert!(program("hello world").is_empty());
    assert_eq!(instruction_of('#'), None);
    assert_eq!(instruction_of('>'), Some(Instruction::Next));
}
