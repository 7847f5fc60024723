use fuckbf::evaluator::{trim_end, Evaluator};
use fuckbf::instruction::{duplicate_body, Instruction};
use fuckbf::machine::Status;
use fuckbf::random::random_cell;
use fuckbf::scope::Scope;

fn repeat(instruction: fn() -> Instruction, n: usize) -> Vec<Instruction> {
    let mut v = Vec::new();
    for _ in 0..n {
        v.push(instruction());
    }
    v
}

fn inc() -> Instruction {
    Instruction::Increment
}

fn between(left: usize, right: usize) -> Vec<Instruction> {
    let mut program = repeat(inc, left);
    program.push(Instruction::MoveRight);
    program.push(Instruction::MoveRight);
    program.extend(repeat(inc, right));
    program.push(Instruction::MoveLeft);
    program.push(Instruction::Random);
    program
}

#[test]
fn fresh_evaluator_stands_at_the_start() {
    let e = Evaluator::new(vec![Instruction::Increment]);
    assert_eq!(e.status(), Status::Running);
    assert_eq!(e.memory_pointer(), 0);
    assert_eq!(e.scope_pointer(), 0);
    assert_eq!(e.scope_count(), 1);
    assert_eq!(e.cell(), 0);
    assert_eq!(e.cell_at(0, 29999), Some(0));
    assert_eq!(e.cell_at(0, 30000), None);
    assert_eq!(e.cell_at(1, 0), None);
    assert!(e.output().is_empty());
}

#[test]
fn empty_program_is_finished() {
    let mut e = Evaluator::new(Vec::new());
    assert_eq!(e.status(), Status::Finished);
    assert_eq!(e.evaluate(10), Status::Finished);
    assert!(e.output().is_empty());
}

#[test]
fn fresh_scope_is_all_zero() {
    let s = Scope::new();
    assert_eq!(s.cell(0), 0);
    assert_eq!(s.cell(29999), 0);
    assert!(s.function_body(0).is_none());
    assert!(s.function_body(29999).is_none());
}

#[test]
fn scope_keeps_cells_and_functions() {
    let mut s = Scope::new();
    s.set_cell(7, 42);
    assert_eq!(s.cell(7), 42);
    assert_eq!(s.cell(6), 0);
    s.define_function(7, vec![Instruction::Increment, Instruction::Output]);
    let body = s.function_body(7).unwrap();
    assert_eq!(body.len(), 2);
    assert!(matches!(body[0], Instruction::Increment));
    assert!(matches!(body[1], Instruction::Output));
    assert!(s.function_body(8).is_none());
}

#[test]
fn three_increments_then_output() {
    let mut e = Evaluator::new(vec![
        Instruction::Increment,
        Instruction::Increment,
        Instruction::Increment,
        Instruction::Output,
    ]);
    assert_eq!(e.evaluate(1000), Status::Finished);
    assert_eq!(e.output(), &vec![3u8]);
    assert_eq!(String::from_utf8(e.output().clone()).unwrap(), "\u{3}");
}

#[test]
fn sixty_five_increments_print_a() {
    let mut program = repeat(inc, 65);
    program.push(Instruction::Output);
    let mut e = Evaluator::new(program);
    assert_eq!(e.evaluate(1000), Status::Finished);
    assert_eq!(String::from_utf8(e.output().clone()).unwrap(), "A");
}

#[test]
fn full_cycle_of_increments_through_the_evaluator() {
    let mut program = vec![Instruction::Increment, Instruction::Output];
    program.extend(repeat(inc, 256));
    program.push(Instruction::Output);
    program.extend(repeat(|| Instruction::Decrement, 256));
    program.push(Instruction::Output);
    let mut e = Evaluator::new(program);
    assert_eq!(e.evaluate(10000), Status::Finished);
    assert_eq!(e.output(), &vec![1u8, 1, 1]);
}

#[test]
fn pointer_wraps_both_ways() {
    let mut e = Evaluator::new(vec![
        Instruction::MoveLeft,
        Instruction::MoveRight,
        Instruction::MoveRight,
        Instruction::MoveLeft,
    ]);
    e.step_with(0);
    assert_eq!(e.memory_pointer(), 29999);
    e.step_with(0);
    assert_eq!(e.memory_pointer(), 0);
    e.step_with(0);
    assert_eq!(e.memory_pointer(), 1);
    e.step_with(0);
    assert_eq!(e.memory_pointer(), 0);
    assert_eq!(e.status(), Status::Finished);
}

#[test]
fn loop_on_zero_runs_nothing() {
    let mut e = Evaluator::new(vec![
        Instruction::Loop(vec![Instruction::Increment, Instruction::Output, Instruction::MoveRight]),
        Instruction::Output,
    ]);
    e.step_with(0);
    assert_eq!(e.cell(), 0);
    assert_eq!(e.memory_pointer(), 0);
    assert_eq!(e.scope_count(), 1);
    assert!(e.output().is_empty());
    assert_eq!(e.evaluate(100), Status::Finished);
    assert_eq!(e.output(), &vec![0u8]);
}

#[test]
fn loop_runs_until_the_cell_is_zero() {
    // cell 0 counts down from 3, cell 1 gains 2 on each pass
    let mut e = Evaluator::new(vec![
        Instruction::Increment,
        Instruction::Increment,
        Instruction::Increment,
        Instruction::Loop(vec![
            Instruction::MoveRight,
            Instruction::Increment,
            Instruction::Increment,
            Instruction::MoveLeft,
            Instruction::Decrement,
        ]),
        Instruction::Output,
        Instruction::MoveRight,
        Instruction::Output,
    ]);
    assert_eq!(e.evaluate(1000), Status::Finished);
    assert_eq!(e.output(), &vec![0u8, 6]);
}

#[test]
fn loop_rechecks_the_cell_under_the_moved_pointer() {
    // the body moves right onto a zero cell, so the loop ends after one pass
    let mut e = Evaluator::new(vec![
        Instruction::Increment,
        Instruction::Loop(vec![Instruction::Output, Instruction::MoveRight]),
        Instruction::Output,
    ]);
    assert_eq!(e.evaluate(1000), Status::Finished);
    assert_eq!(e.output(), &vec![1u8, 0]);
    assert_eq!(e.memory_pointer(), 1);
}

#[test]
fn fuel_stops_an_endless_loop() {
    let mut e = Evaluator::new(vec![Instruction::Increment, Instruction::Loop(Vec::new())]);
    assert_eq!(e.evaluate(500), Status::Running);
    assert_eq!(e.cell(), 1);
    assert_eq!(e.evaluate(0), Status::Running);
}

#[test]
fn call_on_empty_slot_does_nothing() {
    let mut e = Evaluator::new(vec![
        Instruction::Increment,
        Instruction::CallFunction,
        Instruction::Output,
    ]);
    e.step_with(0);
    e.step_with(0);
    assert_eq!(e.scope_count(), 1);
    assert_eq!(e.scope_pointer(), 0);
    assert_eq!(e.memory_pointer(), 0);
    assert_eq!(e.cell(), 1);
    assert!(e.output().is_empty());
    assert_eq!(e.evaluate(10), Status::Finished);
    assert_eq!(e.output(), &vec![1u8]);
}

#[test]
fn definition_does_not_run_the_body() {
    let mut e = Evaluator::new(vec![Instruction::Function(vec![
        Instruction::Increment,
        Instruction::Output,
    ])]);
    assert_eq!(e.evaluate(10), Status::Finished);
    assert_eq!(e.cell(), 0);
    assert!(e.output().is_empty());
    assert_eq!(e.scope_count(), 1);
}

#[test]
fn called_function_starts_in_a_fresh_scope() {
    let mut program = repeat(inc, 9);
    program.push(Instruction::Function(vec![Instruction::Output]));
    program.push(Instruction::CallFunction);
    program.push(Instruction::Output);
    let mut e = Evaluator::new(program);
    for _ in 0..11 {
        e.step_with(0);
    }
    assert_eq!(e.scope_count(), 2);
    assert_eq!(e.scope_pointer(), 1);
    assert_eq!(e.cell(), 0);
    assert_eq!(e.cell_at(0, 0), Some(9));
    assert_eq!(e.cell_at(1, 0), Some(0));
    assert_eq!(e.evaluate(100), Status::Finished);
    assert_eq!(e.output(), &vec![0u8, 9]);
    assert_eq!(e.scope_count(), 1);
    assert_eq!(e.scope_pointer(), 0);
}

#[test]
fn two_calls_leave_the_caller_cell_alone() {
    let mut e = Evaluator::new(vec![
        Instruction::Increment,
        Instruction::Increment,
        Instruction::Function(vec![Instruction::Increment]),
        Instruction::CallFunction,
        Instruction::CallFunction,
        Instruction::Output,
    ]);
    e.step_with(0);
    e.step_with(0);
    e.step_with(0);
    for _ in 0..2 {
        // the call enters a fresh scope
        e.step_with(0);
        assert_eq!(e.scope_count(), 2);
        assert_eq!(e.scope_pointer(), 1);
        assert_eq!(e.cell_at(1, 0), Some(0));
        // the body increments the callee's cell once
        e.step_with(0);
        assert_eq!(e.cell_at(1, 0), Some(1));
        assert_eq!(e.cell_at(0, 0), Some(2));
        // the return drops the scope
        e.step_with(0);
        assert_eq!(e.scope_count(), 1);
        assert_eq!(e.scope_pointer(), 0);
        assert_eq!(e.cell(), 2);
    }
    assert_eq!(e.evaluate(10), Status::Finished);
    assert_eq!(e.output(), &vec![2u8]);
}

#[test]
fn scope_moves_are_clamped() {
    let mut e = Evaluator::new(vec![
        Instruction::MoveLeftScope,
        Instruction::MoveRightScope,
        Instruction::Output,
    ]);
    e.step_with(0);
    assert_eq!(e.scope_pointer(), 0);
    e.step_with(0);
    assert_eq!(e.scope_pointer(), 0);
    assert_eq!(e.scope_count(), 1);
    assert_eq!(e.evaluate(10), Status::Finished);
}

#[test]
fn callee_reaches_the_callers_memory() {
    // the function moves to the scope below, increments there and moves back
    let mut e = Evaluator::new(vec![
        Instruction::Function(vec![
            Instruction::MoveLeftScope,
            Instruction::Increment,
            Instruction::MoveRightScope,
        ]),
        Instruction::CallFunction,
        Instruction::Output,
    ]);
    assert_eq!(e.evaluate(100), Status::Finished);
    assert_eq!(e.output(), &vec![1u8]);
    assert_eq!(e.scope_count(), 1);
}

#[test]
fn return_from_the_bottom_scope_is_an_underflow() {
    let mut e = Evaluator::new(vec![
        Instruction::Function(vec![Instruction::MoveLeftScope]),
        Instruction::CallFunction,
        Instruction::Output,
    ]);
    assert_eq!(e.evaluate(100), Status::ScopeUnderflow);
    assert_eq!(e.scope_pointer(), 0);
    assert_eq!(e.scope_count(), 2);
    // no further step is taken
    e.step_with(0);
    assert_eq!(e.status(), Status::ScopeUnderflow);
    assert!(e.output().is_empty());
}

#[test]
fn default_is_a_no_op() {
    let mut e = Evaluator::new(vec![Instruction::Default, Instruction::Output]);
    e.step_with(0);
    assert_eq!(e.cell(), 0);
    assert_eq!(e.memory_pointer(), 0);
    assert_eq!(e.evaluate(10), Status::Finished);
    assert_eq!(e.output(), &vec![0u8]);
}

#[test]
fn input_waits_for_a_line_and_reads_it_byte_by_byte() {
    let mut e = Evaluator::new(vec![
        Instruction::Input,
        Instruction::Output,
        Instruction::Input,
        Instruction::Output,
        Instruction::Input,
        Instruction::Output,
    ]);
    assert_eq!(e.evaluate(100), Status::AwaitingInput);
    // a step does nothing while the interpreter waits
    e.step_with(0);
    assert_eq!(e.status(), Status::AwaitingInput);
    assert!(e.provide_line(&b"hi \r\n".to_vec()));
    assert_eq!(e.evaluate(100), Status::AwaitingInput);
    assert_eq!(e.output(), &b"hi".to_vec());
    assert!(e.provide_line(&b" x\n".to_vec()));
    assert_eq!(e.evaluate(100), Status::Finished);
    assert_eq!(e.output(), &b"hi ".to_vec());
}

#[test]
fn empty_line_reads_no_byte() {
    let mut e = Evaluator::new(vec![
        Instruction::Increment,
        Instruction::Input,
        Instruction::Output,
        Instruction::Input,
        Instruction::Output,
    ]);
    assert_eq!(e.evaluate(100), Status::AwaitingInput);
    assert!(e.provide_line(&b"\n".to_vec()));
    // the cell keeps its value and the next input waits again
    assert_eq!(e.evaluate(100), Status::AwaitingInput);
    assert_eq!(e.output(), &vec![1u8]);
    assert!(e.provide_line(&b"z".to_vec()));
    assert_eq!(e.evaluate(100), Status::Finished);
    assert_eq!(e.output(), &vec![1u8, b'z']);
}

#[test]
fn line_is_refused_when_none_is_awaited() {
    let mut e = Evaluator::new(vec![Instruction::Increment, Instruction::Output]);
    assert!(!e.provide_line(&b"abc".to_vec()));
    assert_eq!(e.evaluate(10), Status::Finished);
    assert_eq!(e.output(), &vec![1u8]);
}

#[test]
fn trim_end_drops_trailing_whitespace_only() {
    assert_eq!(trim_end(&b"abc \t\r\n".to_vec()), b"abc".to_vec());
    assert_eq!(trim_end(&b"  a b".to_vec()), b"  a b".to_vec());
    assert_eq!(trim_end(&b" \n".to_vec()), Vec::<u8>::new());
    assert_eq!(trim_end(&Vec::new()), Vec::<u8>::new());
    assert_eq!(trim_end(&vec![b'a', 11, 12]), vec![b'a']);
    assert_eq!(trim_end(&vec![b'a', 8]), vec![b'a', 8]);
}

#[test]
fn step_with_stores_the_given_draw() {
    let mut e = Evaluator::new(vec![Instruction::Random, Instruction::Output]);
    e.step_with(200);
    assert_eq!(e.cell(), 200);
    assert_eq!(e.evaluate(10), Status::Finished);
    assert_eq!(e.output(), &vec![200u8]);
}

#[test]
fn random_between_5_and_10() {
    for _ in 0..1000 {
        let mut e = Evaluator::new(between(5, 10));
        assert_eq!(e.evaluate(100), Status::Finished);
        assert_eq!(e.memory_pointer(), 1);
        assert_eq!(e.cell_at(0, 0), Some(5));
        assert_eq!(e.cell_at(0, 2), Some(10));
        let c = e.cell();
        assert!((5..=10).contains(&c));
    }
}

#[test]
fn random_between_10_and_5_wraps() {
    for _ in 0..1000 {
        let mut e = Evaluator::new(between(10, 5));
        assert_eq!(e.evaluate(100), Status::Finished);
        let c = e.cell();
        assert!(c >= 10 || c <= 5);
    }
}

#[test]
fn random_at_the_first_cell_reads_the_last_one() {
    // left neighbour: cell 29999, set to 7; right neighbour: cell 1, set to 9
    let mut program = vec![Instruction::MoveLeft];
    program.extend(repeat(inc, 7));
    program.push(Instruction::MoveRight);
    program.push(Instruction::MoveRight);
    program.extend(repeat(inc, 9));
    program.push(Instruction::MoveLeft);
    program.push(Instruction::Random);
    for _ in 0..200 {
        let mut e = Evaluator::new(duplicate_body(&program));
        assert_eq!(e.evaluate(100), Status::Finished);
        assert_eq!(e.memory_pointer(), 0);
        let c = e.cell();
        assert!((7..=9).contains(&c));
    }
}

#[test]
fn random_cell_stays_in_its_ranges() {
    for _ in 0..1000 {
        let a = random_cell(5, 10);
        assert!((5..=10).contains(&a));
        let b = random_cell(10, 5);
        assert!(b >= 10 || b <= 5);
        let c = random_cell(200, 200);
        assert!(c >= 200 || c <= 200);
        assert_eq!(random_cell(0, 1) / 2, 0);
    }
}

#[test]
fn random_draws_are_not_all_the_same() {
    let mut seen = [false; 256];
    for _ in 0..2000 {
        seen[random_cell(0, 255) as usize] = true;
    }
    assert!(seen.iter().filter(|s| **s).count() > 1);
}

#[test]
fn duplicate_copies_the_tree() {
    let tree = Instruction::Loop(vec![
        Instruction::Increment,
        Instruction::Function(vec![Instruction::Output]),
    ]);
    let copy = tree.duplicate();
    assert_eq!(format!("{:?}", copy), format!("{:?}", tree));
}

#[test]
fn output_text_decodes_utf8() {
    // 0xC3 0xA9 encodes one character
    let mut program = repeat(inc, 0xC3);
    program.push(Instruction::Output);
    program.extend(repeat(|| Instruction::Decrement, 0xC3 - 0xA9));
    program.push(Instruction::Output);
    let mut e = Evaluator::new(program);
    assert_eq!(e.evaluate(1000), Status::Finished);
    assert_eq!(e.output(), &vec![0xC3u8, 0xA9]);
    assert_eq!(e.output_text(), Some("\u{e9}".to_string()));
}

#[test]
fn output_text_refuses_invalid_utf8() {
    let mut program = repeat(inc, 0xC3);
    program.push(Instruction::Output);
    let mut e = Evaluator::new(program);
    assert_eq!(e.evaluate(1000), Status::Finished);
    assert_eq!(e.output_text(), None);
}

#[test]
fn output_text_of_nothing_is_empty() {
    let e = Evaluator::new(Vec::new());
    assert_eq!(e.output_text(), Some(String::new()));
}

#[test]
fn instructions_compare_by_their_trees() {
    let a = Instruction::Loop(vec![Instruction::Increment]);
    assert_eq!(a.duplicate(), a);
    assert_ne!(a, Instruction::Function(vec![Instruction::Increment]));
    assert_eq!(duplicate_body(&vec![a.duplicate(), Instruction::Random]), vec![a, Instruction::Random]);
}
