use tape_machine::interpret;
use tape_machine::Action;
use tape_machine::Interpreter;
use tape_machine::Error;
use tape_machine::Memory;

fn run(program: &str, input: &[u8]) -> (Vec<u8>, Result<bool, Error>) {
    let mut output = Vec::new();
    let result = interpret(program.as_bytes().to_vec(), &input.to_vec(), &mut output, 1_000_000);
    (output, result)
}

#[test]
fn comments_only_run_to_the_end_without_output() {
    let (output, result) = run("hello world\n\t# nothing to do here 0123456789", &[1, 2, 3]);
    assert!(matches!(result, Ok(true)));
    assert!(output.is_empty());
}

#[test]
fn comments_only_need_one_step_per_symbol() {
    let program = "abc def";
    let mut output = Vec::new();
    let exact = interpret(program.as_bytes().to_vec(), &Vec::new(), &mut output, 7);
    assert!(matches!(exact, Ok(true)));
    let short = interpret(program.as_bytes().to_vec(), &Vec::new(), &mut output, 6);
    assert!(matches!(short, Ok(false)));
    assert!(output.is_empty());
}

#[test]
fn comments_only_leave_the_tape_alone() {
    let mut m = Interpreter::new(b"no commands at all".to_vec(), Memory::unbounded());
    let mut output = Vec::new();
    let (consumed, reply) = m.run(&vec![5], &mut output, 100);
    assert_eq!(reply.unwrap(), Action::Done);
    assert_eq!(consumed, 0);
    assert!(output.is_empty());
    assert_eq!(m.memory().cells(), Vec::<u8>::new());
    assert_eq!(m.memory().distance(), 0);
    assert_eq!(m.open_loops(), 0);
}

#[test]
fn empty_program_succeeds() {
    let (output, result) = run("", &[]);
    assert!(matches!(result, Ok(true)));
    assert!(output.is_empty());
}

#[test]
fn three_pluses_print_three() {
    let (output, result) = run("+++.", &[]);
    assert!(matches!(result, Ok(true)));
    assert_eq!(output, vec![3u8]);
}

#[test]
fn plus_256_times_prints_zero() {
    let program = format!("{}.", "+".repeat(256));
    let (output, result) = run(&program, &[]);
    assert!(matches!(result, Ok(true)));
    assert_eq!(output, vec![0u8]);
}

#[test]
fn plus_255_times_prints_255() {
    let program = format!("{}.", "+".repeat(255));
    let (output, _) = run(&program, &[]);
    assert_eq!(output, vec![255u8]);
}

#[test]
fn minus_on_zero_prints_255() {
    let (output, result) = run("-.", &[]);
    assert!(matches!(result, Ok(true)));
    assert_eq!(output, vec![255u8]);
}

#[test]
fn loop_on_zero_cell_is_skipped() {
    let mut m = Interpreter::new(b"[+]".to_vec(), Memory::default());
    let before = m.memory().cells();
    let mut output = Vec::new();
    let (_, reply) = m.run(&Vec::new(), &mut output, 1);
    assert_eq!(reply.unwrap(), Action::Done);
    assert_eq!(m.position(), 3);
    assert_eq!(m.memory().peek(), 0);
    assert_eq!(m.memory().cells(), before);
    assert_eq!(m.open_loops(), 0);
    assert!(output.is_empty());
}

#[test]
fn skipped_loop_prints_zero_afterwards() {
    let (output, result) = run("[+].", &[]);
    assert!(matches!(result, Ok(true)));
    assert_eq!(output, vec![0u8]);
}

#[test]
fn countdown_loop_prints_zero() {
    let (output, result) = run("+++[-].", &[]);
    assert!(matches!(result, Ok(true)));
    assert_eq!(output, vec![0u8]);
}

#[test]
fn countdown_loop_runs_once_per_count() {
    let (output, result) = run("+++[.-]", &[]);
    assert!(matches!(result, Ok(true)));
    assert_eq!(output, vec![3u8, 2, 1]);
}

#[test]
fn input_byte_is_copied_to_output() {
    let (output, result) = run(",.", &[65]);
    assert!(matches!(result, Ok(true)));
    assert_eq!(output, vec![65u8]);
}

#[test]
fn input_bytes_beyond_need_are_left_unread() {
    let (output, result) = run(",.", &[65, 66, 67]);
    assert!(matches!(result, Ok(true)));
    assert_eq!(output, vec![65u8]);
}

#[test]
fn read_at_end_of_input_is_an_io_error() {
    let (output, result) = run("+.,.", &[]);
    match result {
        Err(Error::Io(e)) => assert_eq!(e.kind(), std::io::ErrorKind::UnexpectedEof),
        other => panic!("expected an I/O error, got {:?}", other),
    }
    assert_eq!(output, vec![1u8]);
}

#[test]
fn second_read_at_end_of_input_is_an_io_error() {
    let (output, result) = run(",.,.", &[4]);
    assert!(matches!(result, Err(Error::Io(_))));
    assert_eq!(output, vec![4u8]);
}

#[test]
fn lone_close_on_nonzero_cell_fails_with_its_offset() {
    let (output, result) = run("+]", &[]);
    match result {
        Err(e) => {
            assert!(matches!(e, Error::Syntax(_)));
            assert_eq!(e.message(), "Found a ] with no correspoding [ at byte: 1");
        }
        Ok(_) => panic!("expected a syntax error"),
    }
    assert!(output.is_empty());
}

#[test]
fn lone_close_on_a_nonzero_first_cell_fails_with_offset_zero() {
    let mut m = Interpreter::new(b"]".to_vec(), {
        let mut memory = Memory::default();
        memory.store(1);
        memory
    });
    let mut output = Vec::new();
    let (_, reply) = m.run(&Vec::new(), &mut output, 10);
    assert!(matches!(reply, Err(Error::Syntax(ref text))
        if text == "Found a ] with no correspoding [ at byte: 0"));
    assert!(output.is_empty());
}

#[test]
fn lone_close_on_zero_cell_falls_through() {
    let (output, result) = run("]", &[]);
    assert!(matches!(result, Ok(true)));
    assert!(output.is_empty());
}

#[test]
fn output_before_a_syntax_error_stays_written() {
    let (output, result) = run("+.+.]", &[]);
    assert!(matches!(result, Err(Error::Syntax(_))));
    assert_eq!(output, vec![1u8, 2]);
}

#[test]
fn lone_open_runs_to_the_end() {
    let (output, result) = run("[", &[]);
    assert!(matches!(result, Ok(true)));
    assert!(output.is_empty());
}

#[test]
fn unclosed_open_on_nonzero_cell_runs_to_the_end() {
    let (output, result) = run("+[.", &[]);
    assert!(matches!(result, Ok(true)));
    assert_eq!(output, vec![1u8]);
}

#[test]
fn unclosed_open_on_zero_cell_skips_the_rest() {
    let (output, result) = run("[+.+.", &[]);
    assert!(matches!(result, Ok(true)));
    assert!(output.is_empty());
}

#[test]
fn loop_adds_two_per_round() {
    let (output, result) = run("+++[>++<-]>.", &[]);
    assert!(matches!(result, Ok(true)));
    assert_eq!(output, vec![6u8]);
}

#[test]
fn loops_one_after_another_each_count_down() {
    let (output, result) = run("+++[-]++[>+<-]>.<.", &[]);
    assert!(matches!(result, Ok(true)));
    assert_eq!(output, vec![2u8, 0]);
}

#[test]
fn inner_loop_that_is_skipped_leaves_the_outer_loop_intact() {
    let (output, result) = run("++[>[+]<-.]", &[]);
    assert!(matches!(result, Ok(true)));
    assert_eq!(output, vec![1u8, 0]);
}

#[test]
fn endless_loop_uses_up_the_budget() {
    let mut output = Vec::new();
    let result = interpret(b"+[]".to_vec(), &Vec::new(), &mut output, 10_000);
    assert!(matches!(result, Ok(false)));
    assert!(output.is_empty());
}

#[test]
fn stale_open_is_returned_to_by_a_later_close() {
    let mut output = Vec::new();
    let result = interpret(b"+[-]+.]".to_vec(), &Vec::new(), &mut output, 40);
    assert!(matches!(result, Ok(false)));
    assert_eq!(output[0], 1);
    assert!(output.len() > 1);
}

#[test]
fn default_tape_wraps_backward() {
    let (output, result) = run("<+>.<.", &[]);
    assert!(matches!(result, Ok(true)));
    assert_eq!(output, vec![0u8, 1]);
}

#[test]
fn letters_are_built_from_a_loop_each() {
    let program = "++++++++[>+++++++++<-]>.[-]<++++++++++[>++++++++++<-]>+.";
    let (output, result) = run(program, &[]);
    assert!(matches!(result, Ok(true)));
    assert_eq!(output, b"He".to_vec());
}

#[test]
fn reversing_input_with_a_zero_end_mark() {
    let (output, result) = run(">,[>,]<[.<]", &[1, 2, 3, 0]);
    assert!(matches!(result, Ok(true)));
    assert_eq!(output, vec![3u8, 2, 1]);
}
