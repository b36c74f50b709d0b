use brainfuck::interpreter::{BrainfuckInterpreter, Fault, Outcome};
use brainfuck::token::BrainfuckToken;

/// Runs a program to its end, feeding `inputs` to input instructions, and
/// returns what it printed and how it stopped.
fn run_program(
    interpreter: &mut BrainfuckInterpreter,
    tokens: &[BrainfuckToken],
    inputs: &[i32],
) -> (String, Outcome) {
    let mut printed = String::new();
    let mut next_input = 0;
    loop {
        match interpreter.execute(tokens) {
            Outcome::Output(c) => printed.push(c),
            Outcome::NeedsInput => {
                interpreter.store_input(inputs[next_input]);
                next_input += 1;
            }
            Outcome::Paused => {}
            stop => return (printed, stop),
        }
    }
}

#[test]
fn test_simple_program() {
    /* `++++` sets memory[0] to 4, and `[>+<-]` then moves it to memory[1]. */
    const TEST_PROGRAM: &str = "++++[>+<-]";
    let tokens = BrainfuckToken::generate_tokens(TEST_PROGRAM);
    let mut interpreter = BrainfuckInterpreter::default();

    interpreter.execute(&tokens);

    assert_eq!(interpreter.memory_index, 0);
    assert_eq!(interpreter.memory[0], 0);
    assert_eq!(interpreter.memory[1], 4);
    assert_eq!(interpreter.token_index, 10);
}

#[test]
fn test_hello_world() {
    let hello_world_program = "++++++++[>++++[>++>+++>+++>+<<<<-]>+>+>->>+[<]<-]>>.>---.\
                               +++++++..+++.>>.<-.<.+++.------.--------.>>+.>++.";

    let tokens = BrainfuckToken::generate_tokens(hello_world_program);
    let mut interpreter = BrainfuckInterpreter::default();

    let (printed, stop) = run_program(&mut interpreter, &tokens, &[]);

    assert_eq!(stop, Outcome::Finished);
    assert_eq!(printed, "Hello World!\n");
}

#[test]
fn simple_program_finishes_in_one_call() {
    let tokens = BrainfuckToken::generate_tokens("++++[>+<-]");
    let mut interpreter = BrainfuckInterpreter::default();
    assert_eq!(interpreter.execute(&tokens), Outcome::Finished);
    assert_eq!(interpreter.memory, vec![0, 4]);
}

#[test]
fn empty_loop_is_skipped() {
    let tokens = BrainfuckToken::generate_tokens("[]");
    let mut interpreter = BrainfuckInterpreter::default();
    assert_eq!(interpreter.execute(&tokens), Outcome::Finished);
    assert_eq!(interpreter.token_index, 2);
    assert_eq!(interpreter.memory_index, 0);
    assert!(interpreter.memory.is_empty());
}

#[test]
fn loop_body_is_skipped_on_zero_cell() {
    let tokens = BrainfuckToken::generate_tokens("[+++.]-");
    let mut interpreter = BrainfuckInterpreter::default();
    let (printed, stop) = run_program(&mut interpreter, &tokens, &[]);
    assert_eq!(stop, Outcome::Finished);
    assert_eq!(printed, "");
    assert_eq!(interpreter.memory, vec![-1]);
}

#[test]
fn output_emits_one_control_character() {
    let tokens = BrainfuckToken::generate_tokens("+++.");
    let mut interpreter = BrainfuckInterpreter::default();
    assert_eq!(interpreter.execute(&tokens), Outcome::Output('\u{3}'));
    assert_eq!(interpreter.execute(&tokens), Outcome::Finished);
    assert_eq!(interpreter.memory_index, 0);
    assert_eq!(interpreter.memory[0], 3);
    assert_eq!(interpreter.token_index, 4);
}

#[test]
fn pointer_underflow_is_fatal() {
    let tokens = BrainfuckToken::generate_tokens("<");
    let mut interpreter = BrainfuckInterpreter::default();
    assert_eq!(
        interpreter.execute(&tokens),
        Outcome::Fault(Fault::PointerUnderflow)
    );
    assert_eq!(interpreter.token_index, 0);
    assert_eq!(interpreter.memory_index, 0);
    // The run does not go on past the fault.
    assert_eq!(
        interpreter.execute(&tokens),
        Outcome::Fault(Fault::PointerUnderflow)
    );
}

#[test]
fn comments_only_change_nothing() {
    let tokens = BrainfuckToken::generate_tokens("just some words\n");
    let mut interpreter = BrainfuckInterpreter::default();
    assert_eq!(interpreter.execute(&tokens), Outcome::Finished);
    assert_eq!(interpreter.token_index, tokens.len());
    assert_eq!(interpreter.memory_index, 0);
    assert!(interpreter.memory.is_empty());
}

#[test]
fn input_values_are_stored() {
    // Reads two numbers and prints the character of their sum.
    let tokens = BrainfuckToken::generate_tokens(",>,[<+>-]<.");
    let mut interpreter = BrainfuckInterpreter::default();
    let (printed, stop) = run_program(&mut interpreter, &tokens, &[60, 5]);
    assert_eq!(stop, Outcome::Finished);
    assert_eq!(printed, "A");
    assert_eq!(interpreter.memory, vec![65, 0]);
}

#[test]
fn unmatched_loop_start_runs_body_once() {
    let tokens = BrainfuckToken::generate_tokens("[+");
    let mut interpreter = BrainfuckInterpreter::default();
    assert_eq!(interpreter.execute(&tokens), Outcome::Finished);
    assert_eq!(interpreter.memory, vec![1]);
}

#[test]
fn unmatched_loop_end_falls_through() {
    let tokens = BrainfuckToken::generate_tokens("+]+");
    let mut interpreter = BrainfuckInterpreter::default();
    assert_eq!(interpreter.execute(&tokens), Outcome::Finished);
    assert_eq!(interpreter.memory, vec![2]);
    assert_eq!(interpreter.token_index, 3);
}
