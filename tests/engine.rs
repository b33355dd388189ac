use kfkscript::expression::{register_keyword, Builtin, EvalError, GlobalState};
use kfkscript::control_flow::{determine_tokens_to_skip, skip_tokens};
use kfkscript::interpreter::{main_loop, run, run_program, run_program_limited};
use kfkscript::parser::parse;
use kfkscript::value::Argument;

fn evaluate(source: &str) -> (GlobalState, Result<(), EvalError>) {
    let tokens = parse(source).expect("source splits into tokens");
    let mut state = GlobalState::with_builtins();
    let result = run_program(&tokens, &mut state);
    (state, result)
}

fn output(state: &GlobalState) -> Vec<String> {
    state.output.clone()
}

fn ret_number(state: &GlobalState) -> i128 {
    match &state.ret {
        Some(Argument::Number(n)) => *n,
        other => panic!("expected a number, got {:?}", other),
    }
}

#[test]
fn let_then_tel_number() {
    let (state, result) = evaluate("let $x 5 tel $x");
    assert!(result.is_ok());
    assert_eq!(ret_number(&state), 5_000_000_000);
}

#[test]
fn let_then_tel_string() {
    let (state, result) = evaluate("let $x 'hello world\" tel $x");
    assert!(result.is_ok());
    match &state.ret {
        Some(Argument::KfkString(s)) => assert_eq!(s, "hello world"),
        other => panic!("expected a string, got {:?}", other),
    }
}

#[test]
fn if_false_runs_only_else_branch() {
    let (state, result) = evaluate("if 0 println $a else println $b end");
    assert!(result.is_ok());
    assert_eq!(output(&state), vec!["b".to_string()]);
}

#[test]
fn if_true_runs_only_if_branch() {
    let (state, result) = evaluate("if 1 println $a else println $b end");
    assert!(result.is_ok());
    assert_eq!(output(&state), vec!["a".to_string()]);
}

#[test]
fn if_truthiness_of_strings_and_fractions() {
    let (state, result) = evaluate("if 0.5 println $half end if '\" println $empty else println $nonempty end");
    assert!(result.is_ok());
    assert_eq!(output(&state), vec!["half".to_string(), "nonempty".to_string()]);
}

#[test]
fn nested_if_in_skipped_branch_prints_nothing() {
    let (state, result) = evaluate("if 0 if 1 println $shouldNotPrint end end");
    assert!(result.is_ok());
    assert!(output(&state).is_empty());
    assert!(state.nesting.is_empty());
}

#[test]
fn skipped_branch_with_nested_arguments() {
    let (state, result) = evaluate("if 0 println + 1 + 2 3 let $x 1 else println $done end");
    assert!(result.is_ok());
    assert_eq!(output(&state), vec!["done".to_string()]);
    assert!(state.variables.get(&Argument::KfkString("x".to_string())).is_none());
}

#[test]
fn subroutine_runs_once() {
    let (state, result) = evaluate("subroutine $foo println $hi end run $foo");
    assert!(result.is_ok());
    assert_eq!(output(&state), vec!["hi".to_string()]);
}

#[test]
fn subroutine_runs_twice() {
    let (state, result) = evaluate("subroutine $foo println $hi end run $foo run $foo");
    assert!(result.is_ok());
    assert_eq!(output(&state), vec!["hi".to_string(), "hi".to_string()]);
}

#[test]
fn subroutine_definition_prints_nothing() {
    let (state, result) = evaluate("subroutine $foo println $hi if 1 println $nested end end");
    assert!(result.is_ok());
    assert!(output(&state).is_empty());
    assert!(state.nesting.is_empty());
}

#[test]
fn subroutine_shares_caller_bindings() {
    let (state, result) = evaluate("subroutine $inc let $n + tel $n 1 end let $n 1 run $inc run $inc println tel $n");
    assert!(result.is_ok());
    assert_eq!(output(&state), vec!["3".to_string()]);
}

#[test]
fn scope_pop_unbinds_inner_names() {
    let (_state, result) = evaluate("scope::push let $y 1 scope::pop tel $y");
    assert!(matches!(result, Err(EvalError::VariableNotFound { .. })));
}

#[test]
fn scope_pop_keeps_last_value() {
    let (state, result) = evaluate("let $y 3 scope::push let $y 7 tel $y scope::pop");
    assert!(result.is_ok());
    assert_eq!(ret_number(&state), 7_000_000_000);
    let (state, result) = evaluate("let $y 3 scope::push let $y 7 scope::pop tel $y");
    assert!(result.is_ok());
    assert_eq!(ret_number(&state), 3_000_000_000);
}

#[test]
fn scope_outer_let_and_tel() {
    let (state, result) = evaluate("let $x 1 scope::push scope::outer::let $x 2 scope::outer::tel $x");
    assert!(result.is_ok());
    assert_eq!(ret_number(&state), 2_000_000_000);
    let (_state, result) = evaluate("scope::push scope::outer::tel $missing");
    assert!(matches!(result, Err(EvalError::VariableNotFound { .. })));
}

#[test]
fn nested_addition_evaluates_inner_first() {
    let (state, result) = evaluate("+ 1 + 2 3");
    assert!(result.is_ok());
    assert_eq!(ret_number(&state), 6_000_000_000);
    let (state, result) = evaluate("println + 1 + 2 3");
    assert!(result.is_ok());
    assert_eq!(output(&state), vec!["6".to_string()]);
}

#[test]
fn subtraction_and_fractions() {
    let (state, result) = evaluate("println - 1 2.75");
    assert!(result.is_ok());
    assert_eq!(output(&state), vec!["-1.75".to_string()]);
}

#[test]
fn comparisons_and_booleans() {
    let (state, result) = evaluate(
        "println == 1 1 println == 1 2 println == $a $a println == $a 1 println < 1 2 println < $b $a println ! 0 println ! $x println true println false",
    );
    assert!(result.is_ok());
    let expected: Vec<String> = ["1", "0", "1", "0", "1", "0", "1", "0", "1", "0"].iter().map(|s| s.to_string()).collect();
    assert_eq!(output(&state), expected);
}

#[test]
fn return_sets_last_value() {
    let (state, result) = evaluate("return 42");
    assert!(result.is_ok());
    assert_eq!(ret_number(&state), 42_000_000_000);
}

#[test]
fn comments_and_lines() {
    let (state, result) = evaluate("# a comment\nprintln $one # trailing\nprintln 'two words\"\n");
    assert!(result.is_ok());
    assert_eq!(output(&state), vec!["one".to_string(), "two words".to_string()]);
}

#[test]
fn unknown_keyword_is_reported() {
    let (_state, result) = evaluate("println $a\nfoo");
    match result {
        Err(EvalError::UnknownKeyword { name, line }) => {
            assert_eq!(name, "foo");
            assert_eq!(line, 2);
        },
        other => panic!("unexpected {:?}", other),
    }
}

#[test]
fn literal_statement_is_unexpected() {
    let (_state, result) = evaluate("5");
    assert!(matches!(result, Err(EvalError::UnexpectedToken { line: 1 })));
}

#[test]
fn missing_argument_is_reported() {
    let (_state, result) = evaluate("+ 1");
    assert!(matches!(result, Err(EvalError::InsufficientArguments { .. })));
}

#[test]
fn adding_a_string_is_a_type_error() {
    let (_state, result) = evaluate("+ $a 1");
    assert!(matches!(result, Err(EvalError::TypeError { .. })));
}

#[test]
fn unbalanced_blocks_are_reported() {
    let (_state, result) = evaluate("end");
    assert!(matches!(result, Err(EvalError::UnbalancedControlFlow { .. })));
    let (_state, result) = evaluate("else");
    assert!(matches!(result, Err(EvalError::UnbalancedControlFlow { .. })));
    let (_state, result) = evaluate("if 1 println $a");
    assert!(matches!(result, Err(EvalError::UnbalancedControlFlow { .. })));
}

#[test]
fn unterminated_subroutine_is_reported() {
    let (_state, result) = evaluate("subroutine $f println $x");
    assert!(matches!(result, Err(EvalError::UnterminatedSubroutine { .. })));
}

#[test]
fn missing_subroutine_is_reported() {
    let (_state, result) = evaluate("run $nope");
    assert!(matches!(result, Err(EvalError::SubroutineNotFound { .. })));
}

#[test]
fn empty_scope_stack_pop_is_reported() {
    let (_state, result) = evaluate("scope::pop");
    assert!(matches!(result, Err(EvalError::NoScopeToPop { .. })));
}

#[test]
fn duplicate_registration_is_refused() {
    let mut state = GlobalState::with_builtins();
    let result = register_keyword(&mut state, "println", Builtin::Println, 1);
    assert!(matches!(result, Err(EvalError::DuplicateKeywordRegistration { .. })));
    let mut state = GlobalState::new();
    assert!(register_keyword(&mut state, "say", Builtin::Println, 1).is_ok());
    let tokens = parse("say $hello").unwrap();
    assert!(run_program(&tokens, &mut state).is_ok());
    assert_eq!(output(&state), vec!["hello".to_string()]);
}

#[test]
fn run_without_depth_left_stops() {
    let (mut state, result) = evaluate("subroutine $f println $x end");
    assert!(result.is_ok());
    let args = vec![Argument::KfkString("f".to_string())];
    let r = run(&mut state, &args, 0);
    assert!(matches!(r, Err(EvalError::CallDepthExceeded { .. })));
}

#[test]
fn number_out_of_range_is_reported() {
    let (_state, result) = evaluate("+ 100000000000000000000000000000 100000000000000000000000000000");
    assert!(matches!(result, Err(EvalError::NumberOutOfRange { .. })));
}

#[test]
fn nested_subroutine_definition_is_refused() {
    let (_state, result) = evaluate("subroutine subroutine $x");
    assert!(matches!(result, Err(EvalError::NestedSubroutine { .. })));
}

#[test]
fn argument_without_value_is_reported() {
    let tokens = parse("if 1 println end").unwrap();
    let mut state = GlobalState::with_builtins();
    state.ret = None;
    let result = run_program(&tokens, &mut state);
    assert!(matches!(result, Err(EvalError::MissingReturnValue { .. })));
}

#[test]
fn whitespace_of_all_kinds_separates_tokens() {
    let (state, result) = evaluate("println\t$a \r\nprintln\t$b");
    assert!(result.is_ok());
    assert_eq!(output(&state), vec!["a".to_string(), "b".to_string()]);
}

#[test]
fn main_loop_reports_a_block_left_open() {
    let tokens = parse("if 1 println $a").unwrap();
    let mut state = GlobalState::with_builtins();
    let result = main_loop(&tokens, &mut state, 10);
    assert!(matches!(result, Err(EvalError::UnbalancedControlFlow { line: 1 })));
}

#[test]
fn subroutine_body_cannot_leave_a_frame_open() {
    let (state, result) = evaluate("subroutine $g if 1 println $x end end run $g");
    assert!(result.is_ok());
    assert_eq!(output(&state), vec!["x".to_string()]);
    // the body of g opens an `if` that it never closes
    let (state, result) = evaluate("subroutine $g if 1 subroutine $h println $x end end if 1 run $g end");
    assert!(matches!(result, Err(EvalError::UnbalancedControlFlow { .. })));
    assert!(output(&state).is_empty());
}

#[test]
fn skip_tokens_leaves_end_and_else_in_place() {
    let tokens = parse("if 0 end else println $a").unwrap();
    let mut state = GlobalState::with_builtins();
    state.nesting.push(kfkscript::expression::NestingState::Else);
    assert!(!determine_tokens_to_skip(&state.nesting, &tokens[2]));
    assert_eq!(skip_tokens(&tokens, 2, &mut state).unwrap(), 2);
    assert_eq!(skip_tokens(&tokens, 3, &mut state).unwrap(), 3);
    assert_eq!(state.nesting.len(), 1);
    assert!(determine_tokens_to_skip(&state.nesting, &tokens[0]));
    assert_eq!(skip_tokens(&tokens, 0, &mut state).unwrap(), 2);
    assert_eq!(state.nesting.len(), 2);
    assert_eq!(skip_tokens(&tokens, 4, &mut state).unwrap(), 6);
    assert!(state.output.is_empty());
}

#[test]
fn call_depth_can_be_chosen() {
    let tokens = parse("subroutine $f println $x end run $f").unwrap();
    let mut state = GlobalState::with_builtins();
    assert!(matches!(run_program_limited(&tokens, &mut state, 0), Err(EvalError::CallDepthExceeded { .. })));
    let mut state = GlobalState::with_builtins();
    assert!(run_program_limited(&tokens, &mut state, 1).is_ok());
}
