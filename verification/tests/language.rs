use drop_lib::compiler::model::CompileError;
use drop_lib::compiler::Compiler;
use drop_lib::lexer::Lexer;
use drop_lib::parser::Parser;
use drop_lib::vm::error::RuntimeError;
use drop_lib::vm::opcode::{FunctionObject, Opcode, Value};
use drop_lib::vm::VM;

fn compile_source(src: &str) -> Vec<Opcode> {
    let tokens = Lexer::lex_tokens(src);
    let mut parser = Parser::new(&tokens);
    let program = parser.parse();
    assert_eq!(parser.errors.len(), 0, "{:?}", parser.errors);
    let mut compiler = Compiler::new();
    assert_eq!(compiler.compile(&program), Ok(()));
    compiler.codes
}

fn run_source(src: &str) -> (VM, Result<(), RuntimeError>) {
    let mut vm = VM::new(compile_source(src));
    let r = vm.run();
    (vm, r)
}

fn printed(src: &str) -> Vec<String> {
    let (vm, r) = run_source(src);
    assert_eq!(r, Ok(()));
    vm.output().clone()
}

fn name(s: &str) -> String {
    s.to_string()
}

#[test]
fn precedence_of_product_over_sum() {
    assert_eq!(printed("print(1 + 2 * 3);"), vec!["7"]);
    assert_eq!(printed("print((1 + 2) * 3);"), vec!["9"]);
    assert_eq!(printed("print(2 * 3 + 1);"), vec!["7"]);
}

#[test]
fn unary_minus_binds_tighter_than_binary_operators() {
    assert_eq!(printed("print(-1 + 2);"), vec!["1"]);
    assert_eq!(printed("print(-2 * 3);"), vec!["-6"]);
    assert_eq!(printed("print(2 - -3);"), vec!["5"]);
    assert_eq!(printed("print(-(1 + 2) * 3);"), vec!["-9"]);
    assert_eq!(printed("print(!0 + 1);"), vec!["2"]);
}

#[test]
fn operators_of_one_level_associate_to_the_left() {
    assert_eq!(printed("print(10 - 3 - 2);"), vec!["5"]);
    assert_eq!(printed("print(100 / 10 / 5);"), vec!["2"]);
    assert_eq!(printed("print(7 - 2 * 3 + 1);"), vec!["2"]);
}

#[test]
fn comparison_binds_looser_than_arithmetic() {
    assert_eq!(printed("print(1 + 2 < 2 * 2);"), vec!["true"]);
    assert_eq!(printed("print(1 + 2 == 3);"), vec!["true"]);
    assert_eq!(printed("print(1 < 2 == 2 > 1);"), vec!["true"]);
    assert_eq!(printed("print(3 != 3);"), vec!["false"]);
    assert_eq!(printed("print(3 >= 3);"), vec!["true"]);
    assert_eq!(printed("print(3 <= 2);"), vec!["false"]);
}

#[test]
fn mutation_rebinds_the_variable() {
    let (vm, r) = run_source("let x = 1; x = x + 1;");
    assert_eq!(r, Ok(()));
    assert_eq!(vm.lookup(&name("x")), Ok(Value::Int(2)));
    assert_eq!(vm.stack().len(), 0);
}

#[test]
fn assignment_is_an_expression_with_the_assigned_value() {
    assert_eq!(printed("let x = 1; print(x = 5); print(x);"), vec!["5", "5"]);
}

#[test]
fn recursion_fib_of_ten_is_89() {
    let src = "fn fib(n) { if n <= 1 { return 1; } return fib(n-1) + fib(n-2); } \
               print(fib(0)); print(fib(1)); print(fib(10));";
    assert_eq!(printed(src), vec!["1", "1", "89"]);
}

#[test]
fn missing_return_yields_the_sentinel() {
    let (vm, r) = run_source("fn g() { } let a = g();");
    assert_eq!(r, Ok(()));
    assert_eq!(vm.lookup(&name("a")), Ok(Value::Nil));
    assert_eq!(printed("fn g() { } print(g());"), vec!["None"]);
}

#[test]
fn bare_return_yields_the_sentinel() {
    let (vm, r) = run_source("fn g() { return; } let a = g();");
    assert_eq!(r, Ok(()));
    assert_eq!(vm.lookup(&name("a")), Ok(Value::Nil));
}

#[test]
fn closure_observes_later_mutation() {
    let src = "let x = 1; { fn get() { return x; } x = 5; print(get()); }";
    assert_eq!(printed(src), vec!["5"]);
}

#[test]
fn closure_mutation_is_seen_by_the_declaring_scope() {
    let src = "let n = 0; fn bump() { n = n + 1; return n; } bump(); bump(); print(n);";
    assert_eq!(printed(src), vec!["2"]);
}

#[test]
fn capture_is_lexical_not_dynamic() {
    let src = "let x = 1; fn f() { return x; } fn g() { let x = 2; return f(); } print(g());";
    assert_eq!(printed(src), vec!["1"]);
}

#[test]
fn function_returned_from_its_scope_keeps_it() {
    let src = "fn make() { let c = 10; fn get() { return c; } return get; } \
               let g = make(); print(g()); print(make()());";
    assert_eq!(printed(src), vec!["10", "10"]);
}

#[test]
fn block_bindings_do_not_leak() {
    assert_eq!(printed("let x = 1; { let x = 2; print(x); } print(x);"), vec!["2", "1"]);
    let (_, r) = run_source("{ let y = 2; } print(y);");
    assert_eq!(r, Err(RuntimeError::UndefinedVariable));
}

#[test]
fn wrong_argument_count_is_fatal() {
    let (vm, r) = run_source("fn f(a) { return a; } print(1); f(1, 2); print(2);");
    assert_eq!(r, Err(RuntimeError::ArityMismatch));
    assert_eq!(vm.output(), &vec![name("1")]);
    // the failing call has taken nothing off the stack
    assert_eq!(vm.stack().len(), 3);
    assert_eq!(vm.stack()[0], Value::Int(1));
    assert_eq!(vm.stack()[1], Value::Int(2));
}

#[test]
fn calling_a_non_function_is_fatal() {
    let (vm, r) = run_source("let x = 3; print(0); x(); print(1);");
    assert_eq!(r, Err(RuntimeError::NotCallable));
    assert_eq!(vm.output(), &vec![name("0")]);
    assert_eq!(vm.stack(), &vec![Value::Int(3)]);
}

#[test]
fn undeclared_name_is_fatal() {
    let (vm, r) = run_source("print(7); print(nowhere); print(8);");
    assert_eq!(r, Err(RuntimeError::UndefinedVariable));
    assert_eq!(vm.output(), &vec![name("7")]);
    assert_eq!(vm.stack().len(), 0);
    let (_, r) = run_source("nowhere = 1;");
    assert_eq!(r, Err(RuntimeError::UndefinedVariable));
}

#[test]
fn failed_run_can_not_be_resumed_past_the_fault() {
    let (mut vm, r) = run_source("print(7); print(nowhere);");
    assert_eq!(r, Err(RuntimeError::UndefinedVariable));
    assert_eq!(vm.step(), Err(RuntimeError::UndefinedVariable));
    assert_eq!(vm.run(), Err(RuntimeError::UndefinedVariable));
    assert_eq!(vm.output(), &vec![name("7")]);
}

#[test]
fn uninitialized_binding_is_fatal() {
    let (_, r) = run_source("let x; print(x);");
    assert_eq!(r, Err(RuntimeError::UninitializedVariable));
    assert_eq!(printed("let x; x = 4; print(x);"), vec!["4"]);
}

#[test]
fn initializer_does_not_see_an_outer_binding_of_the_same_name() {
    let (_, r) = run_source("let x = 1; { let x = x; }");
    assert_eq!(r, Err(RuntimeError::UninitializedVariable));
}

#[test]
fn if_chain_selects_exactly_one_branch() {
    let src = "fn pick(a) { \
                 if a < 10 { print(\"low\"); } \
                 else if a < 20 { print(\"mid\"); } \
                 else { print(\"high\"); } \
               } \
               pick(9); pick(10); pick(19); pick(20); pick(100);";
    assert_eq!(printed(src), vec!["low", "mid", "mid", "high", "high"]);
}

#[test]
fn if_with_empty_branches() {
    assert_eq!(printed("if 1 { } else { print(1); } print(2);"), vec!["2"]);
    assert_eq!(printed("if 0 { print(1); } else { } print(2);"), vec!["2"]);
    assert_eq!(printed("if 0 { } print(3);"), vec!["3"]);
    assert_eq!(printed("if true { } else if true { print(1); } else { print(2); } print(3);"), vec!["3"]);
}

#[test]
fn if_without_else() {
    assert_eq!(printed("if 1 < 2 { print(1); } print(2);"), vec!["1", "2"]);
    assert_eq!(printed("if 2 < 1 { print(1); } print(2);"), vec!["2"]);
}

#[test]
fn while_with_false_condition_runs_zero_times() {
    assert_eq!(printed("while false { print(1); } print(2);"), vec!["2"]);
    assert_eq!(printed("let i = 5; while i < 5 { print(i); i = i + 1; } print(i);"), vec!["5"]);
}

#[test]
fn while_counts() {
    let src = "let i = 0; let s = 0; while i < 5 { s = s + i; i = i + 1; } print(s); print(i);";
    assert_eq!(printed(src), vec!["10", "5"]);
}

#[test]
fn nested_control_flow_inside_a_function() {
    let src = "fn f(n) { let i = 0; let c = 0; \
                 while i < n { if i / 2 * 2 == i { c = c + 1; } else { } i = i + 1; } \
                 return c; } \
               print(f(7));";
    assert_eq!(printed(src), vec!["4"]);
}

#[test]
fn return_from_inside_nested_blocks() {
    let src = "fn f(n) { while true { if n > 3 { { return n; } } n = n + 1; } } \
               let x = 1; print(f(0)); print(x);";
    assert_eq!(printed(src), vec!["4", "1"]);
}

#[test]
fn booleans_widen_to_integers() {
    assert_eq!(printed("print(true + true);"), vec!["2"]);
    assert_eq!(printed("print(100 + true);"), vec!["101"]);
    assert_eq!(printed("print(true - 3);"), vec!["-2"]);
    assert_eq!(printed("print(false * 9);"), vec!["0"]);
    assert_eq!(printed("print(true < 2);"), vec!["true"]);
    assert_eq!(printed("print(100 < true);"), vec!["false"]);
    assert_eq!(printed("print(true == 1);"), vec!["true"]);
    assert_eq!(printed("print(-true);"), vec!["-1"]);
    assert_eq!(printed("print(!true); print(!0); print(!7);"), vec!["false", "true", "false"]);
}

#[test]
fn strings_concatenate() {
    assert_eq!(printed("print(\"ab\" + \"cd\");"), vec!["abcd"]);
    assert_eq!(printed("print(\"\" + \"\");"), vec![""]);
}

#[test]
fn other_operand_types_are_a_type_error() {
    for src in [
        "1 + \"a\";",
        "\"a\" + 1;",
        "\"a\" - \"b\";",
        "\"a\" * 2;",
        "\"a\" < \"b\";",
        "\"a\" == \"a\";",
        "-\"a\";",
        "!\"a\";",
        "fn f() { } f + 1;",
        "fn f() { } f() + 1;",
        "if \"a\" { }",
        "while \"a\" { }",
    ] {
        let (_, r) = run_source(src);
        assert_eq!(r, Err(RuntimeError::TypeMismatch), "{}", src);
    }
}

#[test]
fn division_truncates_toward_zero() {
    assert_eq!(printed("print(7 / 2);"), vec!["3"]);
    assert_eq!(printed("print(-7 / 2);"), vec!["-3"]);
    assert_eq!(printed("print(7 / -2);"), vec!["-3"]);
    assert_eq!(printed("print(-7 / -2);"), vec!["3"]);
    assert_eq!(printed("print(0 / 5);"), vec!["0"]);
}

#[test]
fn division_by_zero_is_fatal() {
    let (vm, r) = run_source("print(1); print(1 / 0);");
    assert_eq!(r, Err(RuntimeError::DivisionByZero));
    assert_eq!(vm.output(), &vec![name("1")]);
    assert_eq!(vm.stack(), &vec![Value::Int(1), Value::Int(0)]);
    let (_, r) = run_source("1 / false;");
    assert_eq!(r, Err(RuntimeError::DivisionByZero));
}

#[test]
fn arithmetic_wraps_round() {
    assert_eq!(printed("print(9223372036854775807 + 1);"), vec!["-9223372036854775808"]);
    assert_eq!(printed("print(-9223372036854775807 - 2);"), vec!["9223372036854775807"]);
    assert_eq!(printed("print(4611686018427387904 * 2);"), vec!["-9223372036854775808"]);
    assert_eq!(printed("print((-9223372036854775807 - 1) / -1);"), vec!["-9223372036854775808"]);
    assert_eq!(printed("print(-(-9223372036854775807 - 1));"), vec!["-9223372036854775808"]);
}

#[test]
fn print_writes_each_kind_of_value() {
    let src = "fn f() { } print(0); print(-45); print(1234567890); print(true); print(false); \
               print(\"text\"); print(f); print(f()); print(print);";
    assert_eq!(
        printed(src),
        vec!["0", "-45", "1234567890", "true", "false", "text", "FunctionObject", "None", "FunctionObject"]
    );
}

#[test]
fn value_text() {
    assert_eq!(Value::Int(i64::MIN).to_text(), "-9223372036854775808");
    assert_eq!(Value::Int(i64::MAX).to_text(), "9223372036854775807");
    assert_eq!(Value::Int(10).to_text(), "10");
    assert_eq!(Value::Int(-1).to_text(), "-1");
    assert_eq!(Value::String(name("x y")).to_text(), "x y");
    assert_eq!(Value::Boolean(true).to_text(), "true");
    assert_eq!(Value::Nil.to_text(), "None");
    assert_eq!(Value::Function(FunctionObject::new(vec![], vec![], 0)).to_text(), "FunctionObject");
}

#[test]
fn return_outside_a_function_is_fatal() {
    let (vm, r) = run_source("print(1); return 2; print(3);");
    assert_eq!(r, Err(RuntimeError::ReturnOutsideFunction));
    assert_eq!(vm.output(), &vec![name("1")]);
}

#[test]
fn arguments_bind_in_order() {
    assert_eq!(printed("fn f(a, b, c) { print(a); print(b); print(c); } f(1, 2, 3);"), vec!["1", "2", "3"]);
    assert_eq!(printed("fn sub(a, b) { return a - b; } print(sub(10, 3));"), vec!["7"]);
}

#[test]
fn repeated_parameter_takes_its_first_argument() {
    assert_eq!(printed("fn f(a, a) { return a; } print(f(1, 2));"), vec!["1"]);
}

#[test]
fn call_results_stay_in_place_under_later_calls() {
    let src = "fn one() { let t = 1; return t; } fn two() { let t = 2; t = t; return t; } \
               print(one() + two() * 10);";
    assert_eq!(printed(src), vec!["21"]);
}

#[test]
fn stack_floor_violation_is_fatal() {
    // the callee leaves two values above the floor
    let body = vec![Opcode::Push(Value::Int(1)), Opcode::Push(Value::Int(2)), Opcode::Return];
    let code = vec![
        Opcode::StoreFunction(name("f"), vec![], body),
        Opcode::Load(name("f")),
        Opcode::Call(0),
    ];
    let mut vm = VM::new(code);
    assert_eq!(vm.run(), Err(RuntimeError::StackFloorViolation));
    assert_eq!(vm.stack(), &vec![Value::Int(1), Value::Int(2)]);
    // the callee takes a value from below the floor
    let body = vec![Opcode::Pop, Opcode::Return];
    let code = vec![
        Opcode::StoreFunction(name("f"), vec![], body),
        Opcode::Push(Value::Int(9)),
        Opcode::Load(name("f")),
        Opcode::Call(0),
    ];
    let mut vm = VM::new(code);
    assert_eq!(vm.run(), Err(RuntimeError::StackFloorViolation));
}

#[test]
fn stack_underflow_is_fatal() {
    for op in [
        Opcode::Add,
        Opcode::Less,
        Opcode::Negate,
        Opcode::Not,
        Opcode::Print,
        Opcode::JumpIfFalse(0),
        Opcode::Call(0),
    ] {
        let mut vm = VM::new(vec![op]);
        assert_eq!(vm.run(), Err(RuntimeError::StackUnderflow));
    }
    let mut vm = VM::new(vec![Opcode::Push(Value::Int(1)), Opcode::Add]);
    assert_eq!(vm.run(), Err(RuntimeError::StackUnderflow));
    assert_eq!(vm.stack(), &vec![Value::Int(1)]);
    let mut vm = VM::new(vec![Opcode::Register(name("x")), Opcode::Store(name("x"))]);
    assert_eq!(vm.run(), Err(RuntimeError::StackUnderflow));
    let mut vm = VM::new(vec![Opcode::Load(name("print")), Opcode::Call(1)]);
    assert_eq!(vm.run(), Err(RuntimeError::StackUnderflow));
    assert_eq!(vm.stack().len(), 1);
}

#[test]
fn pop_on_an_empty_stack_does_nothing() {
    let mut vm = VM::new(vec![Opcode::Pop, Opcode::Push(Value::Int(1))]);
    assert_eq!(vm.run(), Ok(()));
    assert_eq!(vm.stack(), &vec![Value::Int(1)]);
}

#[test]
fn jump_beyond_the_code_is_fatal() {
    let mut vm = VM::new(vec![Opcode::Jump(5)]);
    assert_eq!(vm.run(), Err(RuntimeError::IpOutOfRange));
    let mut vm = VM::new(vec![Opcode::Jump(1)]);
    assert_eq!(vm.run(), Ok(()));
}

#[test]
fn leaving_the_root_scope_is_fatal() {
    let mut vm = VM::new(vec![Opcode::EndScope]);
    assert_eq!(vm.run(), Err(RuntimeError::EndRootScope));
    let mut vm = VM::new(vec![Opcode::BeginScope, Opcode::EndScope]);
    assert_eq!(vm.run(), Ok(()));
}

#[test]
fn function_with_unknown_scope_is_fatal() {
    let f = FunctionObject::new(vec![], vec![], 7);
    let mut vm = VM::new(vec![Opcode::Push(Value::Function(f)), Opcode::Call(0)]);
    assert_eq!(vm.run(), Err(RuntimeError::DanglingScope));
    assert_eq!(vm.stack().len(), 1);
}

#[test]
fn step_limit_cuts_a_run_off() {
    let mut vm = VM::new(compile_source("let i = 0; while true { i = i + 1; }"));
    assert_eq!(vm.run_steps(1000), Err(RuntimeError::StepLimitExceeded));
    assert!(!vm.is_halted());
    let mut vm = VM::new(compile_source("print(1);"));
    // Push, Load, Call, Load, Print, Return, Pop
    assert_eq!(vm.run_steps(6), Err(RuntimeError::StepLimitExceeded));
    assert_eq!(vm.run_steps(1), Ok(()));
    assert!(vm.is_halted());
    assert_eq!(vm.run_steps(0), Ok(()));
    assert_eq!(vm.output(), &vec![name("1")]);
}

#[test]
fn step_by_step() {
    let mut vm = VM::new(vec![Opcode::Push(Value::Int(2)), Opcode::Push(Value::Int(3)), Opcode::Multiply]);
    assert!(!vm.is_halted());
    assert_eq!(vm.step(), Ok(()));
    assert_eq!(vm.stack(), &vec![Value::Int(2)]);
    assert_eq!(vm.step(), Ok(()));
    assert_eq!(vm.step(), Ok(()));
    assert_eq!(vm.stack(), &vec![Value::Int(6)]);
    assert!(vm.is_halted());
    assert_eq!(vm.step(), Ok(()));
    assert_eq!(vm.stack(), &vec![Value::Int(6)]);
}

#[test]
fn first_operand_is_the_one_pushed_first() {
    let mut vm = VM::new(vec![Opcode::Push(Value::Int(10)), Opcode::Push(Value::Int(4)), Opcode::Subtract]);
    assert_eq!(vm.run(), Ok(()));
    assert_eq!(vm.stack(), &vec![Value::Int(6)]);
    let mut vm = VM::new(vec![
        Opcode::Push(Value::String(name("a"))),
        Opcode::Push(Value::String(name("b"))),
        Opcode::Add,
    ]);
    assert_eq!(vm.run(), Ok(()));
    assert_eq!(vm.stack(), &vec![Value::String(name("ab"))]);
}

#[test]
fn print_is_bound_in_the_root_scope() {
    let vm = VM::new(vec![]);
    let expected = FunctionObject::new(
        vec![name("value")],
        vec![Opcode::Load(name("value")), Opcode::Print, Opcode::Return],
        0,
    );
    assert_eq!(vm.lookup(&name("print")), Ok(Value::Function(expected)));
    assert!(vm.is_halted());
    assert_eq!(vm.lookup(&name("other")), Err(RuntimeError::UndefinedVariable));
}

#[test]
fn error_messages() {
    let all = [
        (RuntimeError::UndefinedVariable, "No such variable"),
        (RuntimeError::UninitializedVariable, "Can not use variable that is not given value"),
        (RuntimeError::NotCallable, "Can only call a function variable"),
        (RuntimeError::ArityMismatch, "The number of args is not true"),
        (RuntimeError::TypeMismatch, "The operands have types that the operator does not accept"),
        (RuntimeError::DivisionByZero, "Division by zero"),
        (RuntimeError::ReturnOutsideFunction, "Return should live in a function"),
        (RuntimeError::StackFloorViolation, "The stack does not match the floor of the call"),
        (RuntimeError::StackUnderflow, "Stack empty"),
        (RuntimeError::IpOutOfRange, "ip exceed the code length"),
        (RuntimeError::EndRootScope, "Cannot end the root scope"),
        (RuntimeError::DanglingScope, "The function's scope does not exist"),
        (RuntimeError::StepLimitExceeded, "The step limit was reached"),
    ];
    for (error, message) in all {
        assert_eq!(error.message(), message);
    }
}

#[test]
fn compile_error_leaves_nothing_emitted() {
    let tokens = Lexer::lex_tokens("print(1); fn f(1) { } print(2);");
    let mut parser = Parser::new(&tokens);
    let program = parser.parse();
    assert_eq!(parser.errors.len(), 0);
    let mut compiler = Compiler::new();
    assert_eq!(compiler.compile(&program), Err(CompileError::InvalidParameter));
    assert_eq!(compiler.codes, vec![]);
}
