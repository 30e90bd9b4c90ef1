use drop_lib::compiler::model::CompileError;
use drop_lib::compiler::Compiler;
use drop_lib::lexer::Lexer;
use drop_lib::parser::ast::{BinOp, Expr, Ident, Literal, Stmt, UnaryOp};
use drop_lib::parser::Parser;
use drop_lib::vm::opcode::{Opcode, Value};

fn parse_source(src: &str) -> Vec<Stmt> {
    let tokens = Lexer::lex_tokens(src);
    let mut parser = Parser::new(&tokens);
    let program = parser.parse();
    assert_eq!(parser.errors.len(), 0, "{:?}", parser.errors);
    program
}

fn compiled(src: &str) -> Result<Vec<Opcode>, CompileError> {
    let mut compiler = Compiler::new();
    compiler.compile(&parse_source(src))?;
    Ok(compiler.codes)
}

fn load(s: &str) -> Opcode {
    Opcode::Load(s.to_string())
}

fn num(i: i64) -> Opcode {
    Opcode::Push(Value::Int(i))
}

fn ident(s: &str) -> Expr {
    Expr::IdentExpr(Ident(s.to_string()))
}

#[test]
fn empty_program_compiles_to_nothing() {
    assert_eq!(compiled(""), Ok(vec![]));
}

#[test]
fn expression_statement_discards_its_value() {
    assert_eq!(compiled("a;"), Ok(vec![load("a"), Opcode::Pop]));
    assert_eq!(compiled("1;"), Ok(vec![num(1), Opcode::Pop]));
    assert_eq!(compiled("true;"), Ok(vec![Opcode::Push(Value::Boolean(true)), Opcode::Pop]));
    assert_eq!(compiled("\"s\";"), Ok(vec![Opcode::Push(Value::String("s".to_string())), Opcode::Pop]));
}

#[test]
fn let_declares_then_stores() {
    assert_eq!(compiled("let x;"), Ok(vec![Opcode::Register("x".to_string())]));
    assert_eq!(
        compiled("let x = 1;"),
        Ok(vec![Opcode::Register("x".to_string()), num(1), Opcode::Store("x".to_string()), Opcode::Pop])
    );
}

#[test]
fn operands_left_to_right_then_operator() {
    assert_eq!(compiled("a - b;"), Ok(vec![load("a"), load("b"), Opcode::Subtract, Opcode::Pop]));
    assert_eq!(
        compiled("1 + 2 * 3;"),
        Ok(vec![num(1), num(2), num(3), Opcode::Multiply, Opcode::Add, Opcode::Pop])
    );
    assert_eq!(
        compiled("(1 + 2) * 3;"),
        Ok(vec![num(1), num(2), Opcode::Add, num(3), Opcode::Multiply, Opcode::Pop])
    );
}

#[test]
fn every_binary_operator() {
    for (src, op) in [
        ("a + b;", Opcode::Add),
        ("a - b;", Opcode::Subtract),
        ("a * b;", Opcode::Multiply),
        ("a / b;", Opcode::Divide),
        ("a < b;", Opcode::Less),
        ("a > b;", Opcode::Greater),
        ("a <= b;", Opcode::LessEqual),
        ("a >= b;", Opcode::GreaterEqual),
        ("a == b;", Opcode::Equal),
        ("a != b;", Opcode::NotEqual),
    ] {
        assert_eq!(compiled(src), Ok(vec![load("a"), load("b"), op, Opcode::Pop]));
    }
}

#[test]
fn unary_operators() {
    assert_eq!(compiled("-a;"), Ok(vec![load("a"), Opcode::Negate, Opcode::Pop]));
    assert_eq!(compiled("!a;"), Ok(vec![load("a"), Opcode::Not, Opcode::Pop]));
    assert_eq!(compiled("+a;"), Ok(vec![load("a"), Opcode::Pop]));
    assert_eq!(compiled("- -a;"), Ok(vec![load("a"), Opcode::Negate, Opcode::Negate, Opcode::Pop]));
}

#[test]
fn assignment_stores() {
    assert_eq!(compiled("x = 1;"), Ok(vec![num(1), Opcode::Store("x".to_string()), Opcode::Pop]));
}

#[test]
fn call_pushes_arguments_then_callee() {
    assert_eq!(
        compiled("f(1, 2);"),
        Ok(vec![num(1), num(2), load("f"), Opcode::Call(2), Opcode::Pop])
    );
    assert_eq!(compiled("f();"), Ok(vec![load("f"), Opcode::Call(0), Opcode::Pop]));
    assert_eq!(
        compiled("f(1)(2);"),
        Ok(vec![num(2), num(1), load("f"), Opcode::Call(1), Opcode::Call(1), Opcode::Pop])
    );
}

#[test]
fn return_with_and_without_value() {
    assert_eq!(compiled("return;"), Ok(vec![Opcode::Return]));
    assert_eq!(compiled("return 1;"), Ok(vec![num(1), Opcode::Return]));
}

#[test]
fn block_is_wrapped_in_scope_markers() {
    assert_eq!(compiled("{ }"), Ok(vec![Opcode::BeginScope, Opcode::EndScope]));
    assert_eq!(
        compiled("{ a; }"),
        Ok(vec![Opcode::BeginScope, load("a"), Opcode::Pop, Opcode::EndScope])
    );
}

#[test]
fn if_without_else_jumps_past_the_branch() {
    assert_eq!(
        compiled("if a { b; }"),
        Ok(vec![
            load("a"),
            Opcode::JumpIfFalse(6),
            Opcode::BeginScope,
            load("b"),
            Opcode::Pop,
            Opcode::EndScope,
        ])
    );
}

#[test]
fn if_with_else_layout() {
    assert_eq!(
        compiled("if a { b; } else { c; }"),
        Ok(vec![
            load("a"),
            Opcode::JumpIfFalse(7),
            Opcode::BeginScope,
            load("b"),
            Opcode::Pop,
            Opcode::EndScope,
            Opcode::Jump(11),
            Opcode::BeginScope,
            load("c"),
            Opcode::Pop,
            Opcode::EndScope,
        ])
    );
}

#[test]
fn else_if_chain_layout() {
    assert_eq!(
        compiled("if a { } else if b { } else { }"),
        Ok(vec![
            load("a"),
            Opcode::JumpIfFalse(5),
            Opcode::BeginScope,
            Opcode::EndScope,
            Opcode::Jump(12),
            load("b"),
            Opcode::JumpIfFalse(10),
            Opcode::BeginScope,
            Opcode::EndScope,
            Opcode::Jump(12),
            Opcode::BeginScope,
            Opcode::EndScope,
        ])
    );
}

#[test]
fn while_layout() {
    assert_eq!(
        compiled("while a { b; }"),
        Ok(vec![
            load("a"),
            Opcode::JumpIfFalse(7),
            Opcode::BeginScope,
            load("b"),
            Opcode::Pop,
            Opcode::EndScope,
            Opcode::Jump(0),
        ])
    );
}

#[test]
fn jump_targets_are_absolute_within_the_sequence() {
    assert_eq!(
        compiled("x; while a { if b { c; } }"),
        Ok(vec![
            load("x"),
            Opcode::Pop,
            load("a"),
            Opcode::JumpIfFalse(13),
            Opcode::BeginScope,
            load("b"),
            Opcode::JumpIfFalse(11),
            Opcode::BeginScope,
            load("c"),
            Opcode::Pop,
            Opcode::EndScope,
            Opcode::EndScope,
            Opcode::Jump(2),
        ])
    );
}

#[test]
fn function_body_is_a_sequence_of_its_own() {
    assert_eq!(
        compiled("x; x; fn f(a, b) { while a { } return b; }"),
        Ok(vec![
            load("x"),
            Opcode::Pop,
            load("x"),
            Opcode::Pop,
            Opcode::StoreFunction(
                "f".to_string(),
                vec!["a".to_string(), "b".to_string()],
                vec![
                    load("a"),
                    Opcode::JumpIfFalse(5),
                    Opcode::BeginScope,
                    Opcode::EndScope,
                    Opcode::Jump(0),
                    load("b"),
                    Opcode::Return,
                ],
            ),
        ])
    );
}

#[test]
fn compile_appends_to_what_was_emitted() {
    let mut compiler = Compiler::new();
    assert_eq!(compiler.compile(&parse_source("a;")), Ok(()));
    assert_eq!(compiler.compile(&parse_source("while b { }")), Ok(()));
    assert_eq!(
        compiler.codes,
        vec![
            load("a"),
            Opcode::Pop,
            load("b"),
            Opcode::JumpIfFalse(7),
            Opcode::BeginScope,
            Opcode::EndScope,
            Opcode::Jump(2),
        ]
    );
}

#[test]
fn compile_does_not_change_the_tree() {
    let program = parse_source("fn f(a) { if a { return 1; } } f(2);");
    let copy = parse_source("fn f(a) { if a { return 1; } } f(2);");
    let mut compiler = Compiler::new();
    assert_eq!(compiler.compile(&program), Ok(()));
    assert_eq!(program, copy);
}

#[test]
fn parameter_that_is_no_identifier_is_refused() {
    assert_eq!(compiled("fn f(1) { }"), Err(CompileError::InvalidParameter));
    assert_eq!(compiled("fn f(a, b + c) { }"), Err(CompileError::InvalidParameter));
}

#[test]
fn callee_that_is_no_identifier_or_call_is_refused() {
    assert_eq!(compiled("1(2);"), Err(CompileError::InvalidCallee));
    assert_eq!(compiled("(a + b)(2);"), Err(CompileError::InvalidCallee));
    assert_eq!(compiled("\"f\"();"), Err(CompileError::InvalidCallee));
}

#[test]
fn error_in_a_later_construct_drops_the_earlier_code() {
    let mut compiler = Compiler::new();
    assert_eq!(compiler.compile(&parse_source("a;")), Ok(()));
    assert_eq!(
        compiler.compile(&parse_source("b; if c { d; } else { 1(2); }")),
        Err(CompileError::InvalidCallee)
    );
    assert_eq!(compiler.codes, vec![load("a"), Opcode::Pop]);
}

#[test]
fn statement_in_place_of_a_block_is_refused() {
    let truth = || Expr::LiteralExpr(Literal::BoolLiteral(true));
    let stmt = || Stmt::ExprStmt(ident("a"));
    let block = || Stmt::BlockStmt(vec![]);
    let cases = vec![
        Stmt::WhileStmt(truth(), Box::new(stmt())),
        Stmt::IfStmt(truth(), Box::new(stmt()), None),
        Stmt::IfStmt(truth(), Box::new(block()), Some(Box::new(stmt()))),
        Stmt::IfStmt(truth(), Box::new(block()), Some(Box::new(Stmt::WhileStmt(truth(), Box::new(block()))))),
        Stmt::FnStmt(Ident("f".to_string()), vec![], Box::new(stmt())),
    ];
    for case in cases {
        let mut compiler = Compiler::new();
        assert_eq!(compiler.compile(&vec![case]), Err(CompileError::ExpectedBlock));
        assert_eq!(compiler.codes, vec![]);
    }
}

#[test]
fn tree_built_by_hand() {
    let program = vec![Stmt::ExprStmt(Expr::BinExpr(
        Box::new(Expr::UnaryExpr(UnaryOp::UnaryMinus, Box::new(ident("a")))),
        BinOp::Multiply,
        Box::new(Expr::AssignmentExpr(Ident("b".to_string()), Box::new(ident("c")))),
    ))];
    let mut compiler = Compiler::new();
    assert_eq!(compiler.compile(&program), Ok(()));
    assert_eq!(
        compiler.codes,
        vec![
            load("a"),
            Opcode::Negate,
            load("c"),
            Opcode::Store("b".to_string()),
            Opcode::Multiply,
            Opcode::Pop,
        ]
    );
}
