use drop_lib::lexer::token::Token;
use drop_lib::lexer::Lexer;
use drop_lib::parser::ast::{BinOp, Expr, Ident, Literal, Stmt, UnaryOp};
use drop_lib::parser::{Parser, TokenCursor};

fn parse_ok(src: &str) -> Vec<Stmt> {
    let tokens = Lexer::lex_tokens(src);
    let mut parser = Parser::new(&tokens);
    let program = parser.parse();
    assert_eq!(parser.errors.len(), 0, "{:?}", parser.errors);
    program
}

/// The program and, for each error, its token and message.
fn parse_all(src: &str) -> (Vec<Stmt>, Vec<(Token, String)>) {
    let tokens = Lexer::lex_tokens(src);
    let mut parser = Parser::new(&tokens);
    let program = parser.parse();
    let errors = parser.errors.iter().map(|e| (e.token.clone(), e.message.clone())).collect();
    (program, errors)
}

fn id(s: &str) -> Expr {
    Expr::IdentExpr(Ident(s.to_string()))
}

fn num(i: i64) -> Expr {
    Expr::LiteralExpr(Literal::IntLiteral(i))
}

fn bin(l: Expr, op: BinOp, r: Expr) -> Expr {
    Expr::BinExpr(Box::new(l), op, Box::new(r))
}

fn call(f: Expr, args: Vec<Expr>) -> Expr {
    Expr::CallExpr(Box::new(f), args)
}

fn block(stmts: Vec<Stmt>) -> Box<Stmt> {
    Box::new(Stmt::BlockStmt(stmts))
}

#[test]
fn empty_program() {
    assert_eq!(parse_ok(""), vec![]);
    assert_eq!(parse_ok("  \n "), vec![]);
}

#[test]
fn product_binds_tighter_than_sum() {
    assert_eq!(
        parse_ok("1 + 2 * 3;"),
        vec![Stmt::ExprStmt(bin(num(1), BinOp::Plus, bin(num(2), BinOp::Multiply, num(3))))]
    );
    assert_eq!(
        parse_ok("(1 + 2) * 3;"),
        vec![Stmt::ExprStmt(bin(bin(num(1), BinOp::Plus, num(2)), BinOp::Multiply, num(3)))]
    );
}

#[test]
fn levels_of_precedence() {
    // a == b < c + d * -e
    assert_eq!(
        parse_ok("a == b < c + d * -e;"),
        vec![Stmt::ExprStmt(bin(
            id("a"),
            BinOp::Equal,
            bin(
                id("b"),
                BinOp::Less,
                bin(
                    id("c"),
                    BinOp::Plus,
                    bin(id("d"), BinOp::Multiply, Expr::UnaryExpr(UnaryOp::UnaryMinus, Box::new(id("e")))),
                ),
            ),
        ))]
    );
}

#[test]
fn left_associativity() {
    assert_eq!(
        parse_ok("a - b - c;"),
        vec![Stmt::ExprStmt(bin(bin(id("a"), BinOp::Minus, id("b")), BinOp::Minus, id("c")))]
    );
    assert_eq!(
        parse_ok("a / b * c;"),
        vec![Stmt::ExprStmt(bin(bin(id("a"), BinOp::Divide, id("b")), BinOp::Multiply, id("c")))]
    );
    assert_eq!(
        parse_ok("a != b == c;"),
        vec![Stmt::ExprStmt(bin(bin(id("a"), BinOp::NotEqual, id("b")), BinOp::Equal, id("c")))]
    );
    assert_eq!(
        parse_ok("a >= b <= c > d;"),
        vec![Stmt::ExprStmt(bin(
            bin(bin(id("a"), BinOp::GreaterEqual, id("b")), BinOp::LessEqual, id("c")),
            BinOp::Greater,
            id("d"),
        ))]
    );
}

#[test]
fn unary_prefixes() {
    assert_eq!(
        parse_ok("-a * b;"),
        vec![Stmt::ExprStmt(bin(
            Expr::UnaryExpr(UnaryOp::UnaryMinus, Box::new(id("a"))),
            BinOp::Multiply,
            id("b"),
        ))]
    );
    assert_eq!(
        parse_ok("!-+a;"),
        vec![Stmt::ExprStmt(Expr::UnaryExpr(
            UnaryOp::Not,
            Box::new(Expr::UnaryExpr(
                UnaryOp::UnaryMinus,
                Box::new(Expr::UnaryExpr(UnaryOp::UnaryPlus, Box::new(id("a")))),
            )),
        ))]
    );
    assert_eq!(
        parse_ok("-f(1);"),
        vec![Stmt::ExprStmt(Expr::UnaryExpr(UnaryOp::UnaryMinus, Box::new(call(id("f"), vec![num(1)]))))]
    );
}

#[test]
fn literals() {
    assert_eq!(
        parse_ok("1; true; false; \"s\";"),
        vec![
            Stmt::ExprStmt(num(1)),
            Stmt::ExprStmt(Expr::LiteralExpr(Literal::BoolLiteral(true))),
            Stmt::ExprStmt(Expr::LiteralExpr(Literal::BoolLiteral(false))),
            Stmt::ExprStmt(Expr::LiteralExpr(Literal::StringLiteral("s".to_string()))),
        ]
    );
}

#[test]
fn calls() {
    assert_eq!(parse_ok("f();"), vec![Stmt::ExprStmt(call(id("f"), vec![]))]);
    assert_eq!(
        parse_ok("f(a, 1 + 2, g(b));"),
        vec![Stmt::ExprStmt(call(
            id("f"),
            vec![id("a"), bin(num(1), BinOp::Plus, num(2)), call(id("g"), vec![id("b")])],
        ))]
    );
    assert_eq!(
        parse_ok("f(1)(2)();"),
        vec![Stmt::ExprStmt(call(call(call(id("f"), vec![num(1)]), vec![num(2)]), vec![]))]
    );
}

#[test]
fn assignment() {
    assert_eq!(
        parse_ok("x = y + 1;"),
        vec![Stmt::ExprStmt(Expr::AssignmentExpr(
            Ident("x".to_string()),
            Box::new(bin(id("y"), BinOp::Plus, num(1))),
        ))]
    );
}

#[test]
fn let_forms() {
    assert_eq!(parse_ok("let x;"), vec![Stmt::LetStmt(Ident("x".to_string()), None)]);
    assert_eq!(parse_ok("let x = 1;"), vec![Stmt::LetStmt(Ident("x".to_string()), Some(num(1)))]);
}

#[test]
fn return_forms() {
    assert_eq!(parse_ok("return;"), vec![Stmt::ReturnStmt(None)]);
    assert_eq!(parse_ok("return a;"), vec![Stmt::ReturnStmt(Some(id("a")))]);
}

#[test]
fn blocks() {
    assert_eq!(parse_ok("{ }"), vec![Stmt::BlockStmt(vec![])]);
    assert_eq!(
        parse_ok("{ a; { b; } }"),
        vec![Stmt::BlockStmt(vec![
            Stmt::ExprStmt(id("a")),
            Stmt::BlockStmt(vec![Stmt::ExprStmt(id("b"))]),
        ])]
    );
}

#[test]
fn if_forms() {
    assert_eq!(parse_ok("if a { b; }"), vec![Stmt::IfStmt(id("a"), block(vec![Stmt::ExprStmt(id("b"))]), None)]);
    assert_eq!(
        parse_ok("if a { } else { c; } d;"),
        vec![
            Stmt::IfStmt(id("a"), block(vec![]), Some(block(vec![Stmt::ExprStmt(id("c"))]))),
            Stmt::ExprStmt(id("d")),
        ]
    );
    assert_eq!(
        parse_ok("if a { } else if b { } else { }"),
        vec![Stmt::IfStmt(
            id("a"),
            block(vec![]),
            Some(Box::new(Stmt::IfStmt(id("b"), block(vec![]), Some(block(vec![]))))),
        )]
    );
}

#[test]
fn while_form() {
    assert_eq!(
        parse_ok("while a < 3 { a = a + 1; }"),
        vec![Stmt::WhileStmt(
            bin(id("a"), BinOp::Less, num(3)),
            block(vec![Stmt::ExprStmt(Expr::AssignmentExpr(
                Ident("a".to_string()),
                Box::new(bin(id("a"), BinOp::Plus, num(1))),
            ))]),
        )]
    );
}

#[test]
fn function_declarations() {
    assert_eq!(parse_ok("fn f() { }"), vec![Stmt::FnStmt(Ident("f".to_string()), vec![], block(vec![]))]);
    assert_eq!(
        parse_ok("fn f(a, b) { return a; }"),
        vec![Stmt::FnStmt(
            Ident("f".to_string()),
            vec![id("a"), id("b")],
            block(vec![Stmt::ReturnStmt(Some(id("a")))]),
        )]
    );
    // the parser takes any expression for a parameter
    assert_eq!(parse_ok("fn f(1) { }"), vec![Stmt::FnStmt(Ident("f".to_string()), vec![num(1)], block(vec![]))]);
}

#[test]
fn program_ends_at_the_first_eof() {
    let tokens = vec![
        Token::Ident("a".to_string()),
        Token::SemiColon,
        Token::EOF,
        Token::Ident("b".to_string()),
        Token::SemiColon,
    ];
    let mut parser = Parser::new(&tokens);
    assert_eq!(parser.parse(), vec![Stmt::ExprStmt(id("a"))]);
    assert_eq!(parser.errors.len(), 0);
    // a second call goes no further
    assert_eq!(parser.parse(), vec![]);
}

#[test]
fn tokens_without_eof() {
    let tokens = vec![Token::Ident("a".to_string()), Token::SemiColon];
    let mut parser = Parser::new(&tokens);
    assert_eq!(parser.parse(), vec![Stmt::ExprStmt(id("a"))]);
    assert_eq!(parser.errors.len(), 0);
    let tokens = vec![];
    let mut parser = Parser::new(&tokens);
    assert_eq!(parser.parse(), vec![]);
}

#[test]
fn missing_semicolon() {
    let (program, errors) = parse_all("a b;");
    assert_eq!(errors, vec![(Token::Ident("a".to_string()), "Expected ';' after expression".to_string())]);
    assert_eq!(program, vec![]);
    let (_, errors) = parse_all("let x = 1");
    assert_eq!(errors, vec![(Token::IntLiteral(1), "Expected ';' after statement".to_string())]);
    let (_, errors) = parse_all("let x 1;");
    assert_eq!(errors, vec![(Token::Ident("x".to_string()), "Expected ';' after statement".to_string())]);
    let (_, errors) = parse_all("return 1 2;");
    assert_eq!(errors, vec![(Token::IntLiteral(1), "Expected ';' after statement".to_string())]);
}

#[test]
fn let_without_a_name() {
    let (program, errors) = parse_all("let = 1; a;");
    assert_eq!(errors, vec![(Token::Let, "Expect identifier after 'let'".to_string())]);
    assert_eq!(program, vec![Stmt::ExprStmt(id("a"))]);
}

#[test]
fn unexpected_token() {
    let (program, errors) = parse_all("); a;");
    assert_eq!(errors, vec![(Token::RParen, "Unexpected Token".to_string())]);
    assert_eq!(program, vec![Stmt::ExprStmt(id("a"))]);
    let (_, errors) = parse_all("1 + ;");
    assert_eq!(errors, vec![(Token::SemiColon, "Unexpected Token".to_string())]);
    let (_, errors) = parse_all("@");
    assert_eq!(errors, vec![(Token::Illegal, "Unexpected Token".to_string())]);
}

#[test]
fn unclosed_parenthesis() {
    let (_, errors) = parse_all("(1 + 2;");
    assert_eq!(errors, vec![(Token::IntLiteral(2), "Expected ')' after expression".to_string())]);
    let (_, errors) = parse_all("f(1, 2;");
    assert_eq!(errors, vec![(Token::IntLiteral(2), "Expected ')' after arguments".to_string())]);
}

#[test]
fn illegal_assignment() {
    let (program, errors) = parse_all("1 = 2; a;");
    assert_eq!(errors, vec![(Token::IntLiteral(2), "Illegal assignment".to_string())]);
    assert_eq!(program, vec![Stmt::ExprStmt(id("a"))]);
    let (_, errors) = parse_all("f() = 2;");
    assert_eq!(errors, vec![(Token::IntLiteral(2), "Illegal assignment".to_string())]);
}

#[test]
fn unclosed_block() {
    let (program, errors) = parse_all("{ a;");
    assert_eq!(errors, vec![(Token::SemiColon, "Expect '}' after block".to_string())]);
    assert_eq!(program, vec![]);
}

#[test]
fn condition_without_block() {
    let (_, errors) = parse_all("if a b;");
    assert_eq!(errors, vec![(Token::Ident("a".to_string()), "Expect '{' after if condition".to_string())]);
    let (_, errors) = parse_all("while a b;");
    assert_eq!(errors, vec![(Token::Ident("a".to_string()), "Expect '{' after while condition".to_string())]);
    let (_, errors) = parse_all("if a { } else b;");
    assert_eq!(errors, vec![(Token::Else, "Expect '{' or 'if' after else".to_string())]);
}

#[test]
fn malformed_function_declarations() {
    let (_, errors) = parse_all("fn (a) { }");
    assert_eq!(errors[0], (Token::Function, "Expected identifier after function definition".to_string()));
    let (_, errors) = parse_all("fn f { }");
    assert_eq!(errors[0], (Token::Ident("f".to_string()), "Expected '(' after identifier".to_string()));
    let (_, errors) = parse_all("fn f(a { }");
    assert_eq!(errors[0], (Token::Ident("a".to_string()), "Expected ')' after parameters".to_string()));
}

#[test]
fn function_without_opening_brace_takes_the_next_token_for_it() {
    let (program, errors) = parse_all("fn f() x a; }");
    assert_eq!(errors, vec![(Token::RParen, "Expected '{' after parameters".to_string())]);
    assert_eq!(
        program,
        vec![Stmt::FnStmt(Ident("f".to_string()), vec![], block(vec![Stmt::ExprStmt(id("a"))]))]
    );
}

#[test]
fn failed_statement_inside_a_block_is_left_out() {
    let (program, errors) = parse_all("{ a b; c; }");
    assert_eq!(errors.len(), 1);
    // reading goes on at `b`
    assert_eq!(
        program,
        vec![Stmt::BlockStmt(vec![Stmt::ExprStmt(id("b")), Stmt::ExprStmt(id("c"))])]
    );
}

#[test]
fn recovery_stops_before_a_statement_keyword() {
    let (program, errors) = parse_all("a b c let x; 1 2 return; 3 4 if a { } 5 6 fn f() { }");
    assert_eq!(errors.len(), 4);
    assert_eq!(
        program,
        vec![
            Stmt::LetStmt(Ident("x".to_string()), None),
            Stmt::ReturnStmt(None),
            Stmt::IfStmt(id("a"), block(vec![]), None),
            Stmt::FnStmt(Ident("f".to_string()), vec![], block(vec![])),
        ]
    );
}

#[test]
fn at_most_255_arguments() {
    let many = |n: usize| {
        let args: Vec<String> = (0..n).map(|i| i.to_string()).collect();
        format!("f({});", args.join(", "))
    };
    let program = parse_ok(&many(255));
    match &program[0] {
        Stmt::ExprStmt(Expr::CallExpr(_, args)) => assert_eq!(args.len(), 255),
        other => panic!("{:?}", other),
    }
    let (program, errors) = parse_all(&many(256));
    assert_eq!(errors, vec![(Token::IntLiteral(255), "Cannot have more than 255 arguments".to_string())]);
    assert_eq!(program, vec![]);
}

#[test]
fn at_most_255_parameters() {
    let many = |n: usize| {
        let names: Vec<String> = (0..n).map(|i| format!("p{}", i)).collect();
        format!("fn f({}) {{ }}", names.join(", "))
    };
    assert_eq!(parse_ok(&many(255)).len(), 1);
    let (_, errors) = parse_all(&many(256));
    assert_eq!(errors[0], (Token::Ident("p255".to_string()), "Cannot have more than 255 parameters".to_string()));
}

#[test]
fn token_cursor_walks_the_tokens() {
    let tokens = vec![Token::Let, Token::Ident("x".to_string())];
    let mut cursor = TokenCursor::new(&tokens);
    assert_eq!(cursor.peek_first(), Some(&Token::Let));
    assert_eq!(cursor.next(), Some(&Token::Let));
    assert_eq!(cursor.peek_first(), Some(&Token::Ident("x".to_string())));
    assert_eq!(cursor.next(), Some(&Token::Ident("x".to_string())));
    assert_eq!(cursor.peek_first(), None);
    assert_eq!(cursor.next(), None);
    assert_eq!(cursor.next(), None);
}
