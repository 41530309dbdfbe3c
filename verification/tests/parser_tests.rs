use adan::lexer::lexer::Lexer;
use adan::lexer::token::{Keyword, Symbols, Token, Types};
use adan::parser::ast::{
    clone_expr, clone_statement, operation_text, Expr, FunctionDecl, Literal, Operation, Statement,
};
use adan::parser::parser::{message_with, Parser};

fn parse(text: &str) -> Result<Vec<Statement>, String> {
    let tokens = Lexer::new(text).tokenize().unwrap();
    Parser::new(tokens).parse()
}

fn parsed(text: &str) -> Vec<String> {
    parse(text).unwrap().iter().map(|s| format!("{:?}", s)).collect()
}

fn error(text: &str) -> String {
    parse(text).unwrap_err()
}

fn ident(name: &str) -> Token {
    Token::Ident(name.to_string())
}

#[test]
fn parses_an_include() {
    assert_eq!(parsed("include adan.std.math;"), vec!["Include(\"adan.std.math\")"]);
    assert_eq!(parsed("include io;"), vec!["Include(\"io\")"]);
    // The path is taken as it comes.
    assert_eq!(parsed("include ..a b;"), vec!["Include(\"..ab\")"]);
    assert_eq!(parsed("include ;"), vec!["Include(\"\")"]);
}

#[test]
fn parses_declarations() {
    assert_eq!(
        parsed("local x: i32 -> 5;"),
        vec!["VarDecl { name: \"x\", var_type: Some(i32), initializer: Some(Literal(Number(\"5\"))) }"]
    );
    assert_eq!(
        parsed("global total: f64;"),
        vec!["VarDecl { name: \"total\", var_type: Some(F64), initializer: None }"]
    );
    assert_eq!(
        parsed("local y: -> other;"),
        vec!["VarDecl { name: \"y\", var_type: None, initializer: Some(Variable { var_name: \"other\", var_type: None }) }"]
    );
    assert_eq!(
        parsed("local z: ;"),
        vec!["VarDecl { name: \"z\", var_type: None, initializer: None }"]
    );
}

#[test]
fn parses_a_loop() {
    assert_eq!(
        parsed("while (n) { step(); }"),
        vec!["While { condition: Variable { var_name: \"n\", var_type: None }, body: Block([Expression(FCall { callee: \"step\", args: [] })]) }"]
    );
}

#[test]
fn a_loop_needs_a_block() {
    assert_eq!(error("while (n) step();"), "Expected symbol LCurlyBracket");
    assert_eq!(error("while n { }"), "Expected symbol LParen");
    assert_eq!(error("while (n { }"), "Expected symbol RParen");
}

#[test]
fn parses_conditionals() {
    assert_eq!(
        parsed("if (1) { return 1; } else { return 0; }"),
        vec!["If { condition: Literal(Number(\"1\")), then_branch: Block([Return { value: Some(Literal(Number(\"1\"))) }]), else_branch: Some(Block([Return { value: Some(Literal(Number(\"0\"))) }])) }"]
    );
    assert_eq!(
        parsed("if (a) { }"),
        vec!["If { condition: Variable { var_name: \"a\", var_type: None }, then_branch: Block([]), else_branch: None }"]
    );
    assert_eq!(error("if (a) { } else return;"), "Expected symbol LCurlyBracket");
}

#[test]
fn parses_functions() {
    assert_eq!(
        parsed("program -> main { }"),
        vec!["Function(FunctionDecl { name: \"main\", params: [], body: [] })"]
    );
    assert_eq!(
        parsed("program -> add(a: i32, b: f64) { return a; }"),
        vec!["Function(FunctionDecl { name: \"add\", params: [\"a\", \"b\"], body: [Return { value: Some(Variable { var_name: \"a\", var_type: None }) }] })"]
    );
    // The comma between parameters may be left out, and one may follow the last.
    assert_eq!(
        parsed("program -> f(a: i8 b: u8,) { }"),
        vec!["Function(FunctionDecl { name: \"f\", params: [\"a\", \"b\"], body: [] })"]
    );
    assert_eq!(
        parsed("program -> f() { }"),
        vec!["Function(FunctionDecl { name: \"f\", params: [], body: [] })"]
    );
}

#[test]
fn function_errors() {
    assert_eq!(error("program main { }"), "Expected keyword Assign");
    assert_eq!(error("program -> { }"), "Expected identifier, got LCurlyBracket");
    assert_eq!(error("program -> f(a) { }"), "Expected symbol Colon");
    assert_eq!(error("program -> f(a: ) { }"), "Expected type after ':' in function parameter");
    assert_eq!(error("program -> f(a: b) { }"), "Expected type after ':' in function parameter");
    assert_eq!(error("program -> f(1: i8) { }"), "Expected identifier, got 1");
    assert_eq!(error("program -> f(a: i8"), "Expected identifier, got end of input");
    assert_eq!(error("program -> f;"), "Expected symbol LCurlyBracket");
    assert_eq!(error("program ->"), "Expected identifier, got end of input");
}

#[test]
fn parses_returns() {
    assert_eq!(parsed("return;"), vec!["Return { value: None }"]);
    assert_eq!(
        parsed("return 42;"),
        vec!["Return { value: Some(Literal(Number(\"42\"))) }"]
    );
    assert_eq!(error("return 42"), "Expected symbol SemiColon");
    assert_eq!(error("return"), "Unexpected EOF while parsing primary expression");
}

#[test]
fn parses_blocks() {
    assert_eq!(parsed("{ }"), vec!["Block([])"]);
    assert_eq!(
        parsed("{ a; { b; } }"),
        vec!["Block([Expression(Variable { var_name: \"a\", var_type: None }), Block([Expression(Variable { var_name: \"b\", var_type: None })])])"]
    );
}

#[test]
fn an_unterminated_block_is_an_error() {
    assert_eq!(error("{ a;"), "Unexpected EOF while parsing primary expression");
    assert_eq!(error("program -> f { return;"), "Unexpected EOF while parsing primary expression");
}

#[test]
fn parses_calls_and_dotted_names() {
    assert_eq!(
        parsed("io.out(x);"),
        vec!["Expression(FCall { callee: \"io.out\", args: [Variable { var_name: \"x\", var_type: None }] })"]
    );
    assert_eq!(
        parsed("f(1, g(2), a.b);"),
        vec!["Expression(FCall { callee: \"f\", args: [Literal(Number(\"1\")), FCall { callee: \"g\", args: [Literal(Number(\"2\"))] }, Variable { var_name: \"a.b\", var_type: None }] })"]
    );
    assert_eq!(
        parsed("a.b.c;"),
        vec!["Expression(Variable { var_name: \"a.b.c\", var_type: None })"]
    );
    assert_eq!(error("a.;"), "Expected identifier, got SemiColon");
    assert_eq!(error("a.1;"), "Expected identifier, got 1");
    assert_eq!(error("f(1 2);"), "Expected symbol Comma");
    assert_eq!(error("f(1,);"), "Unexpected token in expression: RParen");
    assert_eq!(error("f(1"), "Expected symbol Comma");
    assert_eq!(error("f("), "Unexpected EOF while parsing primary expression");
}

#[test]
fn parses_parentheses() {
    assert_eq!(
        parsed("((x));"),
        vec!["Expression(Variable { var_name: \"x\", var_type: None })"]
    );
    assert_eq!(error("(x;"), "Expected ')' to close grouping, found SemiColon");
    assert_eq!(error("(x"), "Expected ')' to close grouping, found end of input");
}

#[test]
fn string_literals_become_expressions() {
    let tokens = vec![
        ident("f"),
        Token::Symbols(Symbols::LParen),
        Token::Literal("hi there".to_string()),
        Token::Symbols(Symbols::RParen),
        Token::Symbols(Symbols::SemiColon),
    ];
    let stmts = Parser::new(tokens).parse().unwrap();
    assert_eq!(
        format!("{:?}", stmts),
        "[Expression(FCall { callee: \"f\", args: [Literal(String(\"hi there\"))] })]"
    );
}

#[test]
fn expression_errors_name_the_token() {
    assert_eq!(error(";"), "Unexpected token in expression: SemiColon");
    assert_eq!(error("else"), "Unexpected token in expression: Else");
    assert_eq!(error("i32;"), "Unexpected token in expression: i32");
    assert_eq!(error("x"), "Expected symbol SemiColon");
    assert_eq!(error("x y;"), "Expected symbol SemiColon");
    let tokens = vec![Token::CharLiteral('c')];
    assert_eq!(Parser::new(tokens).parse().unwrap_err(), "Unexpected token in expression: c");
}

#[test]
fn lexical_errors_surface_as_unexpected_tokens() {
    assert_eq!(error("1 + 2;"), "Expected symbol SemiColon");
    assert_eq!(error("+ 2;"), "Unexpected token in expression: Unexpected char: +");
    assert_eq!(error("local x: -> #;"), "Unexpected token in expression: Unexpected char: #");
}

#[test]
fn assignment_is_not_part_of_the_grammar() {
    assert_eq!(error("x -> 2;"), "Expected symbol SemiColon");
}

#[test]
fn include_errors() {
    assert_eq!(error("include a.b"), "Unexpected EOF in include");
    assert_eq!(error("include a, b;"), "Unexpected token in include: Comma");
    assert_eq!(error("include 12;"), "Unexpected token in include: 12");
    assert_eq!(error("include local;"), "Unexpected token in include: Local");
}

#[test]
fn declaration_errors() {
    assert_eq!(error("local 1: i32;"), "Expected identifier, got 1");
    assert_eq!(error("local x i32;"), "Expected symbol Colon");
    assert_eq!(error("local x: i32 5;"), "Expected symbol SemiColon");
    assert_eq!(error("local x: i32 -> ;"), "Unexpected token in expression: SemiColon");
    assert_eq!(error("local x: i32 -> 5"), "Expected symbol SemiColon");
    assert_eq!(error("local"), "Expected identifier, got end of input");
}

#[test]
fn comment_symbols_before_a_statement_are_passed_over() {
    let tokens = vec![
        Token::Symbols(Symbols::Comment),
        Token::Symbols(Symbols::Comment),
        Token::Keyword(Keyword::Return),
        Token::Symbols(Symbols::SemiColon),
    ];
    let stmts = Parser::new(tokens).parse().unwrap();
    assert_eq!(format!("{:?}", stmts), "[Return { value: None }]");
    let tokens = vec![
        Token::Keyword(Keyword::Return),
        Token::Symbols(Symbols::SemiColon),
        Token::Symbols(Symbols::Comment),
    ];
    assert_eq!(
        Parser::new(tokens).parse().unwrap_err(),
        "Unexpected EOF while parsing primary expression"
    );
}

#[test]
fn a_program_is_a_sequence_of_statements() {
    let stmts = parse("include io; program -> main { io.out(1); } main();").unwrap();
    assert_eq!(stmts.len(), 3);
    assert!(matches!(&stmts[0], Statement::Include(p) if p == "io"));
    assert!(matches!(&stmts[1], Statement::Function(f) if f.name == "main" && f.body.len() == 1));
    assert!(matches!(&stmts[2], Statement::Expression(Expr::FCall { callee, args }) if callee == "main" && args.is_empty()));
    assert_eq!(parse("").unwrap().len(), 0);
    assert_eq!(parse("  // nothing\n").unwrap().len(), 0);
}

#[test]
fn the_first_error_ends_the_parse() {
    assert_eq!(error("return; return 1 return;"), "Expected symbol SemiColon");
}

#[test]
fn the_cursor_walks_the_tokens() {
    let mut parser = Parser::new(vec![
        ident("a"),
        Token::Symbols(Symbols::Comma),
        Token::Keyword(Keyword::If),
        Token::Types(Types::u8),
    ]);
    assert!(matches!(parser.peek(), Some(Token::Ident(s)) if s == "a"));
    assert!(!parser.match_symbol(Symbols::Comma));
    assert!(!parser.match_keyword(Keyword::If));
    assert_eq!(parser.expect_ident(), Ok("a".to_string()));
    assert_eq!(parser.expect_symbol(Symbols::Colon), Err("Expected symbol Colon".to_string()));
    assert_eq!(parser.expect_symbol(Symbols::Comma), Ok(()));
    assert!(!parser.match_keyword(Keyword::Else));
    assert_eq!(parser.expect_keyword(Keyword::Else), Err("Expected keyword Else".to_string()));
    assert!(parser.match_keyword(Keyword::If));
    assert!(matches!(parser.next(), Some(Token::Types(Types::u8))));
    assert!(parser.peek().is_none());
    assert!(parser.next().is_none());
    assert!(!parser.match_symbol(Symbols::Comma));
    assert_eq!(
        parser.expect_ident(),
        Err("Expected identifier, got end of input".to_string())
    );
}

#[test]
fn expect_ident_moves_over_what_it_refuses() {
    let mut parser = Parser::new(vec![Token::Number("1".to_string()), ident("a")]);
    assert_eq!(parser.expect_ident(), Err("Expected identifier, got 1".to_string()));
    assert_eq!(parser.expect_ident(), Ok("a".to_string()));
}

#[test]
fn parse_goes_on_from_the_cursor() {
    let tokens = Lexer::new("x return;").tokenize().unwrap();
    let mut parser = Parser::new(tokens);
    let _ = parser.next();
    assert_eq!(format!("{:?}", parser.parse().unwrap()), "[Return { value: None }]");
    assert_eq!(parser.parse().unwrap().len(), 0);
}

#[test]
fn a_tree_and_its_clone_are_alike() {
    let stmts = parse(
        "include a.b; local x: i8 -> f(1, y); program -> g(a: f64) { if (a) { return a; } else { while (a) { { h(); } } } return; }",
    )
    .unwrap();
    for s in &stmts {
        assert_eq!(format!("{:?}", s.clone()), format!("{:?}", s));
        assert_eq!(format!("{:?}", clone_statement(s)), format!("{:?}", s));
    }
    let e = Expr::Binary {
        left: Box::new(Expr::Unary {
            op: Operation::Negate,
            right: Box::new(Expr::Literal(Literal::Number("1".to_string()))),
        }),
        op: Operation::Modulo,
        right: Box::new(Expr::Assign {
            name: "x".to_string(),
            value: Box::new(Expr::Literal(Literal::Bool(true))),
        }),
    };
    assert_eq!(format!("{:?}", clone_expr(&e)), format!("{:?}", e));
    assert_eq!(format!("{:?}", e.clone()), format!("{:?}", e));
    let l = Literal::String("s".to_string());
    assert_eq!(format!("{:?}", l.clone()), "String(\"s\")");
    assert_eq!(format!("{:?}", Literal::Nil.clone()), "Nil");
    let f = FunctionDecl { name: "f".to_string(), params: vec!["p".to_string()], body: vec![] };
    assert_eq!(format!("{:?}", f.clone()), format!("{:?}", f));
}

#[test]
fn operators_have_names() {
    assert_eq!(operation_text(Operation::Add), "Add");
    assert_eq!(operation_text(Operation::Subtract), "Subtract");
    assert_eq!(operation_text(Operation::Multiply), "Multiply");
    assert_eq!(operation_text(Operation::Divide), "Divide");
    assert_eq!(operation_text(Operation::Modulo), "Modulo");
    assert_eq!(operation_text(Operation::Equal), "Equal");
    assert_eq!(operation_text(Operation::Negate), "Negate");
    assert_eq!(operation_text(Operation::Not), "Not");
    assert_eq!(message_with("a: ", "b"), "a: b");
}

#[test]
fn an_error_token_anywhere_fails_the_parse() {
    let good = "include a; program -> f(x: i8) { if (x) { g(1, h(2)); } else { while (x) { return x; } } } local y: -> z;";
    assert!(parse(good).is_ok());
    let tokens = Lexer::new(good).tokenize().unwrap();
    for at in 0..=tokens.len() {
        let mut with_error: Vec<Token> = tokens.iter().map(|t| t.clone()).collect();
        with_error.insert(at, Token::Error("Unexpected char: #".to_string()));
        assert!(Parser::new(with_error).parse().is_err(), "an error token at {} was passed over", at);
    }
}
