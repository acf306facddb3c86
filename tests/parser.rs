use script_parser::code_types::{Expression, Program, Statement, StatementType, VariableType};
use script_parser::grammar::ParseError;
use script_parser::parse::{parse, Parser};
use script_parser::token::{Token, TokenType};

fn tk(t: TokenType) -> Token {
    Token { token_type: t, line: 0 }
}

fn id(s: &str) -> TokenType {
    TokenType::IDENTIFIER(s.to_string())
}

fn lit(x: i32) -> TokenType {
    TokenType::INTEGER(x)
}

fn toks(v: Vec<TokenType>) -> Vec<Token> {
    v.into_iter().map(tk).collect()
}

fn b(e: Expression) -> Box<Expression> {
    Box::new(e)
}

fn ident(s: &str) -> Expression {
    Expression::IDENTIFIER(s.to_string())
}

fn num(x: i32) -> Expression {
    Expression::INTEGER(x)
}

/// Parses `a = <tokens>` followed by a line break and the end marker, and
/// returns the assigned expression.
fn assigned(rhs: Vec<TokenType>) -> Expression {
    let mut v = vec![id("a"), TokenType::ASSIGNMENT];
    v.extend(rhs);
    v.push(TokenType::NEWLINE);
    v.push(TokenType::NONE);
    let mut prog = parse(toks(v)).unwrap();
    assert_eq!(prog.body.len(), 1);
    let st = prog.body.remove(0);
    assert_eq!(st.statement_type, StatementType::ASSIGN);
    assert_eq!(st.var_name, Some("a".to_string()));
    *st.expr.unwrap()
}

fn assign(name: &str, x: i32) -> Statement {
    Statement {
        statement_type: StatementType::ASSIGN,
        var_name: Some(name.to_string()),
        code_block: None,
        expr: Some(b(num(x))),
        alt_code_blocks: vec![],
        alt_exps: vec![],
    }
}

fn program(v: Vec<TokenType>) -> Program {
    parse(toks(v)).unwrap()
}

fn error(v: Vec<TokenType>) -> ParseError {
    parse(toks(v)).unwrap_err()
}

#[test]
fn multiplicative_binds_tighter_than_additive() {
    let e = assigned(vec![lit(1), TokenType::ADDOP, lit(2), TokenType::MULOP, lit(3)]);
    assert_eq!(e, Expression::ADD(b(num(1)), b(Expression::MUL(b(num(2)), b(num(3))))));
}

#[test]
fn comparison_binds_tighter_than_and() {
    let e = assigned(vec![
        id("a"),
        TokenType::GTHANOP,
        id("b"),
        TokenType::AND,
        id("c"),
        TokenType::LTHANOP,
        id("d"),
    ]);
    assert_eq!(
        e,
        Expression::AND(
            b(Expression::GTH(b(ident("a")), b(ident("b")))),
            b(Expression::LTH(b(ident("c")), b(ident("d")))),
        )
    );
}

#[test]
fn unary_minus_wraps_exponent() {
    let e = assigned(vec![TokenType::SUBOP, lit(2), TokenType::EXPONENT, lit(2)]);
    assert_eq!(e, Expression::UMIN(b(Expression::EXPONENT(b(num(2)), b(num(2))))));
    assert_ne!(e, Expression::EXPONENT(b(Expression::UMIN(b(num(2)))), b(num(2))));
}

#[test]
fn binary_tiers_are_left_associative() {
    let e = assigned(vec![lit(1), TokenType::SUBOP, lit(2), TokenType::SUBOP, lit(3)]);
    assert_eq!(e, Expression::SUB(b(Expression::SUB(b(num(1)), b(num(2)))), b(num(3))));
    let e = assigned(vec![lit(2), TokenType::EXPONENT, lit(3), TokenType::EXPONENT, lit(4)]);
    assert_eq!(e, Expression::EXPONENT(b(Expression::EXPONENT(b(num(2)), b(num(3)))), b(num(4))));
    let e = assigned(vec![lit(8), TokenType::DIVOP, lit(4), TokenType::MODOP, lit(3)]);
    assert_eq!(e, Expression::MOD(b(Expression::DIV(b(num(8)), b(num(4)))), b(num(3))));
}

#[test]
fn parentheses_are_not_kept() {
    let e = assigned(vec![
        TokenType::LPAREN,
        lit(1),
        TokenType::ADDOP,
        lit(2),
        TokenType::RPAREN,
        TokenType::MULOP,
        lit(3),
    ]);
    assert_eq!(e, Expression::MUL(b(Expression::ADD(b(num(1)), b(num(2)))), b(num(3))));
}

#[test]
fn prefix_operators_and_literals() {
    let e = assigned(vec![TokenType::NOT, TokenType::TRUE]);
    assert_eq!(e, Expression::NOT(b(Expression::BOOL(true))));
    let e = assigned(vec![TokenType::FACTORIAL, lit(5)]);
    assert_eq!(e, Expression::FACTORIAL(b(num(5))));
    let e = assigned(vec![TokenType::VERTICALBAR, TokenType::FALSE]);
    assert_eq!(e, Expression::ABS(b(Expression::BOOL(false))));
    let e = assigned(vec![TokenType::FLOAT(1.5f32.to_bits())]);
    assert_eq!(e, Expression::FLOAT(1.5f32.to_bits()));
}

#[test]
fn comparison_operators() {
    let ops = vec![
        (TokenType::EQUALOP, 0),
        (TokenType::NOTEQUALOP, 1),
        (TokenType::GETHANOP, 2),
        (TokenType::LETHANOP, 3),
    ];
    for (op, k) in ops {
        let e = assigned(vec![lit(1), op, lit(2)]);
        let (l, r) = (b(num(1)), b(num(2)));
        let want = match k {
            0 => Expression::EQU(l, r),
            1 => Expression::NEQU(l, r),
            2 => Expression::GTHE(l, r),
            _ => Expression::LTHE(l, r),
        };
        assert_eq!(e, want);
    }
    let e = assigned(vec![id("x"), TokenType::OR, id("y")]);
    assert_eq!(e, Expression::OR(b(ident("x")), b(ident("y"))));
}

#[test]
fn prev_takes_a_bare_identifier() {
    let e = assigned(vec![TokenType::PREV, id("x")]);
    assert_eq!(e, Expression::PREV("x".to_string()));
}

#[test]
fn prev_of_expression_is_missing_token() {
    let err = error(vec![
        id("a"),
        TokenType::ASSIGNMENT,
        TokenType::PREV,
        TokenType::LPAREN,
        id("x"),
        TokenType::ADDOP,
        lit(1),
        TokenType::RPAREN,
        TokenType::NEWLINE,
        TokenType::NONE,
    ]);
    assert_eq!(err, ParseError::MissingIdentifier { found: TokenType::LPAREN, line: 0 });
}

#[test]
fn accessor_chains() {
    let e = assigned(vec![id("a"), TokenType::ACCESSOR, id("b"), TokenType::ACCESSOR, id("c")]);
    assert_eq!(
        e,
        Expression::ACCESSOR(b(Expression::ACCESSOR(b(ident("a")), b(ident("b")))), b(ident("c")))
    );
    let e = assigned(vec![lit(1), TokenType::ACCESSOR, id("b")]);
    assert_eq!(e, Expression::ACCESSOR(b(num(1)), b(ident("b"))));
}

#[test]
fn accessor_without_identifier_fails() {
    let v = vec![
        Token { token_type: id("a"), line: 4 },
        Token { token_type: TokenType::ASSIGNMENT, line: 4 },
        Token { token_type: lit(1), line: 4 },
        Token { token_type: TokenType::ACCESSOR, line: 4 },
        Token { token_type: lit(2), line: 4 },
        Token { token_type: TokenType::NEWLINE, line: 4 },
        Token { token_type: TokenType::NONE, line: 5 },
    ];
    assert_eq!(parse(v).unwrap_err(), ParseError::InvalidAccessor { line: 4 });
}

#[test]
fn malformed_expression_names_token_and_line() {
    let v = vec![
        Token { token_type: id("a"), line: 2 },
        Token { token_type: TokenType::ASSIGNMENT, line: 2 },
        Token { token_type: TokenType::COMMA, line: 3 },
        Token { token_type: TokenType::NEWLINE, line: 3 },
    ];
    assert_eq!(
        parse(v).unwrap_err(),
        ParseError::MalformedExpression { found: TokenType::COMMA, line: 3 }
    );
}

#[test]
fn missing_close_paren() {
    let err = error(vec![
        id("a"),
        TokenType::ASSIGNMENT,
        TokenType::LPAREN,
        lit(1),
        TokenType::NEWLINE,
        TokenType::NONE,
    ]);
    assert_eq!(
        err,
        ParseError::MissingToken { expected: TokenType::RPAREN, found: TokenType::NEWLINE, line: 0 }
    );
}

#[test]
fn missing_line_break_after_statement() {
    let err = error(vec![id("a"), TokenType::ASSIGNMENT, lit(1), TokenType::NONE]);
    assert_eq!(
        err,
        ParseError::MissingToken { expected: TokenType::NEWLINE, found: TokenType::NONE, line: 0 }
    );
}

#[test]
fn unknown_statement() {
    let err = error(vec![lit(3), TokenType::NEWLINE, TokenType::NONE]);
    assert_eq!(err, ParseError::UnknownStatement { found: lit(3), line: 0 });
    let err = error(vec![id("x"), TokenType::NEWLINE, TokenType::NONE]);
    assert_eq!(err, ParseError::UnknownStatement { found: id("x"), line: 0 });
}

fn block(name: &str, x: i32) -> Vec<TokenType> {
    vec![
        TokenType::LBRACKET,
        TokenType::NEWLINE,
        id(name),
        TokenType::ASSIGNMENT,
        lit(x),
        TokenType::NEWLINE,
        TokenType::RBRACKET,
    ]
}

#[test]
fn if_elif_else_chain() {
    let mut v = vec![TokenType::IF, id("a")];
    v.extend(block("x", 1));
    v.extend(vec![TokenType::ELIF, id("b")]);
    v.extend(block("x", 2));
    v.push(TokenType::ELSE);
    v.extend(block("x", 3));
    v.extend(vec![TokenType::NEWLINE, TokenType::NONE]);
    let prog = program(v);
    assert_eq!(prog.body.len(), 1);
    let st = &prog.body[0];
    assert_eq!(st.statement_type, StatementType::IF);
    assert_eq!(st.expr, Some(b(ident("a"))));
    assert_eq!(st.code_block, Some(vec![assign("x", 1)]));
    assert_eq!(st.alt_exps, vec![b(ident("b"))]);
    assert_eq!(st.alt_code_blocks, vec![vec![assign("x", 2)], vec![assign("x", 3)]]);
    assert_eq!(st.alt_code_blocks.len(), st.alt_exps.len() + 1);
}

#[test]
fn if_elif_without_else() {
    let mut v = vec![TokenType::IF, id("a")];
    v.extend(block("x", 1));
    v.extend(vec![TokenType::ELIF, id("b")]);
    v.extend(block("x", 2));
    v.extend(vec![TokenType::NEWLINE, TokenType::NONE]);
    let prog = program(v);
    let st = &prog.body[0];
    assert_eq!(st.alt_exps, vec![b(ident("b"))]);
    assert_eq!(st.alt_code_blocks, vec![vec![assign("x", 2)]]);
    assert_eq!(st.alt_code_blocks.len(), st.alt_exps.len());
}

#[test]
fn print_without_arguments() {
    let prog = program(vec![
        TokenType::PRINT,
        TokenType::LPAREN,
        TokenType::RPAREN,
        TokenType::NEWLINE,
        TokenType::NONE,
    ]);
    let st = &prog.body[0];
    assert_eq!(st.statement_type, StatementType::PRINT);
    assert_eq!(st.expr, Some(b(Expression::NONE)));
    assert!(st.alt_exps.is_empty());
}

#[test]
fn print_with_arguments() {
    let prog = program(vec![
        TokenType::PRINT,
        TokenType::LPAREN,
        id("a"),
        TokenType::COMMA,
        id("b"),
        TokenType::COMMA,
        id("c"),
        TokenType::RPAREN,
        TokenType::NEWLINE,
        TokenType::NONE,
    ]);
    let st = &prog.body[0];
    assert_eq!(st.expr, Some(b(ident("a"))));
    assert_eq!(st.alt_exps, vec![b(ident("b")), b(ident("c"))]);
}

#[test]
fn reveal_takes_identifier() {
    let prog = program(vec![TokenType::REVEAL, id("v"), TokenType::NEWLINE, TokenType::NONE]);
    let st = &prog.body[0];
    assert_eq!(st.statement_type, StatementType::REVEAL);
    assert_eq!(st.var_name, Some("v".to_string()));
    assert_eq!(st.expr, None);
    let err = error(vec![TokenType::REVEAL, lit(1), TokenType::NEWLINE, TokenType::NONE]);
    assert_eq!(err, ParseError::MissingIdentifier { found: lit(1), line: 0 });
}

#[test]
fn nested_block_keeps_enclosing_statement() {
    // expect c { if d { y = 1 } \n z = 2 }
    let mut inner = vec![TokenType::IF, id("d")];
    inner.extend(block("y", 1));
    let mut v = vec![TokenType::EXPECT, id("c"), TokenType::LBRACKET, TokenType::NEWLINE];
    v.extend(inner);
    v.push(TokenType::NEWLINE);
    v.extend(vec![id("z"), TokenType::ASSIGNMENT, lit(2), TokenType::NEWLINE, TokenType::RBRACKET]);
    v.extend(vec![TokenType::NEWLINE, TokenType::NONE]);
    let prog = program(v);
    assert!(prog.body.is_empty());
    let st = prog.expect.unwrap();
    assert_eq!(st.statement_type, StatementType::EXPECT);
    assert_eq!(st.expr, Some(b(ident("c"))));
    let blk = st.code_block.unwrap();
    assert_eq!(blk.len(), 2);
    assert_eq!(blk[0].statement_type, StatementType::IF);
    assert_eq!(blk[0].expr, Some(b(ident("d"))));
    assert_eq!(blk[0].code_block, Some(vec![assign("y", 1)]));
    assert_eq!(blk[1], assign("z", 2));
    assert!(st.alt_exps.is_empty());
    assert!(st.alt_code_blocks.is_empty());
}

#[test]
fn begin_and_expect_take_slots_last_wins() {
    let mut v = vec![TokenType::BEGIN];
    v.extend(block("x", 1));
    v.push(TokenType::NEWLINE);
    v.extend(vec![id("q"), TokenType::ASSIGNMENT, lit(7), TokenType::NEWLINE]);
    v.push(TokenType::BEGIN);
    v.extend(block("x", 2));
    v.push(TokenType::NEWLINE);
    v.extend(vec![TokenType::EXPECT, TokenType::TRUE]);
    v.extend(block("w", 3));
    v.extend(vec![TokenType::NEWLINE, TokenType::NONE]);
    let prog = program(v);
    assert_eq!(prog.body, vec![assign("q", 7)]);
    let begin = prog.begin.unwrap();
    assert_eq!(begin.statement_type, StatementType::BEGIN);
    assert_eq!(begin.code_block, Some(vec![assign("x", 2)]));
    let expect = prog.expect.unwrap();
    assert_eq!(expect.expr, Some(b(Expression::BOOL(true))));
    assert_eq!(expect.code_block, Some(vec![assign("w", 3)]));
}

#[test]
fn block_needs_line_break_after_brace() {
    let err = error(vec![
        TokenType::BEGIN,
        TokenType::LBRACKET,
        id("x"),
        TokenType::ASSIGNMENT,
        lit(1),
        TokenType::NEWLINE,
        TokenType::RBRACKET,
        TokenType::NEWLINE,
        TokenType::NONE,
    ]);
    assert_eq!(
        err,
        ParseError::MissingToken { expected: TokenType::NEWLINE, found: id("x"), line: 0 }
    );
}

#[test]
fn stream_without_end_marker_ends() {
    let prog = program(vec![id("a"), TokenType::ASSIGNMENT, lit(1), TokenType::NEWLINE]);
    assert_eq!(prog.body, vec![assign("a", 1)]);
    let err = parse(vec![]).unwrap_err();
    assert_eq!(err, ParseError::UnknownStatement { found: TokenType::NONE, line: 0 });
}

#[test]
fn parser_run() {
    let mut p = Parser::new(toks(vec![id("a"), TokenType::ASSIGNMENT, lit(4), TokenType::NEWLINE, TokenType::NONE]));
    let prog = p.run().unwrap();
    assert_eq!(prog.body, vec![assign("a", 4)]);
    assert!(prog.begin.is_none());
}

#[test]
fn statement_kinds_with_blocks() {
    assert!(StatementType::IF.has_code_block());
    assert!(StatementType::ELSE.has_code_block());
    assert!(StatementType::BEGIN.has_code_block());
    assert!(StatementType::EXPECT.has_code_block());
    assert!(!StatementType::PRINT.has_code_block());
    assert!(!StatementType::ASSIGN.has_code_block());
    assert!(!StatementType::REVEAL.has_code_block());
    assert!(!StatementType::NONE.has_code_block());
}

#[test]
fn truthiness() {
    assert!(VariableType::INTEGER(1).as_bool());
    assert!(!VariableType::INTEGER(0).as_bool());
    assert!(!VariableType::INTEGER(-5).as_bool());
    assert!(VariableType::FLOAT(1.0f32.to_bits()).as_bool());
    assert!(VariableType::FLOAT(2.5f32.to_bits()).as_bool());
    assert!(VariableType::FLOAT(f32::INFINITY.to_bits()).as_bool());
    assert!(!VariableType::FLOAT(0.5f32.to_bits()).as_bool());
    assert!(!VariableType::FLOAT((-3.0f32).to_bits()).as_bool());
    assert!(!VariableType::FLOAT(f32::NAN.to_bits()).as_bool());
    assert!(VariableType::BOOL(true).as_bool());
    assert!(!VariableType::BOOL(false).as_bool());
    assert!(VariableType::STRING("x".to_string()).as_bool());
    assert!(!VariableType::STRING(String::new()).as_bool());
}

#[test]
fn convert_and_negate() {
    let mut v = VariableType::BOOL(true);
    assert_eq!(v.convert_bool(), VariableType::INTEGER(1));
    assert_eq!(v, VariableType::INTEGER(1));
    let mut v = VariableType::BOOL(false);
    assert_eq!(v.convert_bool(), VariableType::INTEGER(0));
    let mut v = VariableType::STRING("s".to_string());
    assert_eq!(v.convert_bool(), VariableType::STRING("s".to_string()));
    assert_eq!(VariableType::INTEGER(3).negate(), VariableType::BOOL(false));
    assert_eq!(VariableType::STRING(String::new()).negate(), VariableType::BOOL(true));
}

#[test]
fn reset_clears_every_field() {
    let mut st = Statement {
        statement_type: StatementType::PRINT,
        var_name: Some("n".to_string()),
        code_block: Some(vec![]),
        expr: Some(b(num(1))),
        alt_code_blocks: vec![vec![]],
        alt_exps: vec![b(num(2))],
    };
    st.reset();
    assert_eq!(st.statement_type, StatementType::NONE);
    assert_eq!(st.var_name, None);
    assert_eq!(st.code_block, None);
    assert_eq!(st.expr, None);
    assert!(st.alt_code_blocks.is_empty());
    assert!(st.alt_exps.is_empty());
}

#[test]
fn exponent_operand_may_be_prefixed_or_prev() {
    let e = assigned(vec![lit(2), TokenType::EXPONENT, TokenType::SUBOP, lit(1)]);
    assert_eq!(e, Expression::EXPONENT(b(num(2)), b(Expression::UMIN(b(num(1))))));
    let e = assigned(vec![TokenType::PREV, id("x"), TokenType::EXPONENT, lit(2)]);
    assert_eq!(e, Expression::EXPONENT(b(Expression::PREV("x".to_string())), b(num(2))));
    let e = assigned(vec![lit(2), TokenType::EXPONENT, TokenType::PREV, id("y")]);
    assert_eq!(e, Expression::EXPONENT(b(num(2)), b(Expression::PREV("y".to_string()))));
    let e = assigned(vec![TokenType::SUBOP, TokenType::PREV, id("x"), TokenType::EXPONENT, lit(2)]);
    assert_eq!(
        e,
        Expression::UMIN(b(Expression::EXPONENT(b(Expression::PREV("x".to_string())), b(num(2)))))
    );
}

#[test]
fn clones_are_deep_copies() {
    let e = Expression::ADD(b(ident("a")), b(Expression::NOT(b(Expression::BOOL(true)))));
    assert_eq!(e.clone(), e);
    let mut v = vec![TokenType::IF, id("a")];
    v.extend(block("x", 1));
    v.push(TokenType::ELSE);
    v.extend(block("x", 3));
    v.extend(vec![TokenType::NEWLINE, TokenType::NONE]);
    let prog = program(v);
    let st = prog.body[0].clone();
    assert_eq!(st, prog.body[0]);
    assert_eq!(st.alt_code_blocks, vec![vec![assign("x", 3)]]);
    let val = VariableType::STRING("s".to_string());
    assert_eq!(val.clone(), val);
}

#[test]
fn token_kinds_match_by_tag() {
    assert!(id("a").equals(&id("b")));
    assert!(lit(1).equals(&lit(2)));
    assert!(!lit(1).equals(&id("a")));
    assert!(TokenType::AND.equals(&TokenType::AND));
    assert!(!TokenType::AND.equals(&TokenType::OR));
    assert_eq!(TokenType::NONE.tag(), 38);
    assert_eq!(id("x").tag(), 0);
    assert_eq!(id("xy").duplicate(), id("xy"));
    assert_eq!(TokenType::FLOAT(7).duplicate(), TokenType::FLOAT(7));
}
