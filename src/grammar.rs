use vstd::prelude::*;
use crate::code_types::{Expression, StatementType, StatementModel, ProgramModel};
use crate::token::{Token, TokenType, same_kind};

verus! {

/// Why a parse stopped. Every error is final: no partial result is returned.
#[derive(Debug, PartialEq)]
pub enum ParseError {
    /// A structurally required token kind is absent at the cursor.
    MissingToken { expected: TokenType, found: TokenType, line: usize },
    /// An identifier is required at the cursor and absent.
    MissingIdentifier { found: TokenType, line: usize },
    /// No atomic factor starts with the token found.
    MalformedExpression { found: TokenType, line: usize },
    /// Neither operand of an accessor is an identifier.
    InvalidAccessor { line: usize },
    /// No statement starts with the token found.
    UnknownStatement { found: TokenType, line: usize },
}

/// The kind of the token at `pos`; past the end, the end marker.
pub open spec fn tok_at(toks: Seq<Token>, pos: int) -> TokenType {
    if 0 <= pos < toks.len() {
        toks[pos].token_type
    } else {
        TokenType::NONE
    }
}

/// The line of the token at `pos`; past the end, the line of the last token.
pub open spec fn line_at(toks: Seq<Token>, pos: int) -> usize {
    if 0 <= pos < toks.len() {
        toks[pos].line
    } else if toks.len() > 0 {
        toks[toks.len() - 1].line
    } else {
        0
    }
}

/// How many tokens are left from `pos` on.
pub open spec fn remaining(toks: Seq<Token>, pos: int) -> nat {
    if pos < toks.len() {
        (toks.len() - pos) as nat
    } else {
        0
    }
}

/// Whether the token at `pos` is of the kind of `k`.
pub open spec fn at_kind(toks: Seq<Token>, pos: int, k: TokenType) -> bool {
    same_kind(tok_at(toks, pos), k)
}

/// The error for a missing token of kind `k` at `pos`.
pub open spec fn missing(toks: Seq<Token>, pos: int, k: TokenType) -> ParseError {
    ParseError::MissingToken { expected: k, found: tok_at(toks, pos), line: line_at(toks, pos) }
}

/// The error for a missing identifier at `pos`.
pub open spec fn missing_identifier(toks: Seq<Token>, pos: int) -> ParseError {
    ParseError::MissingIdentifier { found: tok_at(toks, pos), line: line_at(toks, pos) }
}

pub open spec fn is_identifier(e: Expression) -> bool {
    e is IDENTIFIER
}

pub open spec fn bx(e: Expression) -> Box<Expression> {
    Box::new(e)
}

/// Result of a parse step: the value built and the position after it.
pub type Step<T> = Result<(T, int), ParseError>;

// ---------------------------------------------------------------------------
// Expressions. Lowest to highest: and/or, comparison, additive,
// multiplicative, unary prefix, exponent, prev / accessor, atomic factor.
// Every binary tier is left-associative. The `q >= pos` guards always hold
// (positions only move forward); they let termination be seen directly.
// ---------------------------------------------------------------------------

/// and / or
pub open spec fn spec_expr(toks: Seq<Token>, pos: int) -> Step<Expression>
    decreases remaining(toks, pos), 9nat,
{
    match spec_comp(toks, pos) {
        Ok((lhs, q)) => if q >= pos { spec_logic_rest(toks, q, lhs) } else { Ok((lhs, q)) },
        Err(e) => Err(e),
    }
}

pub open spec fn logic_node(op: TokenType, l: Expression, r: Expression) -> Expression {
    if op is AND { Expression::AND(bx(l), bx(r)) } else { Expression::OR(bx(l), bx(r)) }
}

pub open spec fn spec_logic_rest(toks: Seq<Token>, pos: int, lhs: Expression) -> Step<Expression>
    decreases remaining(toks, pos), 0nat,
{
    let op = tok_at(toks, pos);
    if op is AND || op is OR {
        match spec_comp(toks, pos + 1) {
            Ok((rhs, q)) => if q > pos {
                spec_logic_rest(toks, q, logic_node(op, lhs, rhs))
            } else {
                Ok((lhs, q))
            },
            Err(e) => Err(e),
        }
    } else {
        Ok((lhs, pos))
    }
}

pub open spec fn is_comp_op(op: TokenType) -> bool {
    op is GETHANOP || op is GTHANOP || op is EQUALOP || op is NOTEQUALOP || op is LTHANOP
        || op is LETHANOP
}

pub open spec fn comp_node(op: TokenType, l: Expression, r: Expression) -> Expression {
    match op {
        TokenType::GETHANOP => Expression::GTHE(bx(l), bx(r)),
        TokenType::GTHANOP => Expression::GTH(bx(l), bx(r)),
        TokenType::EQUALOP => Expression::EQU(bx(l), bx(r)),
        TokenType::NOTEQUALOP => Expression::NEQU(bx(l), bx(r)),
        TokenType::LTHANOP => Expression::LTH(bx(l), bx(r)),
        _ => Expression::LTHE(bx(l), bx(r)),
    }
}

/// = != > >= < <=
pub open spec fn spec_comp(toks: Seq<Token>, pos: int) -> Step<Expression>
    decreases remaining(toks, pos), 8nat,
{
    match spec_add(toks, pos) {
        Ok((lhs, q)) => if q >= pos { spec_comp_rest(toks, q, lhs) } else { Ok((lhs, q)) },
        Err(e) => Err(e),
    }
}

pub open spec fn spec_comp_rest(toks: Seq<Token>, pos: int, lhs: Expression) -> Step<Expression>
    decreases remaining(toks, pos), 0nat,
{
    let op = tok_at(toks, pos);
    if is_comp_op(op) {
        match spec_add(toks, pos + 1) {
            Ok((rhs, q)) => if q > pos {
                spec_comp_rest(toks, q, comp_node(op, lhs, rhs))
            } else {
                Ok((lhs, q))
            },
            Err(e) => Err(e),
        }
    } else {
        Ok((lhs, pos))
    }
}

pub open spec fn add_node(op: TokenType, l: Expression, r: Expression) -> Expression {
    if op is ADDOP { Expression::ADD(bx(l), bx(r)) } else { Expression::SUB(bx(l), bx(r)) }
}

/// + -
pub open spec fn spec_add(toks: Seq<Token>, pos: int) -> Step<Expression>
    decreases remaining(toks, pos), 7nat,
{
    match spec_mul(toks, pos) {
        Ok((lhs, q)) => if q >= pos { spec_add_rest(toks, q, lhs) } else { Ok((lhs, q)) },
        Err(e) => Err(e),
    }
}

pub open spec fn spec_add_rest(toks: Seq<Token>, pos: int, lhs: Expression) -> Step<Expression>
    decreases remaining(toks, pos), 0nat,
{
    let op = tok_at(toks, pos);
    if op is ADDOP || op is SUBOP {
        match spec_mul(toks, pos + 1) {
            Ok((rhs, q)) => if q > pos {
                spec_add_rest(toks, q, add_node(op, lhs, rhs))
            } else {
                Ok((lhs, q))
            },
            Err(e) => Err(e),
        }
    } else {
        Ok((lhs, pos))
    }
}

pub open spec fn mul_node(op: TokenType, l: Expression, r: Expression) -> Expression {
    match op {
        TokenType::MULOP => Expression::MUL(bx(l), bx(r)),
        TokenType::DIVOP => Expression::DIV(bx(l), bx(r)),
        _ => Expression::MOD(bx(l), bx(r)),
    }
}

/// * / mod
pub open spec fn spec_mul(toks: Seq<Token>, pos: int) -> Step<Expression>
    decreases remaining(toks, pos), 6nat,
{
    match spec_unary(toks, pos) {
        Ok((lhs, q)) => if q >= pos { spec_mul_rest(toks, q, lhs) } else { Ok((lhs, q)) },
        Err(e) => Err(e),
    }
}

pub open spec fn spec_mul_rest(toks: Seq<Token>, pos: int, lhs: Expression) -> Step<Expression>
    decreases remaining(toks, pos), 0nat,
{
    let op = tok_at(toks, pos);
    if op is MULOP || op is DIVOP || op is MODOP {
        match spec_unary(toks, pos + 1) {
            Ok((rhs, q)) => if q > pos {
                spec_mul_rest(toks, q, mul_node(op, lhs, rhs))
            } else {
                Ok((lhs, q))
            },
            Err(e) => Err(e),
        }
    } else {
        Ok((lhs, pos))
    }
}

pub open spec fn is_prefix_op(op: TokenType) -> bool {
    op is NOT || op is FACTORIAL || op is SUBOP || op is VERTICALBAR
}

pub open spec fn prefix_node(op: TokenType, e: Expression) -> Expression {
    match op {
        TokenType::NOT => Expression::NOT(bx(e)),
        TokenType::FACTORIAL => Expression::FACTORIAL(bx(e)),
        TokenType::SUBOP => Expression::UMIN(bx(e)),
        _ => Expression::ABS(bx(e)),
    }
}

/// Leading prefix operators wrap the whole exponent expression that
/// follows them: `-2^2` is minus applied to `2^2`.
pub open spec fn spec_unary(toks: Seq<Token>, pos: int) -> Step<Expression>
    decreases remaining(toks, pos), 5nat,
{
    let op = tok_at(toks, pos);
    if is_prefix_op(op) {
        match spec_unary(toks, pos + 1) {
            Ok((e, q)) => Ok((prefix_node(op, e), q)),
            Err(e) => Err(e),
        }
    } else {
        spec_expo(toks, pos)
    }
}

/// `prev <identifier>`, which takes exactly one bare identifier, or an
/// accessor chain.
pub open spec fn spec_primary(toks: Seq<Token>, pos: int) -> Step<Expression>
    decreases remaining(toks, pos), 3nat,
{
    if tok_at(toks, pos) is PREV {
        match tok_at(toks, pos + 1) {
            TokenType::IDENTIFIER(s) => Ok((Expression::PREV(s), pos + 2)),
            _ => Err(missing_identifier(toks, pos + 1)),
        }
    } else {
        spec_accessor(toks, pos)
    }
}

/// The right operand of `^`: prefix operators over a primary, so that
/// `2 ^ -1` is `2` raised to minus one, and `2 ^ 3 ^ 4` stays left-nested.
pub open spec fn spec_expo_operand(toks: Seq<Token>, pos: int) -> Step<Expression>
    decreases remaining(toks, pos), 4nat,
{
    let op = tok_at(toks, pos);
    if is_prefix_op(op) {
        match spec_expo_operand(toks, pos + 1) {
            Ok((e, q)) => Ok((prefix_node(op, e), q)),
            Err(e) => Err(e),
        }
    } else {
        spec_primary(toks, pos)
    }
}

/// ^
pub open spec fn spec_expo(toks: Seq<Token>, pos: int) -> Step<Expression>
    decreases remaining(toks, pos), 4nat,
{
    match spec_primary(toks, pos) {
        Ok((lhs, q)) => if q >= pos { spec_expo_rest(toks, q, lhs) } else { Ok((lhs, q)) },
        Err(e) => Err(e),
    }
}

pub open spec fn spec_expo_rest(toks: Seq<Token>, pos: int, lhs: Expression) -> Step<Expression>
    decreases remaining(toks, pos), 0nat,
{
    if tok_at(toks, pos) is EXPONENT {
        match spec_expo_operand(toks, pos + 1) {
            Ok((rhs, q)) => if q > pos {
                spec_expo_rest(toks, q, Expression::EXPONENT(bx(lhs), bx(rhs)))
            } else {
                Ok((lhs, q))
            },
            Err(e) => Err(e),
        }
    } else {
        Ok((lhs, pos))
    }
}

/// Accessor chains: at least one operand of each accessor is an identifier.
pub open spec fn spec_accessor(toks: Seq<Token>, pos: int) -> Step<Expression>
    decreases remaining(toks, pos), 2nat,
{
    match spec_factor(toks, pos) {
        Ok((lhs, q)) => if q >= pos { spec_accessor_rest(toks, q, lhs) } else { Ok((lhs, q)) },
        Err(e) => Err(e),
    }
}

pub open spec fn spec_accessor_rest(toks: Seq<Token>, pos: int, lhs: Expression) -> Step<Expression>
    decreases remaining(toks, pos), 0nat,
{
    if tok_at(toks, pos) is ACCESSOR {
        match spec_factor(toks, pos + 1) {
            Ok((rhs, q)) => if !is_identifier(lhs) && !is_identifier(rhs) {
                Err(ParseError::InvalidAccessor { line: line_at(toks, q) })
            } else if q > pos {
                spec_accessor_rest(toks, q, Expression::ACCESSOR(bx(lhs), bx(rhs)))
            } else {
                Ok((lhs, q))
            },
            Err(e) => Err(e),
        }
    } else {
        Ok((lhs, pos))
    }
}

/// Identifier, literal, or parenthesised expression.
pub open spec fn spec_factor(toks: Seq<Token>, pos: int) -> Step<Expression>
    decreases remaining(toks, pos), 1nat,
{
    match tok_at(toks, pos) {
        TokenType::IDENTIFIER(s) => Ok((Expression::IDENTIFIER(s), pos + 1)),
        TokenType::INTEGER(x) => Ok((Expression::INTEGER(x), pos + 1)),
        TokenType::FLOAT(x) => Ok((Expression::FLOAT(x), pos + 1)),
        TokenType::TRUE => Ok((Expression::BOOL(true), pos + 1)),
        TokenType::FALSE => Ok((Expression::BOOL(false), pos + 1)),
        TokenType::LPAREN => match spec_expr(toks, pos + 1) {
            Ok((e, q)) => if tok_at(toks, q) is RPAREN {
                Ok((e, q + 1))
            } else {
                Err(missing(toks, q, TokenType::RPAREN))
            },
            Err(e) => Err(e),
        },
        t => Err(ParseError::MalformedExpression { found: t, line: line_at(toks, pos) }),
    }
}

// ---------------------------------------------------------------------------
// Statements, blocks and the program.
// ---------------------------------------------------------------------------

/// A statement of the given kind with every other field empty.
pub open spec fn bare(kind: StatementType) -> StatementModel {
    StatementModel {
        statement_type: kind,
        var_name: None,
        code_block: None,
        expr: None,
        alt_code_blocks: Seq::empty(),
        alt_exps: Seq::empty(),
    }
}

/// The further arguments of `print`: zero or more `, <expr>`.
pub open spec fn spec_print_rest(toks: Seq<Token>, pos: int, alts: Seq<Expression>) -> Step<
    Seq<Expression>,
>
    decreases remaining(toks, pos),
{
    if tok_at(toks, pos) is COMMA {
        match spec_expr(toks, pos + 1) {
            Ok((e, q)) => if q > pos {
                spec_print_rest(toks, q, alts.push(e))
            } else {
                Ok((alts, q))
            },
            Err(e) => Err(e),
        }
    } else {
        Ok((alts, pos))
    }
}

/// `print` after its keyword: `(`, then `)` or expressions separated by commas
/// and a `)`. With no argument the primary expression is the empty leaf.
pub open spec fn spec_print(toks: Seq<Token>, pos: int) -> Step<StatementModel> {
    if !(tok_at(toks, pos) is LPAREN) {
        Err(missing(toks, pos, TokenType::LPAREN))
    } else if tok_at(toks, pos + 1) is RPAREN {
        Ok((StatementModel { expr: Some(Expression::NONE), ..bare(StatementType::PRINT) }, pos + 2))
    } else {
        match spec_expr(toks, pos + 1) {
            Ok((e, q)) => match spec_print_rest(toks, q, Seq::empty()) {
                Ok((alts, q2)) => if tok_at(toks, q2) is RPAREN {
                    Ok(
                        (
                            StatementModel {
                                expr: Some(e),
                                alt_exps: alts,
                                ..bare(StatementType::PRINT)
                            },
                            q2 + 1,
                        ),
                    )
                } else {
                    Err(missing(toks, q2, TokenType::RPAREN))
                },
                Err(err) => Err(err),
            },
            Err(err) => Err(err),
        }
    }
}

/// One statement, dispatched on the current token and, for assignment, the
/// one after it.
pub open spec fn spec_statement(toks: Seq<Token>, pos: int) -> Step<StatementModel>
    decreases remaining(toks, pos), 1nat,
{
    let tok = tok_at(toks, pos);
    if tok is IDENTIFIER && tok_at(toks, pos + 1) is ASSIGNMENT {
        match spec_expr(toks, pos + 2) {
            Ok((e, q)) => Ok(
                (
                    StatementModel {
                        var_name: Some(tok->IDENTIFIER_0),
                        expr: Some(e),
                        ..bare(StatementType::ASSIGN)
                    },
                    q,
                ),
            ),
            Err(err) => Err(err),
        }
    } else if tok is BEGIN {
        match spec_block(toks, pos + 1) {
            Ok((b, q)) => Ok((StatementModel { code_block: Some(b), ..bare(StatementType::BEGIN) }, q)),
            Err(err) => Err(err),
        }
    } else if tok is EXPECT {
        match spec_expr(toks, pos + 1) {
            Ok((e, q)) => if q > pos {
                match spec_block(toks, q) {
                    Ok((b, q2)) => Ok(
                        (
                            StatementModel {
                                expr: Some(e),
                                code_block: Some(b),
                                ..bare(StatementType::EXPECT)
                            },
                            q2,
                        ),
                    ),
                    Err(err) => Err(err),
                }
            } else {
                Ok((bare(StatementType::EXPECT), q))
            },
            Err(err) => Err(err),
        }
    } else if tok is REVEAL {
        match tok_at(toks, pos + 1) {
            TokenType::IDENTIFIER(s) => Ok(
                (StatementModel { var_name: Some(s), ..bare(StatementType::REVEAL) }, pos + 2),
            ),
            _ => Err(missing_identifier(toks, pos + 1)),
        }
    } else if tok is PRINT {
        spec_print(toks, pos + 1)
    } else if tok is IF {
        spec_if(toks, pos + 1)
    } else {
        Err(ParseError::UnknownStatement { found: tok, line: line_at(toks, pos) })
    }
}

/// `if` after its keyword: condition and block, zero or more `elif` branches,
/// then an optional `else` block. The else block is appended to the alternate
/// blocks with no condition of its own.
pub open spec fn spec_if(toks: Seq<Token>, pos: int) -> Step<StatementModel>
    decreases remaining(toks, pos), 4nat,
{
    match spec_expr(toks, pos) {
        Ok((c, q)) => if q >= pos {
            match spec_block(toks, q) {
                Ok((b, q2)) => if q2 >= q {
                    match spec_elif_rest(toks, q2, Seq::empty(), Seq::empty()) {
                        Ok(((ae, ab), q3)) => {
                            let st = StatementModel {
                                expr: Some(c),
                                code_block: Some(b),
                                alt_exps: ae,
                                alt_code_blocks: ab,
                                ..bare(StatementType::IF)
                            };
                            if tok_at(toks, q3) is ELSE && q3 >= q2 {
                                match spec_block(toks, q3 + 1) {
                                    Ok((eb, q4)) => Ok(
                                        (StatementModel { alt_code_blocks: ab.push(eb), ..st }, q4),
                                    ),
                                    Err(err) => Err(err),
                                }
                            } else {
                                Ok((st, q3))
                            }
                        },
                        Err(err) => Err(err),
                    }
                } else {
                    Ok((bare(StatementType::IF), q2))
                },
                Err(err) => Err(err),
            }
        } else {
            Ok((bare(StatementType::IF), q))
        },
        Err(err) => Err(err),
    }
}

/// Zero or more `elif <expr> <block>`, appended in order to the parallel
/// alternate lists.
pub open spec fn spec_elif_rest(
    toks: Seq<Token>,
    pos: int,
    alt_exps: Seq<Expression>,
    alt_blocks: Seq<Seq<StatementModel>>,
) -> Step<(Seq<Expression>, Seq<Seq<StatementModel>>)>
    decreases remaining(toks, pos), 2nat,
{
    if tok_at(toks, pos) is ELIF {
        match spec_expr(toks, pos + 1) {
            Ok((e, q)) => if q > pos {
                match spec_block(toks, q) {
                    Ok((b, q2)) => if q2 > pos {
                        spec_elif_rest(toks, q2, alt_exps.push(e), alt_blocks.push(b))
                    } else {
                        Ok(((alt_exps, alt_blocks), pos))
                    },
                    Err(err) => Err(err),
                }
            } else {
                Ok(((alt_exps, alt_blocks), pos))
            },
            Err(err) => Err(err),
        }
    } else {
        Ok(((alt_exps, alt_blocks), pos))
    }
}

/// A nested block: `{`, a line break, then one or more statements each
/// followed by a line break, up to `}`.
pub open spec fn spec_block(toks: Seq<Token>, pos: int) -> Step<Seq<StatementModel>>
    decreases remaining(toks, pos), 3nat,
{
    if !(tok_at(toks, pos) is LBRACKET) {
        Err(missing(toks, pos, TokenType::LBRACKET))
    } else if !(tok_at(toks, pos + 1) is NEWLINE) {
        Err(missing(toks, pos + 1, TokenType::NEWLINE))
    } else {
        spec_items(toks, pos + 2, Seq::empty())
    }
}

/// The statements of a block from `pos` on, after those in `acc`.
pub open spec fn spec_items(toks: Seq<Token>, pos: int, acc: Seq<StatementModel>) -> Step<
    Seq<StatementModel>,
>
    decreases remaining(toks, pos), 2nat,
{
    match spec_statement(toks, pos) {
        Ok((st, q)) => if !(tok_at(toks, q) is NEWLINE) {
            Err(missing(toks, q, TokenType::NEWLINE))
        } else if tok_at(toks, q + 1) is RBRACKET {
            Ok((acc.push(st), q + 2))
        } else if q >= pos {
            spec_items(toks, q + 1, acc.push(st))
        } else {
            Ok((acc, q))
        },
        Err(err) => Err(err),
    }
}

/// Files a finished top-level statement: `begin` and `expect` take their
/// slot (the last one wins), every other statement joins the body.
pub open spec fn file_statement(prog: ProgramModel, st: StatementModel) -> ProgramModel {
    if st.statement_type == StatementType::BEGIN {
        ProgramModel { begin: Some(st), ..prog }
    } else if st.statement_type == StatementType::EXPECT {
        ProgramModel { expect: Some(st), ..prog }
    } else {
        ProgramModel { body: prog.body.push(st), ..prog }
    }
}

/// Top-level statements from `pos` on, each followed by a line break, until
/// the end marker.
pub open spec fn spec_body(toks: Seq<Token>, pos: int, prog: ProgramModel) -> Result<
    ProgramModel,
    ParseError,
>
    decreases remaining(toks, pos),
{
    match spec_statement(toks, pos) {
        Ok((st, q)) => if !(tok_at(toks, q) is NEWLINE) {
            Err(missing(toks, q, TokenType::NEWLINE))
        } else if tok_at(toks, q + 1) is NONE {
            Ok(file_statement(prog, st))
        } else if q >= pos {
            spec_body(toks, q + 1, file_statement(prog, st))
        } else {
            Ok(prog)
        },
        Err(err) => Err(err),
    }
}

/// The program that a token sequence parses to, or the first error.
pub open spec fn spec_program(toks: Seq<Token>) -> Result<ProgramModel, ParseError> {
    spec_body(toks, 0, ProgramModel { begin: None, expect: None, body: Seq::empty() })
}

// ---------------------------------------------------------------------------
// Positions only move forward.
// ---------------------------------------------------------------------------

/// Parsing `expr` never moves the cursor backwards.
pub proof fn lemma_expr_forward(toks: Seq<Token>, pos: int)
    ensures
        spec_expr(toks, pos) is Ok ==> spec_expr(toks, pos)->Ok_0.1 >= pos,
    decreases remaining(toks, pos), 9nat,
{
    lemma_comp_forward(toks, pos);
    if spec_comp(toks, pos) is Ok {
        let (lhs, q) = spec_comp(toks, pos)->Ok_0;
        lemma_logic_rest_forward(toks, q, lhs);
    }
}

pub proof fn lemma_logic_rest_forward(toks: Seq<Token>, pos: int, lhs: Expression)
    ensures
        spec_logic_rest(toks, pos, lhs) is Ok ==> spec_logic_rest(toks, pos, lhs)->Ok_0.1 >= pos,
    decreases remaining(toks, pos), 0nat,
{
    if remaining(toks, pos) > 0 {
        lemma_comp_forward(toks, pos + 1);
        if spec_comp(toks, pos + 1) is Ok {
            let (rhs, q) = spec_comp(toks, pos + 1)->Ok_0;
            if q > pos {
                lemma_logic_rest_forward(toks, q, logic_node(tok_at(toks, pos), lhs, rhs));
            }
        }
    }
}

/// Parsing `comp` never moves the cursor backwards.
pub proof fn lemma_comp_forward(toks: Seq<Token>, pos: int)
    ensures
        spec_comp(toks, pos) is Ok ==> spec_comp(toks, pos)->Ok_0.1 >= pos,
    decreases remaining(toks, pos), 8nat,
{
    lemma_add_forward(toks, pos);
    if spec_add(toks, pos) is Ok {
        let (lhs, q) = spec_add(toks, pos)->Ok_0;
        lemma_comp_rest_forward(toks, q, lhs);
    }
}

pub proof fn lemma_comp_rest_forward(toks: Seq<Token>, pos: int, lhs: Expression)
    ensures
        spec_comp_rest(toks, pos, lhs) is Ok ==> spec_comp_rest(toks, pos, lhs)->Ok_0.1 >= pos,
    decreases remaining(toks, pos), 0nat,
{
    if remaining(toks, pos) > 0 {
        lemma_add_forward(toks, pos + 1);
        if spec_add(toks, pos + 1) is Ok {
            let (rhs, q) = spec_add(toks, pos + 1)->Ok_0;
            if q > pos {
                lemma_comp_rest_forward(toks, q, comp_node(tok_at(toks, pos), lhs, rhs));
            }
        }
    }
}

/// Parsing `add` never moves the cursor backwards.
pub proof fn lemma_add_forward(toks: Seq<Token>, pos: int)
    ensures
        spec_add(toks, pos) is Ok ==> spec_add(toks, pos)->Ok_0.1 >= pos,
    decreases remaining(toks, pos), 7nat,
{
    lemma_mul_forward(toks, pos);
    if spec_mul(toks, pos) is Ok {
        let (lhs, q) = spec_mul(toks, pos)->Ok_0;
        lemma_add_rest_forward(toks, q, lhs);
    }
}

pub proof fn lemma_add_rest_forward(toks: Seq<Token>, pos: int, lhs: Expression)
    ensures
        spec_add_rest(toks, pos, lhs) is Ok ==> spec_add_rest(toks, pos, lhs)->Ok_0.1 >= pos,
    decreases remaining(toks, pos), 0nat,
{
    if remaining(toks, pos) > 0 {
        lemma_mul_forward(toks, pos + 1);
        if spec_mul(toks, pos + 1) is Ok {
            let (rhs, q) = spec_mul(toks, pos + 1)->Ok_0;
            if q > pos {
                lemma_add_rest_forward(toks, q, add_node(tok_at(toks, pos), lhs, rhs));
            }
        }
    }
}

/// Parsing `mul` never moves the cursor backwards.
pub proof fn lemma_mul_forward(toks: Seq<Token>, pos: int)
    ensures
        spec_mul(toks, pos) is Ok ==> spec_mul(toks, pos)->Ok_0.1 >= pos,
    decreases remaining(toks, pos), 6nat,
{
    lemma_unary_forward(toks, pos);
    if spec_unary(toks, pos) is Ok {
        let (lhs, q) = spec_unary(toks, pos)->Ok_0;
        lemma_mul_rest_forward(toks, q, lhs);
    }
}

pub proof fn lemma_mul_rest_forward(toks: Seq<Token>, pos: int, lhs: Expression)
    ensures
        spec_mul_rest(toks, pos, lhs) is Ok ==> spec_mul_rest(toks, pos, lhs)->Ok_0.1 >= pos,
    decreases remaining(toks, pos), 0nat,
{
    if remaining(toks, pos) > 0 {
        lemma_unary_forward(toks, pos + 1);
        if spec_unary(toks, pos + 1) is Ok {
            let (rhs, q) = spec_unary(toks, pos + 1)->Ok_0;
            if q > pos {
                lemma_mul_rest_forward(toks, q, mul_node(tok_at(toks, pos), lhs, rhs));
            }
        }
    }
}

/// Parsing `expo` never moves the cursor backwards.
pub proof fn lemma_expo_forward(toks: Seq<Token>, pos: int)
    ensures
        spec_expo(toks, pos) is Ok ==> spec_expo(toks, pos)->Ok_0.1 >= pos,
    decreases remaining(toks, pos), 4nat,
{
    lemma_primary_forward(toks, pos);
    if spec_primary(toks, pos) is Ok {
        let (lhs, q) = spec_primary(toks, pos)->Ok_0;
        lemma_expo_rest_forward(toks, q, lhs);
    }
}

pub proof fn lemma_expo_rest_forward(toks: Seq<Token>, pos: int, lhs: Expression)
    ensures
        spec_expo_rest(toks, pos, lhs) is Ok ==> spec_expo_rest(toks, pos, lhs)->Ok_0.1 >= pos,
    decreases remaining(toks, pos), 0nat,
{
    if remaining(toks, pos) > 0 {
        lemma_expo_operand_forward(toks, pos + 1);
        if spec_expo_operand(toks, pos + 1) is Ok {
            let (rhs, q) = spec_expo_operand(toks, pos + 1)->Ok_0;
            if q > pos {
                lemma_expo_rest_forward(toks, q, Expression::EXPONENT(bx(lhs), bx(rhs)));
            }
        }
    }
}

/// Parsing `accessor` never moves the cursor backwards.
pub proof fn lemma_accessor_forward(toks: Seq<Token>, pos: int)
    ensures
        spec_accessor(toks, pos) is Ok ==> spec_accessor(toks, pos)->Ok_0.1 >= pos,
    decreases remaining(toks, pos), 2nat,
{
    lemma_factor_forward(toks, pos);
    if spec_factor(toks, pos) is Ok {
        let (lhs, q) = spec_factor(toks, pos)->Ok_0;
        lemma_accessor_rest_forward(toks, q, lhs);
    }
}

pub proof fn lemma_accessor_rest_forward(toks: Seq<Token>, pos: int, lhs: Expression)
    ensures
        spec_accessor_rest(toks, pos, lhs) is Ok ==> spec_accessor_rest(toks, pos, lhs)->Ok_0.1 >= pos,
    decreases remaining(toks, pos), 0nat,
{
    if remaining(toks, pos) > 0 {
        lemma_factor_forward(toks, pos + 1);
        if spec_factor(toks, pos + 1) is Ok {
            let (rhs, q) = spec_factor(toks, pos + 1)->Ok_0;
            if q > pos {
                lemma_accessor_rest_forward(toks, q, Expression::ACCESSOR(bx(lhs), bx(rhs)));
            }
        }
    }
}

pub proof fn lemma_unary_forward(toks: Seq<Token>, pos: int)
    ensures
        spec_unary(toks, pos) is Ok ==> spec_unary(toks, pos)->Ok_0.1 >= pos,
    decreases remaining(toks, pos), 5nat,
{
    if is_prefix_op(tok_at(toks, pos)) {
        lemma_unary_forward(toks, pos + 1);
    } else {
        lemma_expo_forward(toks, pos);
    }
}

pub proof fn lemma_primary_forward(toks: Seq<Token>, pos: int)
    ensures
        spec_primary(toks, pos) is Ok ==> spec_primary(toks, pos)->Ok_0.1 >= pos,
    decreases remaining(toks, pos), 3nat,
{
    if !(tok_at(toks, pos) is PREV) {
        lemma_accessor_forward(toks, pos);
    }
}

pub proof fn lemma_expo_operand_forward(toks: Seq<Token>, pos: int)
    ensures
        spec_expo_operand(toks, pos) is Ok ==> spec_expo_operand(toks, pos)->Ok_0.1 >= pos,
    decreases remaining(toks, pos), 4nat,
{
    if is_prefix_op(tok_at(toks, pos)) {
        lemma_expo_operand_forward(toks, pos + 1);
    } else {
        lemma_primary_forward(toks, pos);
    }
}

pub proof fn lemma_factor_forward(toks: Seq<Token>, pos: int)
    ensures
        spec_factor(toks, pos) is Ok ==> spec_factor(toks, pos)->Ok_0.1 >= pos,
    decreases remaining(toks, pos), 1nat,
{
    if tok_at(toks, pos) is LPAREN {
        lemma_expr_forward(toks, pos + 1);
    }
}

pub proof fn lemma_print_rest_forward(toks: Seq<Token>, pos: int, alts: Seq<Expression>)
    ensures
        spec_print_rest(toks, pos, alts) is Ok ==> spec_print_rest(toks, pos, alts)->Ok_0.1 >= pos,
    decreases remaining(toks, pos),
{
    if tok_at(toks, pos) is COMMA {
        lemma_expr_forward(toks, pos + 1);
        if spec_expr(toks, pos + 1) is Ok {
            let (e, q) = spec_expr(toks, pos + 1)->Ok_0;
            if q > pos {
                lemma_print_rest_forward(toks, q, alts.push(e));
            }
        }
    }
}

pub proof fn lemma_statement_forward(toks: Seq<Token>, pos: int)
    ensures
        spec_statement(toks, pos) is Ok ==> spec_statement(toks, pos)->Ok_0.1 > pos,
    decreases remaining(toks, pos), 1nat,
{
    let tok = tok_at(toks, pos);
    if tok is IDENTIFIER && tok_at(toks, pos + 1) is ASSIGNMENT {
        lemma_expr_forward(toks, pos + 2);
    } else if tok is BEGIN {
        lemma_block_forward(toks, pos + 1);
    } else if tok is EXPECT {
        lemma_expr_forward(toks, pos + 1);
        if spec_expr(toks, pos + 1) is Ok {
            let q = spec_expr(toks, pos + 1)->Ok_0.1;
            if q > pos {
                lemma_block_forward(toks, q);
            }
        }
    } else if tok is PRINT {
        lemma_expr_forward(toks, pos + 2);
        if spec_expr(toks, pos + 2) is Ok {
            lemma_print_rest_forward(toks, spec_expr(toks, pos + 2)->Ok_0.1, Seq::empty());
        }
    } else if tok is IF {
        lemma_if_forward(toks, pos + 1);
    }
}

pub proof fn lemma_if_forward(toks: Seq<Token>, pos: int)
    ensures
        spec_if(toks, pos) is Ok ==> spec_if(toks, pos)->Ok_0.1 >= pos,
    decreases remaining(toks, pos), 4nat,
{
    lemma_expr_forward(toks, pos);
    if spec_expr(toks, pos) is Ok {
        let q = spec_expr(toks, pos)->Ok_0.1;
        if q >= pos {
            lemma_block_forward(toks, q);
            if spec_block(toks, q) is Ok {
                let q2 = spec_block(toks, q)->Ok_0.1;
                if q2 >= q {
                    lemma_elif_forward(toks, q2, Seq::empty(), Seq::empty());
                    if spec_elif_rest(toks, q2, Seq::empty(), Seq::empty()) is Ok {
                        let q3 = spec_elif_rest(toks, q2, Seq::empty(), Seq::empty())->Ok_0.1;
                        if tok_at(toks, q3) is ELSE {
                            lemma_block_forward(toks, q3 + 1);
                        }
                    }
                }
            }
        }
    }
}

pub proof fn lemma_elif_forward(
    toks: Seq<Token>,
    pos: int,
    alt_exps: Seq<Expression>,
    alt_blocks: Seq<Seq<StatementModel>>,
)
    ensures
        spec_elif_rest(toks, pos, alt_exps, alt_blocks) is Ok ==> spec_elif_rest(
            toks,
            pos,
            alt_exps,
            alt_blocks,
        )->Ok_0.1 >= pos,
    decreases remaining(toks, pos), 2nat,
{
    if tok_at(toks, pos) is ELIF && spec_expr(toks, pos + 1) is Ok {
        let (e, q) = spec_expr(toks, pos + 1)->Ok_0;
        if q > pos && spec_block(toks, q) is Ok {
            let (b, q2) = spec_block(toks, q)->Ok_0;
            if q2 > pos {
                lemma_elif_forward(toks, q2, alt_exps.push(e), alt_blocks.push(b));
            }
        }
    }
}

pub proof fn lemma_block_forward(toks: Seq<Token>, pos: int)
    ensures
        spec_block(toks, pos) is Ok ==> spec_block(toks, pos)->Ok_0.1 >= pos,
    decreases remaining(toks, pos), 3nat,
{
    if tok_at(toks, pos) is LBRACKET && tok_at(toks, pos + 1) is NEWLINE {
        lemma_items_forward(toks, pos + 2, Seq::empty());
    }
}

pub proof fn lemma_items_forward(toks: Seq<Token>, pos: int, acc: Seq<StatementModel>)
    ensures
        spec_items(toks, pos, acc) is Ok ==> spec_items(toks, pos, acc)->Ok_0.1 >= pos,
    decreases remaining(toks, pos), 2nat,
{
    lemma_statement_forward(toks, pos);
    if spec_statement(toks, pos) is Ok {
        let (st, q) = spec_statement(toks, pos)->Ok_0;
        if q >= pos {
            lemma_items_forward(toks, q + 1, acc.push(st));
        }
    }
}

} // verus!
