use vstd::prelude::*;
use crate::code_types::{
    Expression, Statement, StatementType, StatementModel, Program, ProgramModel, block_model,
    blocks_model, exprs_model, statement_model, lemma_block_model_push, lemma_blocks_model_push,
    lemma_exprs_model_push,
};
use crate::grammar::{
    ParseError, is_comp_op, is_prefix_op, logic_node, comp_node, add_node,
    mul_node, prefix_node, Step, at_kind, line_at, missing, missing_identifier, remaining, tok_at, spec_expr,
    spec_logic_rest, spec_comp, spec_comp_rest, spec_add, spec_add_rest, spec_mul, spec_mul_rest,
    spec_unary, spec_primary, spec_expo_operand, spec_expo, spec_expo_rest, spec_accessor, spec_accessor_rest, spec_factor, bare,
    spec_print, spec_print_rest, spec_statement, spec_if, spec_elif_rest, spec_block, spec_items,
    file_statement, spec_body, spec_program,
};
use crate::token::{Token, TokenType};

verus! {

/// The result of an executable parse step agrees with the grammar's step:
/// the same value, and the cursor where the grammar says it stops.
pub open spec fn agrees<T>(r: Result<T, ParseError>, pos: int, s: Step<T>) -> bool {
    match s {
        Ok((v, q)) => r == Ok::<T, ParseError>(v) && pos == q,
        Err(e) => r == Err::<T, ParseError>(e),
    }
}

/// A recursive-descent parser over a finished token sequence, with a cursor
/// that has one token of lookahead.
pub struct Parser {
    tokens: Vec<Token>,
    index: usize,
}

impl Parser {
    /// The tokens being parsed.
    pub closed spec fn toks(&self) -> Seq<Token> {
        self.tokens@
    }

    /// The cursor: the position of the current token.
    pub closed spec fn pos(&self) -> int {
        self.index as int
    }

    pub closed spec fn wf(&self) -> bool {
        self.index <= self.tokens@.len()
    }

    pub fn new(tokens: Vec<Token>) -> (r: Parser)
        ensures
            r.wf(),
            r.toks() == tokens@,
            r.pos() == 0,
    {
        Parser { tokens, index: 0 }
    }

    /// The kind of the token `k` places ahead of the cursor, without
    /// consuming anything; past the end, the end marker.
    fn ahead(&self, k: usize) -> (r: TokenType)
        requires
            self.wf(),
        ensures
            r == tok_at(self.toks(), self.pos() + k),
    {
        if k < self.tokens.len() - self.index {
            self.tokens[self.index + k].token_type.duplicate()
        } else {
            TokenType::NONE
        }
    }

    /// The line of the current token.
    fn line(&self) -> (r: usize)
        requires
            self.wf(),
        ensures
            r == line_at(self.toks(), self.pos()),
    {
        if self.index < self.tokens.len() {
            self.tokens[self.index].line
        } else if self.tokens.len() > 0 {
            self.tokens[self.tokens.len() - 1].line
        } else {
            0
        }
    }

    /// A copy of the current token kind.
    fn current(&self) -> (r: TokenType)
        requires
            self.wf(),
        ensures
            r == tok_at(self.toks(), self.pos()),
    {
        self.ahead(0)
    }

    /// Consumes the current token and returns it; past the end the cursor
    /// stays put and the end marker is returned.
    fn next_token(&mut self) -> (r: TokenType)
        requires
            old(self).wf(),
        ensures
            r == tok_at(old(self).toks(), old(self).pos()),
            final(self).wf(),
            final(self).toks() == old(self).toks(),
            final(self).pos() == if old(self).pos() < old(self).toks().len() {
                old(self).pos() + 1
            } else {
                old(self).pos()
            },
    {
        let t = self.current();
        if self.index < self.tokens.len() {
            self.index = self.index + 1;
        }
        t
    }

    /// Consumes the current token when it is of the kind of `t`.
    fn accept(&mut self, t: &TokenType) -> (r: bool)
        requires
            old(self).wf(),
        ensures
            final(self).wf(),
            final(self).toks() == old(self).toks(),
            r == at_kind(old(self).toks(), old(self).pos(), *t),
            final(self).pos() == if r && old(self).pos() < old(self).toks().len() {
                old(self).pos() + 1
            } else {
                old(self).pos()
            },
    {
        if self.current().equals(t) {
            self.next_token();
            true
        } else {
            false
        }
    }

    /// `accept`, failing with a missing-token error when the kind differs.
    fn expect(&mut self, t: TokenType) -> (r: Result<(), ParseError>)
        requires
            old(self).wf(),
        ensures
            final(self).wf(),
            final(self).toks() == old(self).toks(),
            old(self).pos() <= final(self).pos(),
            at_kind(old(self).toks(), old(self).pos(), t) ==> r is Ok && final(self).pos() == (
            if old(self).pos() < old(self).toks().len() {
                old(self).pos() + 1
            } else {
                old(self).pos()
            }),
            !at_kind(old(self).toks(), old(self).pos(), t) ==> r == Err::<(), ParseError>(
                missing(old(self).toks(), old(self).pos(), t),
            ),
    {
        if self.accept(&t) {
            Ok(())
        } else {
            Err(ParseError::MissingToken { expected: t, found: self.current(), line: self.line() })
        }
    }

    /// Consumes an identifier and returns its name.
    fn expect_identifier(&mut self) -> (r: Result<String, ParseError>)
        requires
            old(self).wf(),
        ensures
            final(self).wf(),
            final(self).toks() == old(self).toks(),
            match tok_at(old(self).toks(), old(self).pos()) {
                TokenType::IDENTIFIER(s) => r == Ok::<String, ParseError>(s) && final(self).pos()
                    == old(self).pos() + 1,
                _ => r == Err::<String, ParseError>(
                    missing_identifier(old(self).toks(), old(self).pos()),
                ) && final(self).pos() == old(self).pos(),
            },
    {
        let cur = self.current();
        match cur {
            TokenType::IDENTIFIER(s) => {
                self.next_token();
                Ok(s)
            },
            found => Err(ParseError::MissingIdentifier { found, line: self.line() }),
        }
    }
}

fn make_binary(op: &TokenType, l: Expression, r: Expression) -> (e: Expression)
    requires
        op is AND || op is OR || is_comp_op(*op) || op is ADDOP || op is SUBOP || op is MULOP
            || op is DIVOP || op is MODOP,
    ensures
        (op is AND || op is OR) ==> e == logic_node(*op, l, r),
        is_comp_op(*op) ==> e == comp_node(*op, l, r),
        (op is ADDOP || op is SUBOP) ==> e == add_node(*op, l, r),
        (op is MULOP || op is DIVOP || op is MODOP) ==> e == mul_node(*op, l, r),
{
    let (l, r) = (Box::new(l), Box::new(r));
    match op {
        TokenType::AND => Expression::AND(l, r),
        TokenType::OR => Expression::OR(l, r),
        TokenType::GETHANOP => Expression::GTHE(l, r),
        TokenType::GTHANOP => Expression::GTH(l, r),
        TokenType::EQUALOP => Expression::EQU(l, r),
        TokenType::NOTEQUALOP => Expression::NEQU(l, r),
        TokenType::LTHANOP => Expression::LTH(l, r),
        TokenType::LETHANOP => Expression::LTHE(l, r),
        TokenType::ADDOP => Expression::ADD(l, r),
        TokenType::SUBOP => Expression::SUB(l, r),
        TokenType::MULOP => Expression::MUL(l, r),
        TokenType::DIVOP => Expression::DIV(l, r),
        _ => Expression::MOD(l, r),
    }
}

fn make_prefix(op: &TokenType, e: Expression) -> (r: Expression)
    requires
        is_prefix_op(*op),
    ensures
        r == prefix_node(*op, e),
{
    let e = Box::new(e);
    match op {
        TokenType::NOT => Expression::NOT(e),
        TokenType::FACTORIAL => Expression::FACTORIAL(e),
        TokenType::SUBOP => Expression::UMIN(e),
        _ => Expression::ABS(e),
    }
}

impl Parser {
    /// and / or, left-associative.
    #[verifier::spinoff_prover]
    fn expr(&mut self) -> (r: Result<Expression, ParseError>)
        requires
            old(self).wf(),
        ensures
            final(self).wf(),
            final(self).toks() == old(self).toks(),
            old(self).pos() <= final(self).pos(),
            agrees(r, final(self).pos(), spec_expr(old(self).toks(), old(self).pos())),
        decreases remaining(self.toks(), self.pos()), 9nat,
    {
        let ghost t = self.toks();
        let ghost start = self.pos();
        let mut lhs = match self.expr_comp() {
            Ok(e) => e,
            Err(e) => return Err(e),
        };
        loop
            invariant
                self.wf(),
                self.toks() == t,
                t == old(self).toks(),
                start == old(self).pos(),
                start <= self.pos(),
                spec_expr(t, start) == spec_logic_rest(t, self.pos(), lhs),
            decreases remaining(t, self.pos()),
        {
            let op = self.current();
            if !matches!(op, TokenType::AND | TokenType::OR) {
                return Ok(lhs);
            }
            let ghost here = self.pos();
            let ghost l1 = lhs;
            self.next_token();
            let rhs = match self.expr_comp() {
                Ok(e) => e,
                Err(e) => return Err(e),
            };
            lhs = make_binary(&op, lhs, rhs);
            assert(spec_logic_rest(t, here, l1) == spec_logic_rest(t, self.pos(), lhs));
        }
    }

    /// = != > >= < <=, left-associative.
    #[verifier::spinoff_prover]
    fn expr_comp(&mut self) -> (r: Result<Expression, ParseError>)
        requires
            old(self).wf(),
        ensures
            final(self).wf(),
            final(self).toks() == old(self).toks(),
            old(self).pos() <= final(self).pos(),
            agrees(r, final(self).pos(), spec_comp(old(self).toks(), old(self).pos())),
        decreases remaining(self.toks(), self.pos()), 8nat,
    {
        let ghost t = self.toks();
        let ghost start = self.pos();
        let mut lhs = match self.expr_add() {
            Ok(e) => e,
            Err(e) => return Err(e),
        };
        loop
            invariant
                self.wf(),
                self.toks() == t,
                t == old(self).toks(),
                start == old(self).pos(),
                start <= self.pos(),
                spec_comp(t, start) == spec_comp_rest(t, self.pos(), lhs),
            decreases remaining(t, self.pos()),
        {
            let op = self.current();
            if !matches!(
                op,
                TokenType::GETHANOP | TokenType::GTHANOP | TokenType::EQUALOP | TokenType::NOTEQUALOP
                    | TokenType::LTHANOP | TokenType::LETHANOP
            ) {
                return Ok(lhs);
            }
            let ghost here = self.pos();
            let ghost l1 = lhs;
            self.next_token();
            let rhs = match self.expr_add() {
                Ok(e) => e,
                Err(e) => return Err(e),
            };
            lhs = make_binary(&op, lhs, rhs);
            assert(spec_comp_rest(t, here, l1) == spec_comp_rest(t, self.pos(), lhs));
        }
    }

    /// + -, left-associative.
    #[verifier::spinoff_prover]
    fn expr_add(&mut self) -> (r: Result<Expression, ParseError>)
        requires
            old(self).wf(),
        ensures
            final(self).wf(),
            final(self).toks() == old(self).toks(),
            old(self).pos() <= final(self).pos(),
            agrees(r, final(self).pos(), spec_add(old(self).toks(), old(self).pos())),
        decreases remaining(self.toks(), self.pos()), 7nat,
    {
        let ghost t = self.toks();
        let ghost start = self.pos();
        let mut lhs = match self.expr_mul() {
            Ok(e) => e,
            Err(e) => return Err(e),
        };
        loop
            invariant
                self.wf(),
                self.toks() == t,
                t == old(self).toks(),
                start == old(self).pos(),
                start <= self.pos(),
                spec_add(t, start) == spec_add_rest(t, self.pos(), lhs),
            decreases remaining(t, self.pos()),
        {
            let op = self.current();
            if !matches!(op, TokenType::ADDOP | TokenType::SUBOP) {
                return Ok(lhs);
            }
            let ghost here = self.pos();
            let ghost l1 = lhs;
            self.next_token();
            let rhs = match self.expr_mul() {
                Ok(e) => e,
                Err(e) => return Err(e),
            };
            lhs = make_binary(&op, lhs, rhs);
            assert(spec_add_rest(t, here, l1) == spec_add_rest(t, self.pos(), lhs));
        }
    }

    /// * / mod, left-associative.
    #[verifier::spinoff_prover]
    fn expr_mul(&mut self) -> (r: Result<Expression, ParseError>)
        requires
            old(self).wf(),
        ensures
            final(self).wf(),
            final(self).toks() == old(self).toks(),
            old(self).pos() <= final(self).pos(),
            agrees(r, final(self).pos(), spec_mul(old(self).toks(), old(self).pos())),
        decreases remaining(self.toks(), self.pos()), 6nat,
    {
        let ghost t = self.toks();
        let ghost start = self.pos();
        let mut lhs = match self.unary_fact() {
            Ok(e) => e,
            Err(e) => return Err(e),
        };
        loop
            invariant
                self.wf(),
                self.toks() == t,
                t == old(self).toks(),
                start == old(self).pos(),
                start <= self.pos(),
                spec_mul(t, start) == spec_mul_rest(t, self.pos(), lhs),
            decreases remaining(t, self.pos()),
        {
            let op = self.current();
            if !matches!(op, TokenType::MULOP | TokenType::DIVOP | TokenType::MODOP) {
                return Ok(lhs);
            }
            let ghost here = self.pos();
            let ghost l1 = lhs;
            self.next_token();
            let rhs = match self.unary_fact() {
                Ok(e) => e,
                Err(e) => return Err(e),
            };
            lhs = make_binary(&op, lhs, rhs);
            assert(spec_mul_rest(t, here, l1) == spec_mul_rest(t, self.pos(), lhs));
        }
    }

    /// Leading prefix operators over the exponent tier.
    fn unary_fact(&mut self) -> (r: Result<Expression, ParseError>)
        requires
            old(self).wf(),
        ensures
            final(self).wf(),
            final(self).toks() == old(self).toks(),
            old(self).pos() <= final(self).pos(),
            agrees(r, final(self).pos(), spec_unary(old(self).toks(), old(self).pos())),
        decreases remaining(self.toks(), self.pos()), 5nat,
    {
        let op = self.current();
        if matches!(op, TokenType::NOT | TokenType::FACTORIAL | TokenType::SUBOP | TokenType::VERTICALBAR) {
            self.next_token();
            match self.unary_fact() {
                Ok(e) => Ok(make_prefix(&op, e)),
                Err(e) => Err(e),
            }
        } else {
            self.expr_expo()
        }
    }

    /// `prev <identifier>`, or an accessor chain.
    fn primary(&mut self) -> (r: Result<Expression, ParseError>)
        requires
            old(self).wf(),
        ensures
            final(self).wf(),
            final(self).toks() == old(self).toks(),
            old(self).pos() <= final(self).pos(),
            agrees(r, final(self).pos(), spec_primary(old(self).toks(), old(self).pos())),
        decreases remaining(self.toks(), self.pos()), 3nat,
    {
        if self.accept(&TokenType::PREV) {
            let name = self.expect_identifier()?;
            Ok(Expression::PREV(name))
        } else {
            self.accessor_factor()
        }
    }

    /// The right operand of `^`: prefix operators over a primary.
    fn expo_operand(&mut self) -> (r: Result<Expression, ParseError>)
        requires
            old(self).wf(),
        ensures
            final(self).wf(),
            final(self).toks() == old(self).toks(),
            old(self).pos() <= final(self).pos(),
            agrees(r, final(self).pos(), spec_expo_operand(old(self).toks(), old(self).pos())),
        decreases remaining(self.toks(), self.pos()), 4nat,
    {
        let op = self.current();
        if matches!(op, TokenType::NOT | TokenType::FACTORIAL | TokenType::SUBOP | TokenType::VERTICALBAR) {
            self.next_token();
            match self.expo_operand() {
                Ok(e) => Ok(make_prefix(&op, e)),
                Err(e) => Err(e),
            }
        } else {
            self.primary()
        }
    }

    /// ^, left-associative.
    #[verifier::spinoff_prover]
    fn expr_expo(&mut self) -> (r: Result<Expression, ParseError>)
        requires
            old(self).wf(),
        ensures
            final(self).wf(),
            final(self).toks() == old(self).toks(),
            old(self).pos() <= final(self).pos(),
            agrees(r, final(self).pos(), spec_expo(old(self).toks(), old(self).pos())),
        decreases remaining(self.toks(), self.pos()), 4nat,
    {
        let ghost t = self.toks();
        let ghost start = self.pos();
        let mut lhs = match self.primary() {
            Ok(e) => e,
            Err(e) => return Err(e),
        };
        loop
            invariant
                self.wf(),
                self.toks() == t,
                t == old(self).toks(),
                start == old(self).pos(),
                start <= self.pos(),
                spec_expo(t, start) == spec_expo_rest(t, self.pos(), lhs),
            decreases remaining(t, self.pos()),
        {
            let ghost here = self.pos();
            let ghost l1 = lhs;
            if !self.accept(&TokenType::EXPONENT) {
                return Ok(lhs);
            }
            let rhs = match self.expo_operand() {
                Ok(e) => e,
                Err(e) => return Err(e),
            };
            lhs = Expression::EXPONENT(Box::new(lhs), Box::new(rhs));
            assert(spec_expo_rest(t, here, l1) == spec_expo_rest(t, self.pos(), lhs));
        }
    }

    /// Accessor chains, left-associative; one operand of each accessor must
    /// be an identifier.
    #[verifier::spinoff_prover]
    fn accessor_factor(&mut self) -> (r: Result<Expression, ParseError>)
        requires
            old(self).wf(),
        ensures
            final(self).wf(),
            final(self).toks() == old(self).toks(),
            old(self).pos() <= final(self).pos(),
            agrees(r, final(self).pos(), spec_accessor(old(self).toks(), old(self).pos())),
        decreases remaining(self.toks(), self.pos()), 2nat,
    {
        let ghost t = self.toks();
        let ghost start = self.pos();
        let mut lhs = match self.factor() {
            Ok(e) => e,
            Err(e) => return Err(e),
        };
        loop
            invariant
                self.wf(),
                self.toks() == t,
                t == old(self).toks(),
                start == old(self).pos(),
                start <= self.pos(),
                spec_accessor(t, start) == spec_accessor_rest(t, self.pos(), lhs),
            decreases remaining(t, self.pos()),
        {
            let ghost here = self.pos();
            let ghost l1 = lhs;
            if !self.accept(&TokenType::ACCESSOR) {
                return Ok(lhs);
            }
            let rhs = match self.factor() {
                Ok(e) => e,
                Err(e) => return Err(e),
            };
            if !matches!(lhs, Expression::IDENTIFIER(_)) && !matches!(rhs, Expression::IDENTIFIER(_)) {
                return Err(ParseError::InvalidAccessor { line: self.line() });
            }
            lhs = Expression::ACCESSOR(Box::new(lhs), Box::new(rhs));
            assert(spec_accessor_rest(t, here, l1) == spec_accessor_rest(t, self.pos(), lhs));
        }
    }

    /// An identifier, a literal, or a parenthesised expression.
    #[verifier::spinoff_prover]
    #[verifier::rlimit(60)]
    fn factor(&mut self) -> (r: Result<Expression, ParseError>)
        requires
            old(self).wf(),
        ensures
            final(self).wf(),
            final(self).toks() == old(self).toks(),
            old(self).pos() <= final(self).pos(),
            agrees(r, final(self).pos(), spec_factor(old(self).toks(), old(self).pos())),
        decreases remaining(self.toks(), self.pos()), 1nat,
    {
        let line = self.line();
        let cur = self.current();
        match cur {
            TokenType::IDENTIFIER(s) => {
                self.next_token();
                Ok(Expression::IDENTIFIER(s))
            },
            TokenType::INTEGER(x) => {
                self.next_token();
                Ok(Expression::INTEGER(x))
            },
            TokenType::FLOAT(x) => {
                self.next_token();
                Ok(Expression::FLOAT(x))
            },
            TokenType::TRUE => {
                self.next_token();
                Ok(Expression::BOOL(true))
            },
            TokenType::FALSE => {
                self.next_token();
                Ok(Expression::BOOL(false))
            },
            TokenType::LPAREN => {
                self.next_token();
                let e = match self.expr() {
                    Ok(e) => e,
                    Err(e) => return Err(e),
                };
                match self.expect(TokenType::RPAREN) {
                    Ok(()) => Ok(e),
                    Err(err) => Err(err),
                }
            },
            found => Err(ParseError::MalformedExpression { found, line }),
        }
    }
}

/// A statement parse agrees with the grammar, up to the statement's model.
pub open spec fn agrees_statement(
    r: Result<Statement, ParseError>,
    pos: int,
    s: Step<StatementModel>,
) -> bool {
    match s {
        Ok((m, q)) => r is Ok && statement_model(r->Ok_0) == m && pos == q,
        Err(e) => r == Err::<Statement, ParseError>(e),
    }
}

/// A block parse agrees with the grammar, up to the block's model.
pub open spec fn agrees_block(
    r: Result<Vec<Statement>, ParseError>,
    pos: int,
    s: Step<Seq<StatementModel>>,
) -> bool {
    match s {
        Ok((m, q)) => r is Ok && block_model(r->Ok_0@) == m && pos == q,
        Err(e) => r == Err::<Vec<Statement>, ParseError>(e),
    }
}

/// A statement of the given kind with every other field empty.
fn bare_statement(kind: StatementType) -> (r: Statement)
    ensures
        r@ == bare(kind),
        r.alt_code_blocks@.len() == 0,
        r.alt_exps@.len() == 0,
{
    let r = Statement {
        statement_type: kind,
        var_name: None,
        code_block: None,
        expr: None,
        alt_code_blocks: Vec::new(),
        alt_exps: Vec::new(),
    };
    assert(exprs_model(r.alt_exps@) =~= Seq::empty());
    r
}

/// A `print` statement from its arguments.
fn print_statement(e: Expression, alts: Vec<Box<Expression>>) -> (r: Statement)
    ensures
        r@ == (StatementModel {
            expr: Some(e),
            alt_exps: exprs_model(alts@),
            ..bare(StatementType::PRINT)
        }),
{
    let r = Statement {
        statement_type: StatementType::PRINT,
        var_name: None,
        code_block: None,
        expr: Some(Box::new(e)),
        alt_code_blocks: Vec::new(),
        alt_exps: alts,
    };
    assert(blocks_model(r.alt_code_blocks@) =~= Seq::empty());
    r
}

/// An `if` statement from its parts.
fn if_statement(
    c: Expression,
    b: Vec<Statement>,
    alt_exps: Vec<Box<Expression>>,
    alt_blocks: Vec<Vec<Statement>>,
) -> (r: Statement)
    ensures
        r@ == (StatementModel {
            expr: Some(c),
            code_block: Some(block_model(b@)),
            alt_exps: exprs_model(alt_exps@),
            alt_code_blocks: blocks_model(alt_blocks@),
            ..bare(StatementType::IF)
        }),
{
    Statement {
        statement_type: StatementType::IF,
        var_name: None,
        code_block: Some(b),
        expr: Some(Box::new(c)),
        alt_code_blocks: alt_blocks,
        alt_exps,
    }
}

impl Parser {
    /// A nested block. The statement being built by the caller is not
    /// touched: the block is returned, not stored.
    #[verifier::spinoff_prover]
    fn code_block(&mut self) -> (r: Result<Vec<Statement>, ParseError>)
        requires
            old(self).wf(),
        ensures
            final(self).wf(),
            final(self).toks() == old(self).toks(),
            old(self).pos() <= final(self).pos(),
            agrees_block(r, final(self).pos(), spec_block(old(self).toks(), old(self).pos())),
        decreases remaining(self.toks(), self.pos()), 3nat,
    {
        let ghost t = self.toks();
        let ghost start = self.pos();
        self.expect(TokenType::LBRACKET)?;
        self.expect(TokenType::NEWLINE)?;
        let mut items: Vec<Statement> = Vec::new();
        assert(block_model(items@) =~= Seq::empty());
        loop
            invariant
                self.wf(),
                self.toks() == t,
                t == old(self).toks(),
                start == old(self).pos(),
                start < self.pos(),
                spec_block(t, start) == spec_items(t, self.pos(), block_model(items@)),
            decreases remaining(t, self.pos()),
        {
            let ghost here = self.pos();
            let st = self.statement()?;
            self.expect(TokenType::NEWLINE)?;
            proof {
                lemma_block_model_push(items@, st);
            }
            items.push(st);
            if self.accept(&TokenType::RBRACKET) {
                return Ok(items);
            }
        }
    }

    /// One statement.
    #[verifier::spinoff_prover]
    fn statement(&mut self) -> (r: Result<Statement, ParseError>)
        requires
            old(self).wf(),
        ensures
            final(self).wf(),
            final(self).toks() == old(self).toks(),
            old(self).pos() <= final(self).pos(),
            agrees_statement(r, final(self).pos(), spec_statement(old(self).toks(), old(self).pos())),
        decreases remaining(self.toks(), self.pos()), 1nat,
    {
        let cur = self.current();
        if matches!(cur, TokenType::IDENTIFIER(_)) && matches!(self.ahead(1), TokenType::ASSIGNMENT) {
            return self.parse_stmt_assign();
        }
        match cur {
            TokenType::BEGIN => {
                self.next_token();
                self.parse_stmt_begin()
            },
            TokenType::EXPECT => {
                self.next_token();
                self.parse_stmt_expect()
            },
            TokenType::REVEAL => {
                self.next_token();
                self.parse_stmt_reveal()
            },
            TokenType::PRINT => {
                self.next_token();
                self.parse_stmt_print()
            },
            TokenType::IF => {
                self.next_token();
                self.parse_stmt_if()
            },
            found => Err(ParseError::UnknownStatement { found, line: self.line() }),
        }
    }

    /// `<identifier> = <expr>`.
    fn parse_stmt_assign(&mut self) -> (r: Result<Statement, ParseError>)
        requires
            old(self).wf(),
            tok_at(old(self).toks(), old(self).pos()) is IDENTIFIER,
            tok_at(old(self).toks(), old(self).pos() + 1) is ASSIGNMENT,
        ensures
            final(self).wf(),
            final(self).toks() == old(self).toks(),
            old(self).pos() <= final(self).pos(),
            agrees_statement(r, final(self).pos(), spec_statement(old(self).toks(), old(self).pos())),
    {
        let name = self.expect_identifier()?;
        self.expect(TokenType::ASSIGNMENT)?;
        let e = self.expr()?;
        let mut st = bare_statement(StatementType::ASSIGN);
        st.var_name = Some(name);
        st.expr = Some(Box::new(e));
        Ok(st)
    }

    /// `begin <block>`, after the keyword.
    fn parse_stmt_begin(&mut self) -> (r: Result<Statement, ParseError>)
        requires
            old(self).wf(),
            old(self).pos() >= 1,
            tok_at(old(self).toks(), old(self).pos() - 1) is BEGIN,
        ensures
            final(self).wf(),
            final(self).toks() == old(self).toks(),
            old(self).pos() <= final(self).pos(),
            agrees_statement(r, final(self).pos(), spec_statement(old(self).toks(), old(self).pos() - 1)),
        decreases remaining(self.toks(), self.pos()), 4nat,
    {
        let b = self.code_block()?;
        let mut st = bare_statement(StatementType::BEGIN);
        st.code_block = Some(b);
        Ok(st)
    }

    /// `expect <expr> <block>`, after the keyword.
    fn parse_stmt_expect(&mut self) -> (r: Result<Statement, ParseError>)
        requires
            old(self).wf(),
            old(self).pos() >= 1,
            tok_at(old(self).toks(), old(self).pos() - 1) is EXPECT,
        ensures
            final(self).wf(),
            final(self).toks() == old(self).toks(),
            old(self).pos() <= final(self).pos(),
            agrees_statement(r, final(self).pos(), spec_statement(old(self).toks(), old(self).pos() - 1)),
        decreases remaining(self.toks(), self.pos()), 4nat,
    {
        let e = self.expr()?;
        let b = self.code_block()?;
        let mut st = bare_statement(StatementType::EXPECT);
        st.expr = Some(Box::new(e));
        st.code_block = Some(b);
        Ok(st)
    }

    /// `reveal <identifier>`, after the keyword.
    fn parse_stmt_reveal(&mut self) -> (r: Result<Statement, ParseError>)
        requires
            old(self).wf(),
            old(self).pos() >= 1,
            tok_at(old(self).toks(), old(self).pos() - 1) is REVEAL,
        ensures
            final(self).wf(),
            final(self).toks() == old(self).toks(),
            old(self).pos() <= final(self).pos(),
            agrees_statement(r, final(self).pos(), spec_statement(old(self).toks(), old(self).pos() - 1)),
    {
        let name = self.expect_identifier()?;
        let mut st = bare_statement(StatementType::REVEAL);
        st.var_name = Some(name);
        Ok(st)
    }

    /// `print(...)`, after the keyword.
    #[verifier::spinoff_prover]
    #[verifier::rlimit(60)]
    fn parse_stmt_print(&mut self) -> (r: Result<Statement, ParseError>)
        requires
            old(self).wf(),
        ensures
            final(self).wf(),
            final(self).toks() == old(self).toks(),
            old(self).pos() <= final(self).pos(),
            agrees_statement(r, final(self).pos(), spec_print(old(self).toks(), old(self).pos())),
    {
        let ghost t = self.toks();
        let ghost start = self.pos();
        self.expect(TokenType::LPAREN)?;
        if self.accept(&TokenType::RPAREN) {
            let none: Vec<Box<Expression>> = Vec::new();
            assert(exprs_model(none@) =~= Seq::empty());
            return Ok(print_statement(Expression::NONE, none));
        }
        self.print_arguments()
    }

    /// The arguments of a non-empty `print`, after its `(`, and the `)`.
    #[verifier::spinoff_prover]
    #[verifier::rlimit(60)]
    fn print_arguments(&mut self) -> (r: Result<Statement, ParseError>)
        requires
            old(self).wf(),
            old(self).pos() >= 1,
            tok_at(old(self).toks(), old(self).pos() - 1) is LPAREN,
            !(tok_at(old(self).toks(), old(self).pos()) is RPAREN),
        ensures
            final(self).wf(),
            final(self).toks() == old(self).toks(),
            old(self).pos() <= final(self).pos(),
            agrees_statement(r, final(self).pos(), spec_print(old(self).toks(), old(self).pos() - 1)),
    {
        let ghost t = self.toks();
        let ghost start = self.pos() - 1;
        let e = self.expr()?;
        let ghost q = self.pos();
        let alts = self.print_rest()?;
        let ghost q2 = self.pos();
        assert(spec_print_rest(t, q, Seq::empty()) == Ok::<(Seq<Expression>, int), ParseError>(
            (exprs_model(alts@), q2),
        ));
        self.expect(TokenType::RPAREN)?;
        assert(spec_print(t, start) == Ok::<(StatementModel, int), ParseError>(
            (
                StatementModel {
                    expr: Some(e),
                    alt_exps: exprs_model(alts@),
                    ..bare(StatementType::PRINT)
                },
                self.pos(),
            ),
        ));
        Ok(print_statement(e, alts))
    }

    /// Zero or more `, <expr>`: the further arguments of `print`.
    #[verifier::spinoff_prover]
    fn print_rest(&mut self) -> (r: Result<Vec<Box<Expression>>, ParseError>)
        requires
            old(self).wf(),
        ensures
            final(self).wf(),
            final(self).toks() == old(self).toks(),
            old(self).pos() <= final(self).pos(),
            match spec_print_rest(old(self).toks(), old(self).pos(), Seq::empty()) {
                Ok((a, q)) => r is Ok && exprs_model(r->Ok_0@) == a && final(self).pos() == q,
                Err(e) => r == Err::<Vec<Box<Expression>>, ParseError>(e),
            },
    {
        let ghost t = self.toks();
        let ghost start = self.pos();
        let mut alts: Vec<Box<Expression>> = Vec::new();
        assert(exprs_model(alts@) =~= Seq::empty());
        loop
            invariant
                self.wf(),
                self.toks() == t,
                t == old(self).toks(),
                start == old(self).pos(),
                start <= self.pos(),
                spec_print_rest(t, start, Seq::empty()) == spec_print_rest(
                    t,
                    self.pos(),
                    exprs_model(alts@),
                ),
            decreases remaining(t, self.pos()),
        {
            let ghost here = self.pos();
            let ghost a1 = exprs_model(alts@);
            if !self.accept(&TokenType::COMMA) {
                return Ok(alts);
            }
            let a = self.expr()?;
            proof {
                lemma_exprs_model_push(alts@, Box::new(a));
            }
            alts.push(Box::new(a));
            assert(spec_print_rest(t, here, a1) == spec_print_rest(t, self.pos(), exprs_model(alts@)));
        }
    }

    /// Zero or more `elif <expr> <block>` branches: their conditions and
    /// blocks, in order.
    #[verifier::spinoff_prover]
    fn elif_branches(&mut self) -> (r: Result<(Vec<Box<Expression>>, Vec<Vec<Statement>>), ParseError>)
        requires
            old(self).wf(),
        ensures
            final(self).wf(),
            final(self).toks() == old(self).toks(),
            old(self).pos() <= final(self).pos(),
            match spec_elif_rest(old(self).toks(), old(self).pos(), Seq::empty(), Seq::empty()) {
                Ok(((ae, ab), q)) => r is Ok && exprs_model(r->Ok_0.0@) == ae && blocks_model(
                    r->Ok_0.1@,
                ) == ab && final(self).pos() == q,
                Err(e) => r == Err::<(Vec<Box<Expression>>, Vec<Vec<Statement>>), ParseError>(e),
            },
        decreases remaining(self.toks(), self.pos()), 2nat,
    {
        let ghost t = self.toks();
        let ghost start = self.pos();
        let mut alt_exps: Vec<Box<Expression>> = Vec::new();
        let mut alt_blocks: Vec<Vec<Statement>> = Vec::new();
        assert(exprs_model(alt_exps@) =~= Seq::empty());
        assert(blocks_model(alt_blocks@) =~= Seq::empty());
        loop
            invariant
                self.wf(),
                self.toks() == t,
                t == old(self).toks(),
                start == old(self).pos(),
                start <= self.pos(),
                spec_elif_rest(t, start, Seq::empty(), Seq::empty()) == spec_elif_rest(
                    t,
                    self.pos(),
                    exprs_model(alt_exps@),
                    blocks_model(alt_blocks@),
                ),
            decreases remaining(t, self.pos()),
        {
            let ghost here = self.pos();
            let ghost ae1 = exprs_model(alt_exps@);
            let ghost ab1 = blocks_model(alt_blocks@);
            if !self.accept(&TokenType::ELIF) {
                return Ok((alt_exps, alt_blocks));
            }
            let e = self.expr()?;
            let blk = self.code_block()?;
            proof {
                lemma_exprs_model_push(alt_exps@, Box::new(e));
                lemma_blocks_model_push(alt_blocks@, blk);
            }
            alt_exps.push(Box::new(e));
            alt_blocks.push(blk);
            assert(spec_elif_rest(t, here, ae1, ab1) == spec_elif_rest(
                t,
                self.pos(),
                exprs_model(alt_exps@),
                blocks_model(alt_blocks@),
            ));
        }
    }

    /// `if <expr> <block>`, `elif` branches and an optional `else`, after
    /// the keyword.
    #[verifier::spinoff_prover]
    #[verifier::rlimit(60)]
    fn parse_stmt_if(&mut self) -> (r: Result<Statement, ParseError>)
        requires
            old(self).wf(),
        ensures
            final(self).wf(),
            final(self).toks() == old(self).toks(),
            old(self).pos() <= final(self).pos(),
            agrees_statement(r, final(self).pos(), spec_if(old(self).toks(), old(self).pos())),
        decreases remaining(self.toks(), self.pos()), 4nat,
    {
        let ghost t = self.toks();
        let ghost start = self.pos();
        let c = self.expr()?;
        let ghost q = self.pos();
        let b = self.code_block()?;
        let ghost q2 = self.pos();
        let (alt_exps, mut alt_blocks) = self.elif_branches()?;
        let ghost q3 = self.pos();
        let ghost st0 = StatementModel {
            expr: Some(c),
            code_block: Some(block_model(b@)),
            alt_exps: exprs_model(alt_exps@),
            alt_code_blocks: blocks_model(alt_blocks@),
            ..bare(StatementType::IF)
        };
        if self.accept(&TokenType::ELSE) {
            let eb = self.code_block()?;
            let ghost q4 = self.pos();
            let ghost ebm = block_model(eb@);
            assert(spec_block(t, q3 + 1) == Ok::<(Seq<StatementModel>, int), ParseError>((ebm, q4)));
            assert(spec_if(t, start) == Ok::<(StatementModel, int), ParseError>(
                (StatementModel { alt_code_blocks: st0.alt_code_blocks.push(ebm), ..st0 }, q4),
            ));
            proof {
                lemma_blocks_model_push(alt_blocks@, eb);
            }
            alt_blocks.push(eb);
            Ok(if_statement(c, b, alt_exps, alt_blocks))
        } else {
            assert(spec_if(t, start) == Ok::<(StatementModel, int), ParseError>((st0, q3)));
            Ok(if_statement(c, b, alt_exps, alt_blocks))
        }
    }
}

/// A program parse agrees with the grammar, up to the program's model.
pub open spec fn agrees_program(r: Result<Program, ParseError>, s: Result<ProgramModel, ParseError>) -> bool {
    match s {
        Ok(m) => r is Ok && r->Ok_0@ == m,
        Err(e) => r == Err::<Program, ParseError>(e),
    }
}

/// The empty program.
pub open spec fn empty_program() -> ProgramModel {
    ProgramModel { begin: None, expect: None, body: Seq::empty() }
}

/// Files a finished top-level statement into the program.
fn file(prog: &mut Program, st: Statement)
    ensures
        final(prog)@ == file_statement(old(prog)@, st@),
{
    match st.statement_type {
        StatementType::BEGIN => prog.begin = Some(st),
        StatementType::EXPECT => prog.expect = Some(st),
        _ => {
            proof {
                lemma_block_model_push(prog.body@, st);
            }
            prog.body.push(st);
        },
    }
}

impl Parser {
    /// Top-level statements, each followed by a line break, until the end
    /// marker.
    #[verifier::spinoff_prover]
    #[verifier::rlimit(60)]
    fn body(&mut self) -> (r: Result<Program, ParseError>)
        requires
            old(self).wf(),
        ensures
            final(self).wf(),
            final(self).toks() == old(self).toks(),
            agrees_program(r, spec_body(old(self).toks(), old(self).pos(), empty_program())),
    {
        let ghost t = self.toks();
        let ghost start = self.pos();
        let mut prog = Program { begin: None, expect: None, body: Vec::new() };
        assert(prog@ =~= empty_program());
        loop
            invariant
                self.wf(),
                self.toks() == t,
                t == old(self).toks(),
                start == old(self).pos(),
                spec_body(t, start, empty_program()) == spec_body(t, self.pos(), prog@),
            decreases remaining(t, self.pos()),
        {
            let ghost here = self.pos();
            let ghost m1 = prog@;
            let st = self.statement()?;
            let ghost q = self.pos();
            let ghost sm = st@;
            assert(spec_statement(t, here) == Ok::<(StatementModel, int), ParseError>((sm, q)));
            self.expect(TokenType::NEWLINE)?;
            file(&mut prog, st);
            if self.accept(&TokenType::NONE) {
                assert(spec_body(t, here, m1) == Ok::<ProgramModel, ParseError>(prog@));
                return Ok(prog);
            }
            assert(spec_body(t, here, m1) == spec_body(t, self.pos(), prog@));
        }
    }

    /// Parses the whole program from the cursor on: a complete program, or
    /// the first error.
    pub fn run(&mut self) -> (r: Result<Program, ParseError>)
        requires
            old(self).wf(),
        ensures
            final(self).wf(),
            final(self).toks() == old(self).toks(),
            agrees_program(r, spec_body(old(self).toks(), old(self).pos(), empty_program())),
    {
        self.body()
    }
}

/// Parses a token sequence into a program, or returns the first error.
pub fn parse(tokens: Vec<Token>) -> (r: Result<Program, ParseError>)
    ensures
        agrees_program(r, spec_program(tokens@)),
{
    let mut p = Parser::new(tokens);
    assert(spec_program(tokens@) == spec_body(tokens@, 0, empty_program()));
    p.run()
}

} // verus!
