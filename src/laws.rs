use vstd::prelude::*;
use crate::code_types::{Expression, StatementType, StatementModel};
use crate::grammar::{
    ParseError, is_prefix_op, missing_identifier, remaining, tok_at, spec_expr, spec_unary,
    spec_primary, spec_expo, spec_block, spec_factor, spec_expo_operand, spec_mul, spec_add,
    spec_accessor_rest, spec_expo_rest, spec_mul_rest, spec_add_rest, mul_node, add_node,
    spec_elif_rest, spec_statement, lemma_expr_forward, lemma_block_forward, lemma_elif_forward,
};
use crate::token::Token;

verus! {

/// `prev` takes exactly one bare identifier: followed by an identifier it
/// is a leaf naming it; followed by anything else (a parenthesised
/// expression included) the expression fails with a missing identifier.
pub proof fn lemma_prev_bare_identifier(toks: Seq<Token>, pos: int)
    requires
        tok_at(toks, pos) is PREV,
    ensures
        tok_at(toks, pos + 1) is IDENTIFIER ==> spec_primary(toks, pos) == Ok::<
            (Expression, int),
            ParseError,
        >((Expression::PREV(tok_at(toks, pos + 1)->IDENTIFIER_0), pos + 2)),
        !(tok_at(toks, pos + 1) is IDENTIFIER) ==> spec_unary(toks, pos) == Err::<
            (Expression, int),
            ParseError,
        >(missing_identifier(toks, pos + 1)),
{
    if !(tok_at(toks, pos + 1) is IDENTIFIER) {
        let err = Err::<(Expression, int), ParseError>(missing_identifier(toks, pos + 1));
        assert(spec_primary(toks, pos) == err);
        assert(spec_expo(toks, pos) == err);
    }
}

/// A leading unary minus wraps the whole exponent expression that follows
/// it: `-x ^ y` is minus applied to `x ^ y`, never `(-x) ^ y`.
#[verifier::spinoff_prover]
pub proof fn lemma_minus_wraps_exponent(toks: Seq<Token>, pos: int)
    requires
        tok_at(toks, pos) is SUBOP,
        !is_prefix_op(tok_at(toks, pos + 1)),
    ensures
        spec_unary(toks, pos) == (match spec_expo(toks, pos + 1) {
            Ok((e, q)) => Ok((Expression::UMIN(Box::new(e)), q)),
            Err(err) => Err::<(Expression, int), ParseError>(err),
        }),
{
    assert(spec_unary(toks, pos + 1) == spec_expo(toks, pos + 1));
}

/// An `elif` chain grows its condition list and its block list together.
pub proof fn lemma_elif_parallel(
    toks: Seq<Token>,
    pos: int,
    alt_exps: Seq<Expression>,
    alt_blocks: Seq<Seq<StatementModel>>,
)
    requires
        alt_exps.len() == alt_blocks.len(),
        spec_elif_rest(toks, pos, alt_exps, alt_blocks) is Ok,
    ensures
        spec_elif_rest(toks, pos, alt_exps, alt_blocks)->Ok_0.0.0.len() == spec_elif_rest(
            toks,
            pos,
            alt_exps,
            alt_blocks,
        )->Ok_0.0.1.len(),
    decreases remaining(toks, pos),
{
    if tok_at(toks, pos) is ELIF {
        let (e, q) = spec_expr(toks, pos + 1)->Ok_0;
        if q > pos {
            let (b, q2) = spec_block(toks, q)->Ok_0;
            if q2 > pos {
                lemma_elif_parallel(toks, q2, alt_exps.push(e), alt_blocks.push(b));
            }
        }
    }
}

/// The shape of a parsed `if` statement: its condition and block are those
/// parsed after the keyword; its alternate conditions are those of the
/// `elif` chain; and its alternate blocks number one per `elif` condition,
/// plus exactly one more when a trailing `else` follows the chain.
#[verifier::spinoff_prover]
#[verifier::rlimit(60)]
pub proof fn lemma_if_else_shape(toks: Seq<Token>, pos: int)
    requires
        tok_at(toks, pos) is IF,
        spec_statement(toks, pos) is Ok,
    ensures
        ({
            let st = spec_statement(toks, pos)->Ok_0.0;
            let (c, q) = spec_expr(toks, pos + 1)->Ok_0;
            let (b, q2) = spec_block(toks, q)->Ok_0;
            let chain = spec_elif_rest(toks, q2, Seq::empty(), Seq::empty());
            let ((ae, ab), q3) = chain->Ok_0;
            &&& st.statement_type == StatementType::IF
            &&& st.expr == Some(c)
            &&& st.code_block == Some(b)
            &&& chain is Ok
            &&& st.alt_exps == ae
            &&& st.alt_code_blocks.subrange(0, ab.len() as int) == ab
            &&& tok_at(toks, q3) is ELSE ==> st.alt_code_blocks.len() == st.alt_exps.len() + 1
            &&& !(tok_at(toks, q3) is ELSE) ==> st.alt_code_blocks.len() == st.alt_exps.len()
        }),
{
    let p = pos + 1;
    lemma_expr_forward(toks, p);
    let q = spec_expr(toks, p)->Ok_0.1;
    lemma_block_forward(toks, q);
    let q2 = spec_block(toks, q)->Ok_0.1;
    lemma_elif_forward(toks, q2, Seq::empty(), Seq::empty());
    lemma_elif_parallel(toks, q2, Seq::empty(), Seq::empty());
    let ((ae, ab), q3) = spec_elif_rest(toks, q2, Seq::empty(), Seq::empty())->Ok_0;
    if tok_at(toks, q3) is ELSE {
        let eb = spec_block(toks, q3 + 1)->Ok_0.0;
        assert(ab.push(eb).subrange(0, ab.len() as int) =~= ab);
    } else {
        assert(ab.subrange(0, ab.len() as int) =~= ab);
    }
}

/// Block isolation: a statement that owns a nested block keeps the kind and
/// the condition it had before the block was parsed, and its block is the
/// one that the block parse yields on its own at that position, whatever
/// that block holds (nested `if` statements included).
#[verifier::spinoff_prover]
pub proof fn lemma_block_isolation(toks: Seq<Token>, pos: int)
    requires
        tok_at(toks, pos) is IF || tok_at(toks, pos) is EXPECT,
        spec_statement(toks, pos) is Ok,
    ensures
        ({
            let st = spec_statement(toks, pos)->Ok_0.0;
            let (c, q) = spec_expr(toks, pos + 1)->Ok_0;
            &&& spec_expr(toks, pos + 1) is Ok
            &&& spec_block(toks, q) is Ok
            &&& st.statement_type == (if tok_at(toks, pos) is IF {
                StatementType::IF
            } else {
                StatementType::EXPECT
            })
            &&& st.expr == Some(c)
            &&& st.code_block == Some(spec_block(toks, q)->Ok_0.0)
        }),
{
    lemma_expr_forward(toks, pos + 1);
    let q = spec_expr(toks, pos + 1)->Ok_0.1;
    lemma_block_forward(toks, q);
    if tok_at(toks, pos) is IF {
        lemma_if_else_shape(toks, pos);
    }
}

/// The `accessor` loop yields its left operand or one of its own nodes.
proof fn lemma_accessor_rest_shape(toks: Seq<Token>, pos: int, lhs: Expression)
    requires
        spec_accessor_rest(toks, pos, lhs) is Ok,
    ensures
        ({
            let e = spec_accessor_rest(toks, pos, lhs)->Ok_0.0;
            e == lhs || e is ACCESSOR
        }),
    decreases remaining(toks, pos),
{
    if spec_factor(toks, pos + 1) is Ok {
        let (rhs, q) = spec_factor(toks, pos + 1)->Ok_0;
        if q > pos && remaining(toks, pos) > 0 {
            let next = Expression::ACCESSOR(Box::new(lhs), Box::new(rhs));
            if spec_accessor_rest(toks, q, next) is Ok {
                lemma_accessor_rest_shape(toks, q, next);
            }
        }
    }
}

/// The `expo` loop yields its left operand or one of its own nodes.
proof fn lemma_expo_rest_shape(toks: Seq<Token>, pos: int, lhs: Expression)
    requires
        spec_expo_rest(toks, pos, lhs) is Ok,
    ensures
        ({
            let e = spec_expo_rest(toks, pos, lhs)->Ok_0.0;
            e == lhs || e is EXPONENT
        }),
    decreases remaining(toks, pos),
{
    if spec_expo_operand(toks, pos + 1) is Ok {
        let (rhs, q) = spec_expo_operand(toks, pos + 1)->Ok_0;
        if q > pos && remaining(toks, pos) > 0 {
            let next = Expression::EXPONENT(Box::new(lhs), Box::new(rhs));
            if spec_expo_rest(toks, q, next) is Ok {
                lemma_expo_rest_shape(toks, q, next);
            }
        }
    }
}

/// The `mul` loop yields its left operand or one of its own nodes.
proof fn lemma_mul_rest_shape(toks: Seq<Token>, pos: int, lhs: Expression)
    requires
        spec_mul_rest(toks, pos, lhs) is Ok,
    ensures
        ({
            let e = spec_mul_rest(toks, pos, lhs)->Ok_0.0;
            e == lhs || e is MUL || e is DIV || e is MOD
        }),
    decreases remaining(toks, pos),
{
    if spec_unary(toks, pos + 1) is Ok {
        let (rhs, q) = spec_unary(toks, pos + 1)->Ok_0;
        if q > pos && remaining(toks, pos) > 0 {
            let next = mul_node(tok_at(toks, pos), lhs, rhs);
            if spec_mul_rest(toks, q, next) is Ok {
                lemma_mul_rest_shape(toks, q, next);
            }
        }
    }
}

/// The `add` loop yields its left operand or one of its own nodes.
proof fn lemma_add_rest_shape(toks: Seq<Token>, pos: int, lhs: Expression)
    requires
        spec_add_rest(toks, pos, lhs) is Ok,
    ensures
        ({
            let e = spec_add_rest(toks, pos, lhs)->Ok_0.0;
            e == lhs || e is ADD || e is SUB
        }),
    decreases remaining(toks, pos),
{
    if spec_mul(toks, pos + 1) is Ok {
        let (rhs, q) = spec_mul(toks, pos + 1)->Ok_0;
        if q > pos && remaining(toks, pos) > 0 {
            let next = add_node(tok_at(toks, pos), lhs, rhs);
            if spec_add_rest(toks, q, next) is Ok {
                lemma_add_rest_shape(toks, q, next);
            }
        }
    }
}

/// A node that binds looser than multiplication.
pub open spec fn looser_than_mul(e: Expression) -> bool {
    e is ADD || e is SUB || e is EQU || e is NEQU || e is GTH || e is GTHE || e is LTH || e is LTHE
        || e is AND || e is OR
}

/// A node that binds looser than comparison.
pub open spec fn looser_than_comparison(e: Expression) -> bool {
    e is AND || e is OR
}

/// Multiplicative binds tighter than additive (and than comparison and
/// and/or): an operand of the multiplicative tier is an additive,
/// comparison or and/or node only when the source parenthesises it.
#[verifier::spinoff_prover]
pub proof fn lemma_mul_tier_binds_tighter(toks: Seq<Token>, pos: int)
    requires
        !(tok_at(toks, pos) is LPAREN),
        spec_mul(toks, pos) is Ok,
    ensures
        !looser_than_mul(spec_mul(toks, pos)->Ok_0.0),
{
    let (u, q) = spec_unary(toks, pos)->Ok_0;
    if !is_prefix_op(tok_at(toks, pos)) {
        let (x, q1) = spec_primary(toks, pos)->Ok_0;
        if !(tok_at(toks, pos) is PREV) {
            let (f, q0) = spec_factor(toks, pos)->Ok_0;
            if q0 >= pos {
                lemma_accessor_rest_shape(toks, q0, f);
            }
        }
        if q1 >= pos {
            lemma_expo_rest_shape(toks, q1, x);
        }
    }
    if q >= pos {
        lemma_mul_rest_shape(toks, q, u);
    }
}

/// Comparison binds tighter than and/or: an operand of a comparison (an
/// additive-tier expression) is an and/or node only when the source
/// parenthesises it.
#[verifier::spinoff_prover]
pub proof fn lemma_comparison_binds_tighter(toks: Seq<Token>, pos: int)
    requires
        !(tok_at(toks, pos) is LPAREN),
        spec_add(toks, pos) is Ok,
    ensures
        !looser_than_comparison(spec_add(toks, pos)->Ok_0.0),
{
    lemma_mul_tier_binds_tighter(toks, pos);
    let (m, q) = spec_mul(toks, pos)->Ok_0;
    if q >= pos {
        lemma_add_rest_shape(toks, q, m);
    }
}

} // verus!
