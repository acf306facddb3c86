use vstd::prelude::*;

verus! {

/// The kind of a statement. `NONE` and `ELSE` are classification tags only.
#[derive(Clone, Copy, Debug, PartialEq, Eq, Structural)]
pub enum StatementType {
    NONE,
    PRINT,
    REVEAL,
    ASSIGN,
    IF,
    ELSE,
    BEGIN,
    EXPECT,
}

impl StatementType {
    pub open spec fn spec_has_code_block(self) -> bool {
        self == StatementType::IF || self == StatementType::ELSE || self == StatementType::BEGIN
            || self == StatementType::EXPECT
    }

    /// Whether a statement of this kind owns a nested block.
    pub fn has_code_block(&self) -> (r: bool)
        ensures
            r == self.spec_has_code_block(),
    {
        match self {
            StatementType::IF | StatementType::ELSE | StatementType::BEGIN | StatementType::EXPECT => true,
            _ => false,
        }
    }
}

/// An expression tree. Every inner node owns its operands.
/// A float literal is held as its IEEE-754 single-precision bit pattern.
#[derive(Debug, PartialEq)]
pub enum Expression {
    ADD(Box<Expression>, Box<Expression>),
    SUB(Box<Expression>, Box<Expression>),
    MUL(Box<Expression>, Box<Expression>),
    DIV(Box<Expression>, Box<Expression>),
    MOD(Box<Expression>, Box<Expression>),
    EQU(Box<Expression>, Box<Expression>),
    NEQU(Box<Expression>, Box<Expression>),
    GTH(Box<Expression>, Box<Expression>),
    GTHE(Box<Expression>, Box<Expression>),
    LTH(Box<Expression>, Box<Expression>),
    LTHE(Box<Expression>, Box<Expression>),
    AND(Box<Expression>, Box<Expression>),
    OR(Box<Expression>, Box<Expression>),
    EXPONENT(Box<Expression>, Box<Expression>),
    ACCESSOR(Box<Expression>, Box<Expression>),
    NOT(Box<Expression>),
    FACTORIAL(Box<Expression>),
    UMIN(Box<Expression>),
    ABS(Box<Expression>),
    PREV(String),
    IDENTIFIER(String),
    BOOL(bool),
    INTEGER(i32),
    FLOAT(u32),
    NONE,
}

/// A deep copy of an expression tree.
fn copy_expression(e: &Expression) -> (r: Expression)
    ensures
        r == *e,
    decreases e,
{
    match e {
        Expression::ADD(a, b) => Expression::ADD(Box::new(copy_expression(a)), Box::new(copy_expression(b))),
        Expression::SUB(a, b) => Expression::SUB(Box::new(copy_expression(a)), Box::new(copy_expression(b))),
        Expression::MUL(a, b) => Expression::MUL(Box::new(copy_expression(a)), Box::new(copy_expression(b))),
        Expression::DIV(a, b) => Expression::DIV(Box::new(copy_expression(a)), Box::new(copy_expression(b))),
        Expression::MOD(a, b) => Expression::MOD(Box::new(copy_expression(a)), Box::new(copy_expression(b))),
        Expression::EQU(a, b) => Expression::EQU(Box::new(copy_expression(a)), Box::new(copy_expression(b))),
        Expression::NEQU(a, b) => Expression::NEQU(Box::new(copy_expression(a)), Box::new(copy_expression(b))),
        Expression::GTH(a, b) => Expression::GTH(Box::new(copy_expression(a)), Box::new(copy_expression(b))),
        Expression::GTHE(a, b) => Expression::GTHE(Box::new(copy_expression(a)), Box::new(copy_expression(b))),
        Expression::LTH(a, b) => Expression::LTH(Box::new(copy_expression(a)), Box::new(copy_expression(b))),
        Expression::LTHE(a, b) => Expression::LTHE(Box::new(copy_expression(a)), Box::new(copy_expression(b))),
        Expression::AND(a, b) => Expression::AND(Box::new(copy_expression(a)), Box::new(copy_expression(b))),
        Expression::OR(a, b) => Expression::OR(Box::new(copy_expression(a)), Box::new(copy_expression(b))),
        Expression::EXPONENT(a, b) => Expression::EXPONENT(Box::new(copy_expression(a)), Box::new(copy_expression(b))),
        Expression::ACCESSOR(a, b) => Expression::ACCESSOR(Box::new(copy_expression(a)), Box::new(copy_expression(b))),
        Expression::NOT(a) => Expression::NOT(Box::new(copy_expression(a))),
        Expression::FACTORIAL(a) => Expression::FACTORIAL(Box::new(copy_expression(a))),
        Expression::UMIN(a) => Expression::UMIN(Box::new(copy_expression(a))),
        Expression::ABS(a) => Expression::ABS(Box::new(copy_expression(a))),
        Expression::PREV(s) => Expression::PREV(s.clone()),
        Expression::IDENTIFIER(s) => Expression::IDENTIFIER(s.clone()),
        Expression::BOOL(x) => Expression::BOOL(*x),
        Expression::INTEGER(x) => Expression::INTEGER(*x),
        Expression::FLOAT(x) => Expression::FLOAT(*x),
        Expression::NONE => Expression::NONE,
    }
}

impl Clone for Expression {
    fn clone(&self) -> (r: Expression)
        ensures
            r == *self,
    {
        copy_expression(self)
    }
}

/// A runtime value shared with the evaluator.
/// A float is held as its IEEE-754 single-precision bit pattern.
#[derive(Debug, PartialEq)]
pub enum VariableType {
    FLOAT(u32),
    INTEGER(i32),
    BOOL(bool),
    STRING(String),
}

/// The bit pattern of 1.0 as an IEEE-754 single.
pub const ONE_BITS: u32 = 0x3F80_0000;

/// The bit pattern of positive infinity as an IEEE-754 single.
pub const POS_INF_BITS: u32 = 0x7F80_0000;

/// A single held as `bits` is at least 1.0: the sign is clear, the value is
/// not NaN, and its magnitude is at least that of 1.0. Positive singles order
/// as their bit patterns do.
pub open spec fn float_at_least_one(bits: u32) -> bool {
    ONE_BITS <= bits && bits <= POS_INF_BITS
}

impl VariableType {
    /// Truthiness: numbers are truthy when at least 1, a boolean is itself,
    /// a string is truthy when non-empty.
    pub open spec fn truthy(self) -> bool {
        match self {
            VariableType::FLOAT(x) => float_at_least_one(x),
            VariableType::INTEGER(x) => x >= 1,
            VariableType::BOOL(x) => x,
            VariableType::STRING(s) => s@.len() > 0,
        }
    }

    pub fn as_bool(&self) -> (r: bool)
        ensures
            r == self.truthy(),
    {
        match self {
            VariableType::FLOAT(x) => ONE_BITS <= *x && *x <= POS_INF_BITS,
            VariableType::INTEGER(x) => *x >= 1,
            VariableType::BOOL(x) => *x,
            VariableType::STRING(s) => s.as_str().unicode_len() > 0,
        }
    }

    /// A copy of this value.
    pub fn duplicate(&self) -> (r: VariableType)
        ensures
            r == *self,
    {
        match self {
            VariableType::FLOAT(x) => VariableType::FLOAT(*x),
            VariableType::INTEGER(x) => VariableType::INTEGER(*x),
            VariableType::BOOL(x) => VariableType::BOOL(*x),
            VariableType::STRING(s) => VariableType::STRING(s.clone()),
        }
    }

    /// Turns a boolean into the integer 1 or 0, in place, for arithmetic;
    /// leaves any other value as it is. Returns a copy of the new value.
    pub fn convert_bool(&mut self) -> (r: VariableType)
        ensures
            *final(self) == (match *old(self) {
                VariableType::BOOL(b) => VariableType::INTEGER(if b { 1 } else { 0 }),
                v => v,
            }),
            r == *final(self),
    {
        if let VariableType::BOOL(b) = self {
            let v: i32 = if *b { 1 } else { 0 };
            *self = VariableType::INTEGER(v);
        }
        self.duplicate()
    }

    /// The logical negation of this value's truthiness, as a boolean.
    pub fn negate(&self) -> (r: VariableType)
        ensures
            r == VariableType::BOOL(!self.truthy()),
    {
        VariableType::BOOL(!self.as_bool())
    }
}

impl Clone for VariableType {
    fn clone(&self) -> (r: VariableType)
        ensures
            r == *self,
    {
        self.duplicate()
    }
}

/// A statement. `alt_exps` and `alt_code_blocks` are parallel lists used by
/// if/elif/else chains (and `alt_exps` by print's further arguments): a block
/// past the end of `alt_exps` is the trailing else.
#[derive(Debug, PartialEq)]
pub struct Statement {
    pub statement_type: StatementType,
    pub var_name: Option<String>,
    pub code_block: Option<Vec<Statement>>,
    pub expr: Option<Box<Expression>>,
    pub alt_code_blocks: Vec<Vec<Statement>>,
    pub alt_exps: Vec<Box<Expression>>,
}

/// The mathematical value of a statement: blocks as sequences.
pub struct StatementModel {
    pub statement_type: StatementType,
    pub var_name: Option<String>,
    pub code_block: Option<Seq<StatementModel>>,
    pub expr: Option<Expression>,
    pub alt_code_blocks: Seq<Seq<StatementModel>>,
    pub alt_exps: Seq<Expression>,
}

pub open spec fn block_model(s: Seq<Statement>) -> Seq<StatementModel>
    decreases s,
{
    if s.len() == 0 {
        Seq::empty()
    } else {
        block_model(s.subrange(0, s.len() - 1)).push(statement_model(s[s.len() - 1]))
    }
}

pub open spec fn blocks_model(s: Seq<Vec<Statement>>) -> Seq<Seq<StatementModel>>
    decreases s,
{
    if s.len() == 0 {
        Seq::empty()
    } else {
        blocks_model(s.subrange(0, s.len() - 1)).push(block_model(s[s.len() - 1]@))
    }
}

pub open spec fn exprs_model(s: Seq<Box<Expression>>) -> Seq<Expression> {
    s.map_values(|e: Box<Expression>| *e)
}

pub open spec fn statement_model(s: Statement) -> StatementModel
    decreases s,
{
    StatementModel {
        statement_type: s.statement_type,
        var_name: s.var_name,
        code_block: match s.code_block {
            Some(v) => Some(block_model(v@)),
            None => None,
        },
        expr: match s.expr {
            Some(e) => Some(*e),
            None => None,
        },
        alt_code_blocks: blocks_model(s.alt_code_blocks@),
        alt_exps: exprs_model(s.alt_exps@),
    }
}

impl View for Statement {
    type V = StatementModel;

    open spec fn view(&self) -> StatementModel {
        statement_model(*self)
    }
}

/// Appending a statement appends its model.
pub proof fn lemma_block_model_push(s: Seq<Statement>, x: Statement)
    ensures
        block_model(s.push(x)) == block_model(s).push(statement_model(x)),
{
    assert(s.push(x).subrange(0, s.len() as int) =~= s);
}

/// Appending a block appends its model.
pub proof fn lemma_blocks_model_push(s: Seq<Vec<Statement>>, x: Vec<Statement>)
    ensures
        blocks_model(s.push(x)) == blocks_model(s).push(block_model(x@)),
{
    assert(s.push(x).subrange(0, s.len() as int) =~= s);
}

/// Appending an expression appends it to the model.
pub proof fn lemma_exprs_model_push(s: Seq<Box<Expression>>, x: Box<Expression>)
    ensures
        exprs_model(s.push(x)) == exprs_model(s).push(*x),
{
    assert(exprs_model(s.push(x)) =~= exprs_model(s).push(*x));
}

/// A deep copy of a statement.
fn copy_statement(s: &Statement) -> (r: Statement)
    ensures
        r@ == s@,
    decreases s, 1nat,
{
    let code_block = match &s.code_block {
        Some(v) => Some(copy_block(v)),
        None => None,
    };
    let expr = match &s.expr {
        Some(e) => Some(Box::new(copy_expression(e))),
        None => None,
    };
    let var_name = match &s.var_name {
        Some(n) => Some(n.clone()),
        None => None,
    };
    let alt_exps = copy_expressions(&s.alt_exps);
    let alt_code_blocks = copy_blocks(&s.alt_code_blocks);
    Statement {
        statement_type: s.statement_type,
        var_name,
        code_block,
        expr,
        alt_code_blocks,
        alt_exps,
    }
}

/// A deep copy of a block.
fn copy_block(v: &Vec<Statement>) -> (r: Vec<Statement>)
    ensures
        block_model(r@) == block_model(v@),
    decreases v, 0nat,
{
    let mut r: Vec<Statement> = Vec::new();
    let mut i: usize = 0;
    assert(block_model(r@) =~= block_model(v@.subrange(0, 0)));
    while i < v.len()
        invariant
            i <= v@.len(),
            block_model(r@) == block_model(v@.subrange(0, i as int)),
        decreases v@.len() - i,
    {
        assert(decreases_to!(v => v@[i as int]));
        let c = copy_statement(&v[i]);
        proof {
            lemma_block_model_push(r@, c);
            lemma_block_model_push(v@.subrange(0, i as int), v@[i as int]);
            assert(v@.subrange(0, i as int).push(v@[i as int]) =~= v@.subrange(0, i + 1));
        }
        r.push(c);
        i = i + 1;
    }
    assert(v@.subrange(0, v@.len() as int) =~= v@);
    r
}

/// A deep copy of a list of blocks.
fn copy_blocks(v: &Vec<Vec<Statement>>) -> (r: Vec<Vec<Statement>>)
    ensures
        blocks_model(r@) == blocks_model(v@),
    decreases v, 0nat,
{
    let mut r: Vec<Vec<Statement>> = Vec::new();
    let mut i: usize = 0;
    assert(blocks_model(r@) =~= blocks_model(v@.subrange(0, 0)));
    while i < v.len()
        invariant
            i <= v@.len(),
            blocks_model(r@) == blocks_model(v@.subrange(0, i as int)),
        decreases v@.len() - i,
    {
        assert(decreases_to!(v => v@[i as int]));
        let c = copy_block(&v[i]);
        proof {
            lemma_blocks_model_push(r@, c);
            lemma_blocks_model_push(v@.subrange(0, i as int), v@[i as int]);
            assert(v@.subrange(0, i as int).push(v@[i as int]) =~= v@.subrange(0, i + 1));
        }
        r.push(c);
        i = i + 1;
    }
    assert(v@.subrange(0, v@.len() as int) =~= v@);
    r
}

/// A deep copy of a list of expressions.
fn copy_expressions(v: &Vec<Box<Expression>>) -> (r: Vec<Box<Expression>>)
    ensures
        exprs_model(r@) == exprs_model(v@),
{
    let mut r: Vec<Box<Expression>> = Vec::new();
    let mut i: usize = 0;
    while i < v.len()
        invariant
            i <= v@.len(),
            r@.len() == i,
            forall|k: int| 0 <= k < i ==> *r@[k] == *v@[k],
        decreases v@.len() - i,
    {
        r.push(Box::new(copy_expression(&v[i])));
        i = i + 1;
    }
    assert(exprs_model(r@) =~= exprs_model(v@));
    r
}

impl Clone for Statement {
    fn clone(&self) -> (r: Statement)
        ensures
            r@ == self@,
    {
        copy_statement(self)
    }
}

impl Statement {
    /// Clears every field: the kind becomes `NONE` and nothing else is left,
    /// the alternate lists included.
    pub fn reset(&mut self)
        ensures
            final(self).statement_type == StatementType::NONE,
            final(self).var_name is None,
            final(self).expr is None,
            final(self).code_block is None,
            final(self).alt_code_blocks@.len() == 0,
            final(self).alt_exps@.len() == 0,
    {
        self.statement_type = StatementType::NONE;
        self.var_name = None;
        self.expr = None;
        self.code_block = None;
        self.alt_code_blocks = Vec::new();
        self.alt_exps = Vec::new();
    }
}

/// A parsed program: the setup block, the terminal assertion block, and the
/// other top-level statements in source order.
#[derive(Debug, PartialEq)]
pub struct Program {
    pub begin: Option<Statement>,
    pub expect: Option<Statement>,
    pub body: Vec<Statement>,
}

/// The mathematical value of a program.
pub struct ProgramModel {
    pub begin: Option<StatementModel>,
    pub expect: Option<StatementModel>,
    pub body: Seq<StatementModel>,
}

pub open spec fn opt_statement_model(s: Option<Statement>) -> Option<StatementModel> {
    match s {
        Some(st) => Some(statement_model(st)),
        None => None,
    }
}

impl View for Program {
    type V = ProgramModel;

    open spec fn view(&self) -> ProgramModel {
        ProgramModel {
            begin: opt_statement_model(self.begin),
            expect: opt_statement_model(self.expect),
            body: block_model(self.body@),
        }
    }
}

} // verus!
