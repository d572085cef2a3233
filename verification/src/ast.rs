//! The abstract syntax tree of the const-assignment language, together
//! with its mathematical model.
//!
//! Every executable node type has a spec-level counterpart whose string
//! payloads are `Seq<char>` and whose lists are `Seq`; `deep_view` maps
//! one to the other. The parser's and emitter's contracts are stated
//! over the spec-level types.

use vstd::prelude::*;

verus! {

broadcast use vstd::std_specs::vec::group_vec_axioms, vstd::seq::group_seq_axioms;

/// A whole program: its top-level bindings, in declaration order.
#[derive(Debug, PartialEq)]
pub struct AstRoot(pub Vec<ConstAssignment>);

/// One top-level binding `name :: value ;`.
#[derive(Debug, PartialEq)]
pub struct ConstAssignment(pub String, pub ConstAssignmentVal);

/// The right-hand side of a top-level binding.
#[derive(Debug, PartialEq)]
pub enum ConstAssignmentVal {
    Function { args: Vec<(String, String)>, return_type: Option<String>, body: Vec<Statement> },
    Struct(Vec<(String, String)>),
    Expression(Expression),
}

/// The closed operator set. Each binary or unary node carries exactly
/// one tag; the tag determines both parse precedence and the literal
/// text emitted.
#[derive(Debug, PartialEq, Eq, Structural, Clone, Copy)]
pub enum Operator {
    Assign,
    Add,
    Subtract,
    Multiply,
    Deref,
    IsEqual,
    UnaryPlus,
    IsLessThan,
    IsGreaterThan,
    MemberAccess,
}

/// An expression tree. Sub-trees are exclusively owned: no sharing, no
/// cycles.
#[derive(Debug, PartialEq)]
pub enum Expression {
    NumberLiteral(i64),
    StringLiteral(String),
    Ident(String),
    BinaryOperator { op: Operator, left: Box<Expression>, right: Box<Expression> },
    UnaryOperator { op: Operator, operand: Box<Expression> },
    FunctionCall(String, Vec<Expression>),
}

/// A statement inside a function body.
#[derive(Debug, PartialEq)]
pub enum Statement {
    Return(Expression),
    Let(String, String, Option<Expression>),
    If(Expression, Box<Statement>),
    While(Expression, Box<Statement>),
    Compound(Vec<Statement>),
    Expression(Expression),
}

/// Model of `Expression`.
pub enum SpecExpression {
    NumberLiteral(int),
    StringLiteral(Seq<char>),
    Ident(Seq<char>),
    BinaryOperator { op: Operator, left: Box<SpecExpression>, right: Box<SpecExpression> },
    UnaryOperator { op: Operator, operand: Box<SpecExpression> },
    FunctionCall(Seq<char>, Seq<SpecExpression>),
}

/// Model of `Statement`.
pub enum SpecStatement {
    Return(SpecExpression),
    Let(Seq<char>, Seq<char>, Option<SpecExpression>),
    If(SpecExpression, Box<SpecStatement>),
    While(SpecExpression, Box<SpecStatement>),
    Compound(Seq<SpecStatement>),
    Expression(SpecExpression),
}

/// Model of `ConstAssignmentVal`.
pub enum SpecConstAssignmentVal {
    Function {
        args: Seq<(Seq<char>, Seq<char>)>,
        return_type: Option<Seq<char>>,
        body: Seq<SpecStatement>,
    },
    Struct(Seq<(Seq<char>, Seq<char>)>),
    Expression(SpecExpression),
}

/// Model of `ConstAssignment`.
pub struct SpecConstAssignment(pub Seq<char>, pub SpecConstAssignmentVal);

pub open spec fn view_expression(e: Expression) -> SpecExpression
    decreases e,
{
    match e {
        Expression::NumberLiteral(n) => SpecExpression::NumberLiteral(n as int),
        Expression::StringLiteral(s) => SpecExpression::StringLiteral(s@),
        Expression::Ident(s) => SpecExpression::Ident(s@),
        Expression::BinaryOperator { op, left, right } => SpecExpression::BinaryOperator {
            op,
            left: Box::new(view_expression(*left)),
            right: Box::new(view_expression(*right)),
        },
        Expression::UnaryOperator { op, operand } => SpecExpression::UnaryOperator {
            op,
            operand: Box::new(view_expression(*operand)),
        },
        Expression::FunctionCall(name, args) => SpecExpression::FunctionCall(
            name@,
            Seq::new(
                args@.len(),
                |i: int|
                    if 0 <= i < args@.len() {
                        view_expression(args@[i])
                    } else {
                        SpecExpression::NumberLiteral(0)
                    },
            ),
        ),
    }
}

pub open spec fn view_statement(s: Statement) -> SpecStatement
    decreases s,
{
    match s {
        Statement::Return(e) => SpecStatement::Return(view_expression(e)),
        Statement::Let(name, ty, init) => SpecStatement::Let(
            name@,
            ty@,
            match init {
                Some(e) => Some(view_expression(e)),
                None => None,
            },
        ),
        Statement::If(cond, body) => SpecStatement::If(
            view_expression(cond),
            Box::new(view_statement(*body)),
        ),
        Statement::While(cond, body) => SpecStatement::While(
            view_expression(cond),
            Box::new(view_statement(*body)),
        ),
        Statement::Compound(body) => SpecStatement::Compound(
            Seq::new(
                body@.len(),
                |i: int|
                    if 0 <= i < body@.len() {
                        view_statement(body@[i])
                    } else {
                        SpecStatement::Compound(Seq::empty())
                    },
            ),
        ),
        Statement::Expression(e) => SpecStatement::Expression(view_expression(e)),
    }
}

pub open spec fn view_const_assignment_val(v: ConstAssignmentVal) -> SpecConstAssignmentVal {
    match v {
        ConstAssignmentVal::Function { args, return_type, body } => {
            SpecConstAssignmentVal::Function {
                args: args.deep_view(),
                return_type: match return_type {
                    Some(t) => Some(t@),
                    None => None,
                },
                body: Seq::new(body@.len(), |i: int| view_statement(body@[i])),
            }
        },
        ConstAssignmentVal::Struct(members) => SpecConstAssignmentVal::Struct(members.deep_view()),
        ConstAssignmentVal::Expression(e) => SpecConstAssignmentVal::Expression(
            view_expression(e),
        ),
    }
}

impl DeepView for Expression {
    type V = SpecExpression;

    open spec fn deep_view(&self) -> SpecExpression {
        view_expression(*self)
    }
}

impl DeepView for Statement {
    type V = SpecStatement;

    open spec fn deep_view(&self) -> SpecStatement {
        view_statement(*self)
    }
}

impl DeepView for ConstAssignmentVal {
    type V = SpecConstAssignmentVal;

    open spec fn deep_view(&self) -> SpecConstAssignmentVal {
        view_const_assignment_val(*self)
    }
}

impl DeepView for ConstAssignment {
    type V = SpecConstAssignment;

    open spec fn deep_view(&self) -> SpecConstAssignment {
        SpecConstAssignment(self.0@, self.1.deep_view())
    }
}

impl DeepView for AstRoot {
    type V = Seq<SpecConstAssignment>;

    open spec fn deep_view(&self) -> Seq<SpecConstAssignment> {
        self.0.deep_view()
    }
}

/// The view of a compound statement spelt out: the body views in order.
pub proof fn lemma_compound_view(body: Vec<Statement>)
    ensures
        (Statement::Compound(body)).deep_view() == SpecStatement::Compound(body.deep_view()),
{
    let dv = (Statement::Compound(body)).deep_view();
    match dv {
        SpecStatement::Compound(inner) => {
            assert forall|i: int| 0 <= i < inner.len() implies inner[i]
                == body.deep_view()[i] by {}
            assert(inner =~= body.deep_view());
        },
        _ => {
            assert(false);
        },
    }
}

/// The view of a function value spelt out: argument pairs, return type
/// and body views in order.
pub proof fn lemma_function_val_view(
    args: Vec<(String, String)>,
    return_type: Option<String>,
    body: Vec<Statement>,
)
    ensures
        (ConstAssignmentVal::Function { args, return_type, body }).deep_view()
            == (SpecConstAssignmentVal::Function {
            args: args.deep_view(),
            return_type: return_type.deep_view(),
            body: body.deep_view(),
        }),
{
    let dv = (ConstAssignmentVal::Function { args, return_type, body }).deep_view();
    match dv {
        SpecConstAssignmentVal::Function { args: a2, return_type: r2, body: b2 } => {
            assert forall|i: int| 0 <= i < b2.len() implies b2[i] == body.deep_view()[i] by {}
            assert(b2 =~= body.deep_view());
        },
        _ => {
            assert(false);
        },
    }
}

/// The view of a call expression spelt out: the argument views in order.
pub proof fn lemma_function_call_view(name: String, args: Vec<Expression>)
    ensures
        (Expression::FunctionCall(name, args)).deep_view() == SpecExpression::FunctionCall(
            name@,
            args.deep_view(),
        ),
{
    let dv = (Expression::FunctionCall(name, args)).deep_view();
    match dv {
        SpecExpression::FunctionCall(n2, inner) => {
            assert forall|i: int| 0 <= i < inner.len() implies inner[i]
                == args.deep_view()[i] by {}
            assert(inner =~= args.deep_view());
        },
        _ => {
            assert(false);
        },
    }
}

impl Operator {
    /// The operator a binary-position token denotes, if any.
    pub fn to_binary_op(token: &crate::lexer::Token) -> (r: Option<Operator>)
        ensures
            r == spec_to_binary_op(token@),
    {
        match token {
            crate::lexer::Token::Equals => Some(Operator::Assign),
            crate::lexer::Token::Plus => Some(Operator::Add),
            crate::lexer::Token::Hyphen => Some(Operator::Subtract),
            crate::lexer::Token::Star => Some(Operator::Multiply),
            crate::lexer::Token::EqualsEquals => Some(Operator::IsEqual),
            crate::lexer::Token::AngleBracketOpen => Some(Operator::IsLessThan),
            crate::lexer::Token::AngleBracketClose => Some(Operator::IsGreaterThan),
            crate::lexer::Token::Period => Some(Operator::MemberAccess),
            _ => None,
        }
    }

    /// The operator a unary-position token denotes, if any.
    pub fn to_unary_op(token: &crate::lexer::Token) -> (r: Option<Operator>)
        ensures
            r == spec_to_unary_op(token@),
    {
        match token {
            crate::lexer::Token::Plus => Some(Operator::UnaryPlus),
            crate::lexer::Token::Star => Some(Operator::Deref),
            _ => None,
        }
    }
}

pub open spec fn spec_to_binary_op(t: crate::lexer::SpecToken) -> Option<Operator> {
    match t {
        crate::lexer::SpecToken::Equals => Some(Operator::Assign),
        crate::lexer::SpecToken::Plus => Some(Operator::Add),
        crate::lexer::SpecToken::Hyphen => Some(Operator::Subtract),
        crate::lexer::SpecToken::Star => Some(Operator::Multiply),
        crate::lexer::SpecToken::EqualsEquals => Some(Operator::IsEqual),
        crate::lexer::SpecToken::AngleBracketOpen => Some(Operator::IsLessThan),
        crate::lexer::SpecToken::AngleBracketClose => Some(Operator::IsGreaterThan),
        crate::lexer::SpecToken::Period => Some(Operator::MemberAccess),
        _ => None,
    }
}

pub open spec fn spec_to_unary_op(t: crate::lexer::SpecToken) -> Option<Operator> {
    match t {
        crate::lexer::SpecToken::Plus => Some(Operator::UnaryPlus),
        crate::lexer::SpecToken::Star => Some(Operator::Deref),
        _ => None,
    }
}

} // verus!
