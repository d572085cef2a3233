//! Recursive-descent, precedence-climbing parser for the
//! const-assignment language.
//!
//! The grammar is written down once, as the spec-level functions
//! `spec_parse_*`; each takes the token sequence and a cursor and returns
//! the parsed node together with the cursor after it, or the first
//! failure. The executable parser is proved to return exactly what those
//! functions describe. There is no backtracking: once a branch is
//! chosen, the input must conform or the whole parse fails.
//!
//! Binary operators are parsed by precedence climbing. The reachable
//! levels, loosest to tightest, are: assignment (`=`), equality (`==`),
//! relational (`<`, `>`), additive (`+`, `-`), multiplicative (`*`),
//! then unary prefix (`+`, `*`), member access (`.`), and primary
//! expressions. Binary chains at one level are left-associative; member
//! access binds tighter than unary prefix, by design.

use vstd::prelude::*;

use crate::ast::{
    AstRoot, ConstAssignment, ConstAssignmentVal, Expression, Operator, SpecConstAssignment,
    SpecConstAssignmentVal, SpecExpression, SpecStatement, Statement, lemma_compound_view,
    lemma_function_call_view, lemma_function_val_view, spec_to_binary_op, spec_to_unary_op,
};
use crate::lexer::{SpecToken, Token};

verus! {

broadcast use vstd::std_specs::vec::group_vec_axioms, vstd::seq::group_seq_axioms;

/// A fatal parse failure: the construct expected, what stood there
/// instead (`None` at the end of the input), and the cursor position.
#[derive(Debug, PartialEq, Clone)]
pub enum ParseError {
    /// A specific token was required and something else was found.
    Expected { expected: Token, found: Option<Token>, pos: usize },
    /// An identifier was required and something else was found.
    ExpectedIdent { found: Option<Token>, pos: usize },
    /// No expression can begin with the token found.
    UnexpectedToken { found: Option<Token>, pos: usize },
}

/// Model of `ParseError`.
pub enum SpecParseError {
    Expected { expected: SpecToken, found: Option<SpecToken>, pos: int },
    ExpectedIdent { found: Option<SpecToken>, pos: int },
    UnexpectedToken { found: Option<SpecToken>, pos: int },
}

impl DeepView for ParseError {
    type V = SpecParseError;

    open spec fn deep_view(&self) -> SpecParseError {
        match self {
            ParseError::Expected { expected, found, pos } => SpecParseError::Expected {
                expected: expected@,
                found: found.deep_view(),
                pos: *pos as int,
            },
            ParseError::ExpectedIdent { found, pos } => SpecParseError::ExpectedIdent {
                found: found.deep_view(),
                pos: *pos as int,
            },
            ParseError::UnexpectedToken { found, pos } => SpecParseError::UnexpectedToken {
                found: found.deep_view(),
                pos: *pos as int,
            },
        }
    }
}

/// Whether two tokens are the same variant, payloads disregarded. This
/// is the comparison `consume` applies to the token it expects.
pub open spec fn spec_same_kind(a: SpecToken, b: SpecToken) -> bool {
    match (a, b) {
        (SpecToken::Fn, SpecToken::Fn) => true,
        (SpecToken::Return, SpecToken::Return) => true,
        (SpecToken::Let, SpecToken::Let) => true,
        (SpecToken::If, SpecToken::If) => true,
        (SpecToken::While, SpecToken::While) => true,
        (SpecToken::Struct, SpecToken::Struct) => true,
        (SpecToken::ColonColon, SpecToken::ColonColon) => true,
        (SpecToken::Arrow, SpecToken::Arrow) => true,
        (SpecToken::Colon, SpecToken::Colon) => true,
        (SpecToken::Semicolon, SpecToken::Semicolon) => true,
        (SpecToken::Comma, SpecToken::Comma) => true,
        (SpecToken::Period, SpecToken::Period) => true,
        (SpecToken::Plus, SpecToken::Plus) => true,
        (SpecToken::Hyphen, SpecToken::Hyphen) => true,
        (SpecToken::Star, SpecToken::Star) => true,
        (SpecToken::Equals, SpecToken::Equals) => true,
        (SpecToken::EqualsEquals, SpecToken::EqualsEquals) => true,
        (SpecToken::ParenOpen, SpecToken::ParenOpen) => true,
        (SpecToken::ParenClose, SpecToken::ParenClose) => true,
        (SpecToken::BraceOpen, SpecToken::BraceOpen) => true,
        (SpecToken::BraceClose, SpecToken::BraceClose) => true,
        (SpecToken::AngleBracketOpen, SpecToken::AngleBracketOpen) => true,
        (SpecToken::AngleBracketClose, SpecToken::AngleBracketClose) => true,
        (SpecToken::Ident(_), SpecToken::Ident(_)) => true,
        (SpecToken::NumberLiteral(_), SpecToken::NumberLiteral(_)) => true,
        (SpecToken::StringLiteral(_), SpecToken::StringLiteral(_)) => true,
        _ => false,
    }
}

/// The token under the cursor, or `None` at the end of the input.
pub open spec fn spec_peek(toks: Seq<SpecToken>, pos: int) -> Option<SpecToken> {
    if 0 <= pos < toks.len() {
        Some(toks[pos])
    } else {
        None
    }
}

/// The first index at or after `pos` holding no `*` token.
pub open spec fn spec_stars_end(toks: Seq<SpecToken>, pos: int) -> int
    decreases toks.len() - pos,
{
    if pos < 0 || pos >= toks.len() {
        pos
    } else if toks[pos] == SpecToken::Star {
        spec_stars_end(toks, pos + 1)
    } else {
        pos
    }
}

/// A type: a base identifier with one trailing `*` appended for each
/// consumed pointer sigil.
pub open spec fn spec_parse_type(toks: Seq<SpecToken>, pos: int) -> Result<
    (Seq<char>, int),
    SpecParseError,
> {
    match spec_peek(toks, pos) {
        Some(SpecToken::Ident(name)) => {
            let end = spec_stars_end(toks, pos + 1);
            Ok((name + Seq::new((end - (pos + 1)) as nat, |i: int| '*'), end))
        },
        found => Err(SpecParseError::ExpectedIdent { found, pos }),
    }
}

/// The binary operator that `t` denotes at precedence level `level`.
/// Level 0 is assignment, 1 equality, 2 relational, 3 additive,
/// 4 multiplicative.
pub open spec fn spec_level_op(level: int, t: SpecToken) -> Option<Operator> {
    if level == 0 {
        if t == SpecToken::Equals {
            Some(Operator::Assign)
        } else {
            None
        }
    } else if level == 1 {
        if t == SpecToken::EqualsEquals {
            Some(Operator::IsEqual)
        } else {
            None
        }
    } else if level == 2 {
        if t == SpecToken::AngleBracketOpen {
            Some(Operator::IsLessThan)
        } else if t == SpecToken::AngleBracketClose {
            Some(Operator::IsGreaterThan)
        } else {
            None
        }
    } else if level == 3 {
        if t == SpecToken::Plus {
            Some(Operator::Add)
        } else if t == SpecToken::Hyphen {
            Some(Operator::Subtract)
        } else {
            None
        }
    } else if level == 4 {
        if t == SpecToken::Star {
            Some(Operator::Multiply)
        } else {
            None
        }
    } else {
        None
    }
}

/// Rank of one binary precedence level in the termination measure of the
/// mutually recursive expression grammar.
pub open spec fn level_rank(level: int) -> int {
    25 - vstd::math::max(0, vstd::math::min(level, 5))
}

/// A full expression: the loosest binary level.
pub open spec fn spec_parse_expr(toks: Seq<SpecToken>, pos: int) -> Result<
    (SpecExpression, int),
    SpecParseError,
>
    decreases toks.len() - pos, 26int,
{
    spec_parse_binary(toks, pos, 0)
}

/// A binary-operator tier: one operand of the next-tighter tier,
/// followed by a left-associative chain of this tier's operators.
/// Levels past the last binary tier are the unary tier.
pub open spec fn spec_parse_binary(toks: Seq<SpecToken>, pos: int, level: int) -> Result<
    (SpecExpression, int),
    SpecParseError,
>
    decreases toks.len() - pos, level_rank(level),
{
    if !(0 <= level <= 4) {
        spec_parse_unary(toks, pos)
    } else {
        match spec_parse_binary(toks, pos, level + 1) {
            Ok((left, p1)) => {
                if pos < p1 && p1 <= toks.len() {
                    spec_parse_chain(toks, p1, level, left)
                } else {
                    Err(SpecParseError::UnexpectedToken { found: None, pos })
                }
            },
            Err(e) => Err(e),
        }
    }
}

/// The left-associative operator chain of one binary tier: while the
/// token under the cursor is one of the tier's operators, the operand
/// after it extends the tree to the left.
pub open spec fn spec_parse_chain(
    toks: Seq<SpecToken>,
    pos: int,
    level: int,
    acc: SpecExpression,
) -> Result<(SpecExpression, int), SpecParseError>
    decreases toks.len() - pos, level_rank(level),
{
    if pos < 0 || pos >= toks.len() {
        Ok((acc, pos))
    } else {
        match spec_level_op(level, toks[pos]) {
            Some(op) => match spec_parse_binary(toks, pos + 1, level + 1) {
                Ok((right, p2)) => {
                    let joined = SpecExpression::BinaryOperator {
                        op,
                        left: Box::new(acc),
                        right: Box::new(right),
                    };
                    if pos < p2 && p2 <= toks.len() {
                        spec_parse_chain(toks, p2, level, joined)
                    } else {
                        Err(SpecParseError::UnexpectedToken { found: None, pos })
                    }
                },
                Err(e) => Err(e),
            },
            None => Ok((acc, pos)),
        }
    }
}

/// Unary prefix tier, right to left: a leading `+` or `*` applies to the
/// next unary-or-tighter expression.
pub open spec fn spec_parse_unary(toks: Seq<SpecToken>, pos: int) -> Result<
    (SpecExpression, int),
    SpecParseError,
>
    decreases toks.len() - pos, 19int,
{
    if 0 <= pos < toks.len() && spec_to_unary_op(toks[pos]) is Some {
        let op = spec_to_unary_op(toks[pos])->Some_0;
        match spec_parse_unary(toks, pos + 1) {
            Ok((operand, p1)) => Ok(
                (SpecExpression::UnaryOperator { op, operand: Box::new(operand) }, p1),
            ),
            Err(e) => Err(e),
        }
    } else {
        spec_parse_member(toks, pos)
    }
}

/// Member-access tier: a primary expression followed by a
/// left-associative chain of `.` accesses. Binds tighter than unary.
pub open spec fn spec_parse_member(toks: Seq<SpecToken>, pos: int) -> Result<
    (SpecExpression, int),
    SpecParseError,
>
    decreases toks.len() - pos, 18int,
{
    match spec_parse_primary(toks, pos) {
        Ok((e, p1)) => {
            if pos < p1 && p1 <= toks.len() {
                spec_parse_member_chain(toks, p1, e)
            } else {
                Err(SpecParseError::UnexpectedToken { found: None, pos })
            }
        },
        Err(e) => Err(e),
    }
}

/// The left-associative `.` chain after a primary expression.
pub open spec fn spec_parse_member_chain(
    toks: Seq<SpecToken>,
    pos: int,
    acc: SpecExpression,
) -> Result<(SpecExpression, int), SpecParseError>
    decreases toks.len() - pos, 18int,
{
    if 0 <= pos < toks.len() && toks[pos] == SpecToken::Period {
        match spec_parse_primary(toks, pos + 1) {
            Ok((right, p2)) => {
                let joined = SpecExpression::BinaryOperator {
                    op: Operator::MemberAccess,
                    left: Box::new(acc),
                    right: Box::new(right),
                };
                if pos < p2 && p2 <= toks.len() {
                    spec_parse_member_chain(toks, p2, joined)
                } else {
                    Err(SpecParseError::UnexpectedToken { found: None, pos })
                }
            },
            Err(e) => Err(e),
        }
    } else {
        Ok((acc, pos))
    }
}

/// A primary expression: an integer literal, a string literal, a
/// parenthesized expression, a call of an identifier immediately
/// followed by `(`, or a plain identifier.
pub open spec fn spec_parse_primary(toks: Seq<SpecToken>, pos: int) -> Result<
    (SpecExpression, int),
    SpecParseError,
>
    decreases toks.len() - pos, 17int,
{
    match spec_peek(toks, pos) {
        Some(SpecToken::NumberLiteral(n)) => Ok((SpecExpression::NumberLiteral(n), pos + 1)),
        Some(SpecToken::StringLiteral(s)) => Ok((SpecExpression::StringLiteral(s), pos + 1)),
        Some(SpecToken::ParenOpen) => match spec_parse_expr(toks, pos + 1) {
            Ok((e, p1)) => {
                if p1 < toks.len() && toks[p1] == SpecToken::ParenClose {
                    Ok((e, p1 + 1))
                } else {
                    Err(SpecParseError::Expected {
                        expected: SpecToken::ParenClose,
                        found: spec_peek(toks, p1),
                        pos: p1,
                    })
                }
            },
            Err(e) => Err(e),
        },
        Some(SpecToken::Ident(name)) => {
            if pos + 1 < toks.len() && toks[pos + 1] == SpecToken::ParenOpen {
                match spec_parse_call_args(toks, pos + 2) {
                    Ok((args, p1)) => Ok((SpecExpression::FunctionCall(name, args), p1)),
                    Err(e) => Err(e),
                }
            } else {
                Ok((SpecExpression::Ident(name), pos + 1))
            }
        },
        found => Err(SpecParseError::UnexpectedToken { found, pos }),
    }
}

/// The comma-separated argument expressions of a call, up to and
/// including the closing parenthesis. A trailing comma is accepted.
pub open spec fn spec_parse_call_args(toks: Seq<SpecToken>, pos: int) -> Result<
    (Seq<SpecExpression>, int),
    SpecParseError,
>
    decreases toks.len() - pos, 27int,
{
    if pos < 0 || pos >= toks.len() {
        Err(SpecParseError::Expected {
            expected: SpecToken::ParenClose,
            found: None,
            pos,
        })
    } else if toks[pos] == SpecToken::ParenClose {
        Ok((Seq::empty(), pos + 1))
    } else {
        match spec_parse_expr(toks, pos) {
            Ok((e, p1)) => {
                if p1 < toks.len() && toks[p1] == SpecToken::Comma {
                    if pos < p1 + 1 && p1 + 1 <= toks.len() {
                        match spec_parse_call_args(toks, p1 + 1) {
                            Ok((rest, p2)) => Ok((seq![e] + rest, p2)),
                            Err(err) => Err(err),
                        }
                    } else {
                        Err(SpecParseError::UnexpectedToken { found: None, pos })
                    }
                } else if p1 < toks.len() && toks[p1] == SpecToken::ParenClose {
                    Ok((seq![e], p1 + 1))
                } else {
                    Err(SpecParseError::Expected {
                        expected: SpecToken::ParenClose,
                        found: spec_peek(toks, p1),
                        pos: p1,
                    })
                }
            },
            Err(e) => Err(e),
        }
    }
}

/// A statement, selected by its leading token: `return`, `let`, `if`,
/// `while`, a `{ ... }` compound, or an expression statement.
pub open spec fn spec_parse_statement(toks: Seq<SpecToken>, pos: int) -> Result<
    (SpecStatement, int),
    SpecParseError,
>
    decreases toks.len() - pos, 30int,
{
    match spec_peek(toks, pos) {
        Some(SpecToken::Return) => match spec_parse_expr(toks, pos + 1) {
            Ok((e, p1)) => {
                if p1 < toks.len() && toks[p1] == SpecToken::Semicolon {
                    Ok((SpecStatement::Return(e), p1 + 1))
                } else {
                    Err(SpecParseError::Expected {
                        expected: SpecToken::Semicolon,
                        found: spec_peek(toks, p1),
                        pos: p1,
                    })
                }
            },
            Err(e) => Err(e),
        },
        Some(SpecToken::Let) => match spec_peek(toks, pos + 1) {
            Some(SpecToken::Ident(name)) => {
                if pos + 2 < toks.len() && toks[pos + 2] == SpecToken::Colon {
                    match spec_parse_type(toks, pos + 3) {
                        Ok((ty, p1)) => {
                            if p1 < toks.len() && toks[p1] == SpecToken::Equals {
                                if pos < p1 + 1 && p1 + 1 <= toks.len() {
                                    match spec_parse_expr(toks, p1 + 1) {
                                        Ok((e, p2)) => {
                                            if p2 < toks.len() && toks[p2]
                                                == SpecToken::Semicolon {
                                                Ok(
                                                    (
                                                        SpecStatement::Let(name, ty, Some(e)),
                                                        p2 + 1,
                                                    ),
                                                )
                                            } else {
                                                Err(SpecParseError::Expected {
                                                    expected: SpecToken::Semicolon,
                                                    found: spec_peek(toks, p2),
                                                    pos: p2,
                                                })
                                            }
                                        },
                                        Err(e) => Err(e),
                                    }
                                } else {
                                    Err(SpecParseError::UnexpectedToken { found: None, pos })
                                }
                            } else if p1 < toks.len() && toks[p1] == SpecToken::Semicolon {
                                Ok((SpecStatement::Let(name, ty, None), p1 + 1))
                            } else {
                                Err(SpecParseError::Expected {
                                    expected: SpecToken::Semicolon,
                                    found: spec_peek(toks, p1),
                                    pos: p1,
                                })
                            }
                        },
                        Err(e) => Err(e),
                    }
                } else {
                    Err(SpecParseError::Expected {
                        expected: SpecToken::Colon,
                        found: spec_peek(toks, pos + 2),
                        pos: pos + 2,
                    })
                }
            },
            found => Err(SpecParseError::ExpectedIdent { found, pos: pos + 1 }),
        },
        Some(SpecToken::If) => match spec_parse_condition_body(toks, pos) {
            Ok((cond, body, p2)) => Ok((SpecStatement::If(cond, Box::new(body)), p2)),
            Err(e) => Err(e),
        },
        Some(SpecToken::While) => match spec_parse_condition_body(toks, pos) {
            Ok((cond, body, p2)) => Ok((SpecStatement::While(cond, Box::new(body)), p2)),
            Err(e) => Err(e),
        },
        Some(SpecToken::BraceOpen) => match spec_parse_statement_list(toks, pos + 1) {
            Ok((body, p1)) => Ok((SpecStatement::Compound(body), p1)),
            Err(e) => Err(e),
        },
        _ => match spec_parse_expr(toks, pos) {
            Ok((e, p1)) => {
                if p1 < toks.len() && toks[p1] == SpecToken::Semicolon {
                    Ok((SpecStatement::Expression(e), p1 + 1))
                } else {
                    Err(SpecParseError::Expected {
                        expected: SpecToken::Semicolon,
                        found: spec_peek(toks, p1),
                        pos: p1,
                    })
                }
            },
            Err(e) => Err(e),
        },
    }
}

/// The shared shape of `if` and `while`: a parenthesized condition and a
/// single body statement.
pub open spec fn spec_parse_condition_body(toks: Seq<SpecToken>, pos: int) -> Result<
    (SpecExpression, SpecStatement, int),
    SpecParseError,
>
    decreases toks.len() - pos, 29int,
{
    if pos + 1 < toks.len() && toks[pos + 1] == SpecToken::ParenOpen {
        match spec_parse_expr(toks, pos + 2) {
            Ok((cond, p1)) => {
                if p1 < toks.len() && toks[p1] == SpecToken::ParenClose {
                    if pos < p1 + 1 && p1 + 1 <= toks.len() {
                        match spec_parse_statement(toks, p1 + 1) {
                            Ok((body, p2)) => Ok((cond, body, p2)),
                            Err(e) => Err(e),
                        }
                    } else {
                        Err(SpecParseError::UnexpectedToken { found: None, pos })
                    }
                } else {
                    Err(SpecParseError::Expected {
                        expected: SpecToken::ParenClose,
                        found: spec_peek(toks, p1),
                        pos: p1,
                    })
                }
            },
            Err(e) => Err(e),
        }
    } else {
        Err(SpecParseError::Expected {
            expected: SpecToken::ParenOpen,
            found: spec_peek(toks, pos + 1),
            pos: pos + 1,
        })
    }
}

/// The statements of a block, up to and including the closing brace.
pub open spec fn spec_parse_statement_list(toks: Seq<SpecToken>, pos: int) -> Result<
    (Seq<SpecStatement>, int),
    SpecParseError,
>
    decreases toks.len() - pos, 31int,
{
    if pos < 0 || pos >= toks.len() {
        Err(SpecParseError::Expected {
            expected: SpecToken::BraceClose,
            found: None,
            pos,
        })
    } else if toks[pos] == SpecToken::BraceClose {
        Ok((Seq::empty(), pos + 1))
    } else {
        match spec_parse_statement(toks, pos) {
            Ok((s, p1)) => {
                if pos < p1 && p1 <= toks.len() {
                    match spec_parse_statement_list(toks, p1) {
                        Ok((rest, p2)) => Ok((seq![s] + rest, p2)),
                        Err(e) => Err(e),
                    }
                } else {
                    Err(SpecParseError::UnexpectedToken { found: None, pos })
                }
            },
            Err(e) => Err(e),
        }
    }
}

/// A comma-separated list of `name : type` pairs, up to and including
/// the closing token `term`: the parameters of a function (`term` is
/// `)`) or the members of a struct (`term` is `}`).
pub open spec fn spec_parse_pairs(toks: Seq<SpecToken>, pos: int, term: SpecToken) -> Result<
    (Seq<(Seq<char>, Seq<char>)>, int),
    SpecParseError,
>
    decreases toks.len() - pos,
{
    if pos < 0 || pos >= toks.len() {
        Err(SpecParseError::Expected { expected: term, found: None, pos })
    } else if toks[pos] == term {
        Ok((Seq::empty(), pos + 1))
    } else {
        match spec_peek(toks, pos) {
            Some(SpecToken::Ident(name)) => {
                if pos + 1 < toks.len() && toks[pos + 1] == SpecToken::Colon {
                    match spec_parse_type(toks, pos + 2) {
                        Ok((ty, p1)) => {
                            if p1 < toks.len() && toks[p1] == term {
                                Ok((seq![(name, ty)], p1 + 1))
                            } else if p1 < toks.len() && toks[p1] == SpecToken::Comma {
                                if pos < p1 + 1 && p1 + 1 <= toks.len() {
                                    match spec_parse_pairs(toks, p1 + 1, term) {
                                        Ok((rest, p2)) => Ok((seq![(name, ty)] + rest, p2)),
                                        Err(e) => Err(e),
                                    }
                                } else {
                                    Err(SpecParseError::UnexpectedToken { found: None, pos })
                                }
                            } else {
                                Err(SpecParseError::Expected {
                                    expected: SpecToken::Comma,
                                    found: spec_peek(toks, p1),
                                    pos: p1,
                                })
                            }
                        },
                        Err(e) => Err(e),
                    }
                } else {
                    Err(SpecParseError::Expected {
                        expected: SpecToken::Colon,
                        found: spec_peek(toks, pos + 1),
                        pos: pos + 1,
                    })
                }
            },
            found => Err(SpecParseError::ExpectedIdent { found, pos }),
        }
    }
}

/// One top-level binding `name :: value ;`, where the value is a
/// function (`fn`), a struct (`struct`), or an expression.
pub open spec fn spec_parse_const_assignment(toks: Seq<SpecToken>, pos: int) -> Result<
    (SpecConstAssignment, int),
    SpecParseError,
> {
    match spec_peek(toks, pos) {
        Some(SpecToken::Ident(name)) => {
            if pos + 1 < toks.len() && toks[pos + 1] == SpecToken::ColonColon {
                match spec_parse_value(toks, pos + 2) {
                    Ok((val, p1)) => {
                        if p1 < toks.len() && toks[p1] == SpecToken::Semicolon {
                            Ok((SpecConstAssignment(name, val), p1 + 1))
                        } else {
                            Err(SpecParseError::Expected {
                                expected: SpecToken::Semicolon,
                                found: spec_peek(toks, p1),
                                pos: p1,
                            })
                        }
                    },
                    Err(e) => Err(e),
                }
            } else {
                Err(SpecParseError::Expected {
                    expected: SpecToken::ColonColon,
                    found: spec_peek(toks, pos + 1),
                    pos: pos + 1,
                })
            }
        },
        found => Err(SpecParseError::ExpectedIdent { found, pos }),
    }
}

/// The right-hand side of a binding, selected by its first token.
pub open spec fn spec_parse_value(toks: Seq<SpecToken>, pos: int) -> Result<
    (SpecConstAssignmentVal, int),
    SpecParseError,
> {
    match spec_peek(toks, pos) {
        Some(SpecToken::Fn) => {
            if pos + 1 < toks.len() && toks[pos + 1] == SpecToken::ParenOpen {
                match spec_parse_pairs(toks, pos + 2, SpecToken::ParenClose) {
                    Ok((args, p1)) => {
                        let (return_type, p2) = if p1 < toks.len() && toks[p1]
                            == SpecToken::Arrow {
                            match spec_parse_type(toks, p1 + 1) {
                                Ok((ty, p)) => (Ok(Some(ty)), p),
                                Err(e) => (Err(e), p1),
                            }
                        } else {
                            (Ok(None), p1)
                        };
                        match return_type {
                            Ok(return_type) => {
                                if p2 < toks.len() && toks[p2] == SpecToken::BraceOpen {
                                    match spec_parse_statement_list(toks, p2 + 1) {
                                        Ok((body, p3)) => Ok(
                                            (
                                                SpecConstAssignmentVal::Function {
                                                    args,
                                                    return_type,
                                                    body,
                                                },
                                                p3,
                                            ),
                                        ),
                                        Err(e) => Err(e),
                                    }
                                } else {
                                    Err(SpecParseError::Expected {
                                        expected: SpecToken::BraceOpen,
                                        found: spec_peek(toks, p2),
                                        pos: p2,
                                    })
                                }
                            },
                            Err(e) => Err(e),
                        }
                    },
                    Err(e) => Err(e),
                }
            } else {
                Err(SpecParseError::Expected {
                    expected: SpecToken::ParenOpen,
                    found: spec_peek(toks, pos + 1),
                    pos: pos + 1,
                })
            }
        },
        Some(SpecToken::Struct) => {
            if pos + 1 < toks.len() && toks[pos + 1] == SpecToken::BraceOpen {
                match spec_parse_pairs(toks, pos + 2, SpecToken::BraceClose) {
                    Ok((members, p1)) => Ok((SpecConstAssignmentVal::Struct(members), p1)),
                    Err(e) => Err(e),
                }
            } else {
                Err(SpecParseError::Expected {
                    expected: SpecToken::BraceOpen,
                    found: spec_peek(toks, pos + 1),
                    pos: pos + 1,
                })
            }
        },
        _ => match spec_parse_expr(toks, pos) {
            Ok((e, p1)) => Ok((SpecConstAssignmentVal::Expression(e), p1)),
            Err(e) => Err(e),
        },
    }
}

/// The bindings of a whole program, parsed until the token stream is
/// exhausted.
pub open spec fn spec_parse_items(toks: Seq<SpecToken>, pos: int) -> Result<
    (Seq<SpecConstAssignment>, int),
    SpecParseError,
>
    decreases toks.len() - pos,
{
    if pos < 0 || pos >= toks.len() {
        Ok((Seq::empty(), pos))
    } else {
        match spec_parse_const_assignment(toks, pos) {
            Ok((ca, p1)) => {
                if pos < p1 && p1 <= toks.len() {
                    match spec_parse_items(toks, p1) {
                        Ok((rest, p2)) => Ok((seq![ca] + rest, p2)),
                        Err(e) => Err(e),
                    }
                } else {
                    Err(SpecParseError::UnexpectedToken { found: None, pos })
                }
            },
            Err(e) => Err(e),
        }
    }
}

/// The abstract syntax tree of a token sequence, or the first parse
/// failure.
pub open spec fn parse_spec(toks: Seq<SpecToken>) -> Result<
    Seq<SpecConstAssignment>,
    SpecParseError,
> {
    match spec_parse_items(toks, 0) {
        Ok((items, p)) => Ok(items),
        Err(e) => Err(e),
    }
}

/// Whether two tokens are the same variant, payloads disregarded.
fn same_kind(a: &Token, b: &Token) -> (r: bool)
    ensures
        r == spec_same_kind(a@, b@),
{
    match (a, b) {
        (Token::Fn, Token::Fn) => true,
        (Token::Return, Token::Return) => true,
        (Token::Let, Token::Let) => true,
        (Token::If, Token::If) => true,
        (Token::While, Token::While) => true,
        (Token::Struct, Token::Struct) => true,
        (Token::ColonColon, Token::ColonColon) => true,
        (Token::Arrow, Token::Arrow) => true,
        (Token::Colon, Token::Colon) => true,
        (Token::Semicolon, Token::Semicolon) => true,
        (Token::Comma, Token::Comma) => true,
        (Token::Period, Token::Period) => true,
        (Token::Plus, Token::Plus) => true,
        (Token::Hyphen, Token::Hyphen) => true,
        (Token::Star, Token::Star) => true,
        (Token::Equals, Token::Equals) => true,
        (Token::EqualsEquals, Token::EqualsEquals) => true,
        (Token::ParenOpen, Token::ParenOpen) => true,
        (Token::ParenClose, Token::ParenClose) => true,
        (Token::BraceOpen, Token::BraceOpen) => true,
        (Token::BraceClose, Token::BraceClose) => true,
        (Token::AngleBracketOpen, Token::AngleBracketOpen) => true,
        (Token::AngleBracketClose, Token::AngleBracketClose) => true,
        (Token::Ident(_), Token::Ident(_)) => true,
        (Token::NumberLiteral(_), Token::NumberLiteral(_)) => true,
        (Token::StringLiteral(_), Token::StringLiteral(_)) => true,
        _ => false,
    }
}

/// The binary operator that `t` denotes at precedence level `level`.
fn level_op(level: usize, t: &Token) -> (r: Option<Operator>)
    ensures
        r == spec_level_op(level as int, t@),
{
    if level == 0 {
        match t {
            Token::Equals => Some(Operator::Assign),
            _ => None,
        }
    } else if level == 1 {
        match t {
            Token::EqualsEquals => Some(Operator::IsEqual),
            _ => None,
        }
    } else if level == 2 {
        match t {
            Token::AngleBracketOpen => Some(Operator::IsLessThan),
            Token::AngleBracketClose => Some(Operator::IsGreaterThan),
            _ => None,
        }
    } else if level == 3 {
        match t {
            Token::Plus => Some(Operator::Add),
            Token::Hyphen => Some(Operator::Subtract),
            _ => None,
        }
    } else if level == 4 {
        match t {
            Token::Star => Some(Operator::Multiply),
            _ => None,
        }
    } else {
        None
    }
}

/// The parser: the token sequence and a single forward-only cursor.
struct Parser {
    tokens: Vec<Token>,
    pos: usize,
}

impl Parser {
    /// The model of the token sequence.
    spec fn toks(&self) -> Seq<SpecToken> {
        self.tokens.deep_view()
    }

    /// A clone of the token under the cursor, or `None` at the end of
    /// the input.
    fn peek_clone(&self) -> (r: Option<Token>)
        ensures
            r.deep_view() == spec_peek(self.toks(), self.pos as int),
    {
        if self.pos < self.tokens.len() {
            Some(self.tokens[self.pos].clone())
        } else {
            None
        }
    }

    /// Advance past the token under the cursor when it is the same
    /// variant as `token`; otherwise leave the cursor alone.
    fn consume(&mut self, token: &Token) -> (r: Option<()>)
        ensures
            final(self).tokens == old(self).tokens,
            r is Some <==> (old(self).pos < old(self).tokens.len() && spec_same_kind(
                old(self).toks()[old(self).pos as int],
                token@,
            )),
            r is Some ==> final(self).pos == old(self).pos + 1,
            r is None ==> final(self).pos == old(self).pos,
    {
        if self.pos < self.tokens.len() && same_kind(&self.tokens[self.pos], token) {
            self.pos += 1;
            Some(())
        } else {
            None
        }
    }

    /// Take the identifier under the cursor, advancing past it; leave
    /// the cursor alone when no identifier stands there.
    fn consume_ident(&mut self) -> (r: Option<String>)
        ensures
            final(self).tokens == old(self).tokens,
            match r {
                Some(s) => {
                    &&& old(self).pos < old(self).tokens.len()
                    &&& old(self).toks()[old(self).pos as int] == SpecToken::Ident(s@)
                    &&& final(self).pos == old(self).pos + 1
                },
                None => {
                    &&& final(self).pos == old(self).pos
                    &&& !(spec_peek(old(self).toks(), old(self).pos as int) matches Some(
                        SpecToken::Ident(_),
                    ))
                },
            },
    {
        if self.pos < self.tokens.len() {
            match &self.tokens[self.pos] {
                Token::Ident(ident) => {
                    let r = ident.clone();
                    self.pos += 1;
                    Some(r)
                },
                _ => None,
            }
        } else {
            None
        }
    }

    /// A type: a base identifier with one trailing `*` per pointer
    /// sigil.
    fn parse_type(&mut self) -> (r: Result<String, ParseError>)
        ensures
            final(self).tokens == old(self).tokens,
            match r {
                Ok(ty) => ({
                    &&& spec_parse_type(old(self).toks(), old(self).pos as int) == Ok::<
                        (Seq<char>, int),
                        SpecParseError,
                    >((ty@, final(self).pos as int))
                    &&& old(self).pos < final(self).pos <= final(self).tokens.len()
                }),
                Err(e) => spec_parse_type(old(self).toks(), old(self).pos as int) == Err::<
                    (Seq<char>, int),
                    SpecParseError,
                >(e.deep_view()),
            },
    {
        let ghost pos0 = self.pos as int;
        match self.consume_ident() {
            Some(mut ty) => {
                let ghost name = ty@;
                while self.pos < self.tokens.len() && same_kind(
                    &self.tokens[self.pos],
                    &Token::Star,
                )
                    invariant
                        self.tokens == old(self).tokens,
                        0 <= pos0 + 1 <= self.pos <= self.tokens.len(),
                        spec_stars_end(self.toks(), pos0 + 1) == spec_stars_end(
                            self.toks(),
                            self.pos as int,
                        ),
                        ty@ =~= name + Seq::new((self.pos - (pos0 + 1)) as nat, |i: int| '*'),
                    decreases self.tokens.len() - self.pos,
                {
                    let ghost before = ty@;
                    let ghost w = self.pos as int;
                    ty.append("*");
                    self.pos += 1;
                    proof {
                        reveal_strlit("*");
                        assert(ty@ =~= name + Seq::new((w + 1 - (pos0 + 1)) as nat, |i: int| '*'));
                    }
                }
                assert(spec_stars_end(self.toks(), pos0 + 1) == self.pos as int);
                Ok(ty)
            },
            None => Err(ParseError::ExpectedIdent { found: self.peek_clone(), pos: self.pos }),
        }
    }

    /// A full expression: the loosest binary level.
    fn parse_expr(&mut self) -> (r: Result<Expression, ParseError>)
        ensures
            final(self).tokens == old(self).tokens,
            match r {
                Ok(e) => ({
                    &&& spec_parse_expr(old(self).toks(), old(self).pos as int) == Ok::<
                        (SpecExpression, int),
                        SpecParseError,
                    >((e.deep_view(), final(self).pos as int))
                    &&& old(self).pos < final(self).pos <= final(self).tokens.len()
                }),
                Err(e) => spec_parse_expr(old(self).toks(), old(self).pos as int) == Err::<
                    (SpecExpression, int),
                    SpecParseError,
                >(e.deep_view()),
            },
        decreases self.tokens.len() - self.pos, 26int,
    {
        self.parse_binary_level(0)
    }

    /// One binary-operator tier; level 5 is the unary tier.
    fn parse_binary_level(&mut self, level: usize) -> (r: Result<Expression, ParseError>)
        requires
            level <= 5,
        ensures
            final(self).tokens == old(self).tokens,
            match r {
                Ok(e) => ({
                    &&& spec_parse_binary(old(self).toks(), old(self).pos as int, level as int)
                        == Ok::<(SpecExpression, int), SpecParseError>(
                        (e.deep_view(), final(self).pos as int),
                    )
                    &&& old(self).pos < final(self).pos <= final(self).tokens.len()
                }),
                Err(e) => spec_parse_binary(old(self).toks(), old(self).pos as int, level as int)
                    == Err::<(SpecExpression, int), SpecParseError>(e.deep_view()),
            },
        decreases self.tokens.len() - self.pos, level_rank(level as int),
    {
        if level == 5 {
            self.parse_unary_rtl()
        } else {
            match self.parse_binary_level(level + 1) {
                Ok(left) => self.parse_binary_chain(level, left),
                Err(e) => Err(e),
            }
        }
    }

    /// The left-associative operator chain of one binary tier.
    fn parse_binary_chain(&mut self, level: usize, left: Expression) -> (r: Result<
        Expression,
        ParseError,
    >)
        requires
            level <= 4,
            old(self).pos <= old(self).tokens.len(),
        ensures
            final(self).tokens == old(self).tokens,
            match r {
                Ok(e) => ({
                    &&& spec_parse_chain(
                        old(self).toks(),
                        old(self).pos as int,
                        level as int,
                        left.deep_view(),
                    ) == Ok::<(SpecExpression, int), SpecParseError>(
                        (e.deep_view(), final(self).pos as int),
                    )
                    &&& old(self).pos <= final(self).pos <= final(self).tokens.len()
                }),
                Err(e) => spec_parse_chain(
                    old(self).toks(),
                    old(self).pos as int,
                    level as int,
                    left.deep_view(),
                ) == Err::<(SpecExpression, int), SpecParseError>(e.deep_view()),
            },
        decreases self.tokens.len() - self.pos, level_rank(level as int),
    {
        if self.pos >= self.tokens.len() {
            return Ok(left);
        }
        let t = self.tokens[self.pos].clone();
        match level_op(level, &t) {
            Some(op) => {
                self.pos += 1;
                match self.parse_binary_level(level + 1) {
                    Ok(right) => {
                        let joined = Expression::BinaryOperator {
                            op,
                            left: Box::new(left),
                            right: Box::new(right),
                        };
                        self.parse_binary_chain(level, joined)
                    },
                    Err(e) => Err(e),
                }
            },
            None => Ok(left),
        }
    }

    /// Unary prefix tier, right to left: a leading `+` or `*` applies to
    /// the next unary-or-tighter expression.
    fn parse_unary_rtl(&mut self) -> (r: Result<Expression, ParseError>)
        ensures
            final(self).tokens == old(self).tokens,
            match r {
                Ok(e) => ({
                    &&& spec_parse_unary(old(self).toks(), old(self).pos as int) == Ok::<
                        (SpecExpression, int),
                        SpecParseError,
                    >((e.deep_view(), final(self).pos as int))
                    &&& old(self).pos < final(self).pos <= final(self).tokens.len()
                }),
                Err(e) => spec_parse_unary(old(self).toks(), old(self).pos as int) == Err::<
                    (SpecExpression, int),
                    SpecParseError,
                >(e.deep_view()),
            },
        decreases self.tokens.len() - self.pos, 19int,
    {
        if self.pos < self.tokens.len() {
            let t = self.tokens[self.pos].clone();
            match Operator::to_unary_op(&t) {
                Some(op) => {
                    self.pos += 1;
                    match self.parse_unary_rtl() {
                        Ok(operand) => Ok(
                            Expression::UnaryOperator { op, operand: Box::new(operand) },
                        ),
                        Err(e) => Err(e),
                    }
                },
                None => self.parse_member(),
            }
        } else {
            self.parse_member()
        }
    }

    /// Member-access tier: a primary expression and its `.` chain.
    fn parse_member(&mut self) -> (r: Result<Expression, ParseError>)
        ensures
            final(self).tokens == old(self).tokens,
            match r {
                Ok(e) => ({
                    &&& spec_parse_member(old(self).toks(), old(self).pos as int) == Ok::<
                        (SpecExpression, int),
                        SpecParseError,
                    >((e.deep_view(), final(self).pos as int))
                    &&& old(self).pos < final(self).pos <= final(self).tokens.len()
                }),
                Err(e) => spec_parse_member(old(self).toks(), old(self).pos as int) == Err::<
                    (SpecExpression, int),
                    SpecParseError,
                >(e.deep_view()),
            },
        decreases self.tokens.len() - self.pos, 18int,
    {
        match self.parse_primary_expr() {
            Ok(e) => self.parse_member_chain(e),
            Err(e) => Err(e),
        }
    }

    /// The left-associative `.` chain after a primary expression.
    fn parse_member_chain(&mut self, left: Expression) -> (r: Result<Expression, ParseError>)
        requires
            old(self).pos <= old(self).tokens.len(),
        ensures
            final(self).tokens == old(self).tokens,
            match r {
                Ok(e) => ({
                    &&& spec_parse_member_chain(
                        old(self).toks(),
                        old(self).pos as int,
                        left.deep_view(),
                    ) == Ok::<(SpecExpression, int), SpecParseError>(
                        (e.deep_view(), final(self).pos as int),
                    )
                    &&& old(self).pos <= final(self).pos <= final(self).tokens.len()
                }),
                Err(e) => spec_parse_member_chain(
                    old(self).toks(),
                    old(self).pos as int,
                    left.deep_view(),
                ) == Err::<(SpecExpression, int), SpecParseError>(e.deep_view()),
            },
        decreases self.tokens.len() - self.pos, 18int,
    {
        if self.pos < self.tokens.len() && same_kind(&self.tokens[self.pos], &Token::Period) {
            self.pos += 1;
            match self.parse_primary_expr() {
                Ok(right) => {
                    let joined = Expression::BinaryOperator {
                        op: Operator::MemberAccess,
                        left: Box::new(left),
                        right: Box::new(right),
                    };
                    self.parse_member_chain(joined)
                },
                Err(e) => Err(e),
            }
        } else {
            Ok(left)
        }
    }

    /// A primary expression: a literal, a parenthesized expression, a
    /// call, or a plain identifier. A call requires the identifier to be
    /// immediately followed by `(`.
    fn parse_primary_expr(&mut self) -> (r: Result<Expression, ParseError>)
        ensures
            final(self).tokens == old(self).tokens,
            match r {
                Ok(e) => ({
                    &&& spec_parse_primary(old(self).toks(), old(self).pos as int) == Ok::<
                        (SpecExpression, int),
                        SpecParseError,
                    >((e.deep_view(), final(self).pos as int))
                    &&& old(self).pos < final(self).pos <= final(self).tokens.len()
                }),
                Err(e) => spec_parse_primary(old(self).toks(), old(self).pos as int) == Err::<
                    (SpecExpression, int),
                    SpecParseError,
                >(e.deep_view()),
            },
        decreases self.tokens.len() - self.pos, 17int,
    {
        if self.pos >= self.tokens.len() {
            return Err(ParseError::UnexpectedToken { found: None, pos: self.pos });
        }
        let t = self.tokens[self.pos].clone();
        match t {
            Token::NumberLiteral(n) => {
                self.pos += 1;
                Ok(Expression::NumberLiteral(n))
            },
            Token::StringLiteral(s) => {
                self.pos += 1;
                Ok(Expression::StringLiteral(s))
            },
            Token::ParenOpen => {
                self.pos += 1;
                match self.parse_expr() {
                    Ok(e) => match self.consume(&Token::ParenClose) {
                        Some(_) => Ok(e),
                        None => Err(ParseError::Expected {
                            expected: Token::ParenClose,
                            found: self.peek_clone(),
                            pos: self.pos,
                        }),
                    },
                    Err(e) => Err(e),
                }
            },
            Token::Ident(name) => {
                if self.pos + 1 < self.tokens.len() && same_kind(
                    &self.tokens[self.pos + 1],
                    &Token::ParenOpen,
                ) {
                    self.pos += 2;
                    match self.parse_call_args() {
                        Ok(args) => {
                            proof {
                                lemma_function_call_view(name, args);
                            }
                            Ok(Expression::FunctionCall(name, args))
                        },
                        Err(e) => Err(e),
                    }
                } else {
                    self.pos += 1;
                    Ok(Expression::Ident(name))
                }
            },
            other => Err(ParseError::UnexpectedToken { found: Some(other), pos: self.pos }),
        }
    }

    /// The comma-separated argument expressions of a call, up to and
    /// including the closing parenthesis.
    fn parse_call_args(&mut self) -> (r: Result<Vec<Expression>, ParseError>)
        ensures
            final(self).tokens == old(self).tokens,
            match r {
                Ok(args) => ({
                    &&& spec_parse_call_args(old(self).toks(), old(self).pos as int) == Ok::<
                        (Seq<SpecExpression>, int),
                        SpecParseError,
                    >((args.deep_view(), final(self).pos as int))
                    &&& old(self).pos < final(self).pos <= final(self).tokens.len()
                }),
                Err(e) => spec_parse_call_args(old(self).toks(), old(self).pos as int) == Err::<
                    (Seq<SpecExpression>, int),
                    SpecParseError,
                >(e.deep_view()),
            },
        decreases self.tokens.len() - self.pos, 27int,
    {
        if self.pos >= self.tokens.len() {
            return Err(ParseError::Expected {
                expected: Token::ParenClose,
                found: None,
                pos: self.pos,
            });
        }
        if same_kind(&self.tokens[self.pos], &Token::ParenClose) {
            self.pos += 1;
            let args: Vec<Expression> = Vec::new();
            proof {
                assert(args.deep_view() =~= Seq::<SpecExpression>::empty());
            }
            return Ok(args);
        }
        match self.parse_expr() {
            Ok(e) => {
                if self.pos < self.tokens.len() && same_kind(
                    &self.tokens[self.pos],
                    &Token::Comma,
                ) {
                    self.pos += 1;
                    match self.parse_call_args() {
                        Ok(mut rest) => {
                            let ghost rest0 = rest.deep_view();
                            rest.insert(0, e);
                            proof {
                                assert(rest.deep_view() =~= seq![e.deep_view()] + rest0);
                            }
                            Ok(rest)
                        },
                        Err(err) => Err(err),
                    }
                } else if self.pos < self.tokens.len() && same_kind(
                    &self.tokens[self.pos],
                    &Token::ParenClose,
                ) {
                    self.pos += 1;
                    let args = vec![e];
                    proof {
                        assert(args.deep_view() =~= seq![args@[0].deep_view()]);
                    }
                    Ok(args)
                } else {
                    Err(ParseError::Expected {
                        expected: Token::ParenClose,
                        found: self.peek_clone(),
                        pos: self.pos,
                    })
                }
            },
            Err(e) => Err(e),
        }
    }
}

impl Parser {
    /// A statement, selected by its leading token.
    fn parse_statement(&mut self) -> (r: Result<Statement, ParseError>)
        ensures
            final(self).tokens == old(self).tokens,
            match r {
                Ok(s) => ({
                    &&& spec_parse_statement(old(self).toks(), old(self).pos as int) == Ok::<
                        (SpecStatement, int),
                        SpecParseError,
                    >((s.deep_view(), final(self).pos as int))
                    &&& old(self).pos < final(self).pos <= final(self).tokens.len()
                }),
                Err(e) => spec_parse_statement(old(self).toks(), old(self).pos as int) == Err::<
                    (SpecStatement, int),
                    SpecParseError,
                >(e.deep_view()),
            },
        decreases self.tokens.len() - self.pos, 30int,
    {
        let t = self.peek_clone();
        match t {
            Some(Token::Return) => {
                self.pos += 1;
                match self.parse_expr() {
                    Ok(e) => match self.consume(&Token::Semicolon) {
                        Some(_) => Ok(Statement::Return(e)),
                        None => Err(ParseError::Expected {
                            expected: Token::Semicolon,
                            found: self.peek_clone(),
                            pos: self.pos,
                        }),
                    },
                    Err(e) => Err(e),
                }
            },
            Some(Token::Let) => {
                self.pos += 1;
                match self.consume_ident() {
                    Some(name) => match self.consume(&Token::Colon) {
                        Some(_) => match self.parse_type() {
                            Ok(ty) => {
                                if self.pos < self.tokens.len() && same_kind(
                                    &self.tokens[self.pos],
                                    &Token::Equals,
                                ) {
                                    self.pos += 1;
                                    match self.parse_expr() {
                                        Ok(e) => match self.consume(&Token::Semicolon) {
                                            Some(_) => Ok(Statement::Let(name, ty, Some(e))),
                                            None => Err(ParseError::Expected {
                                                expected: Token::Semicolon,
                                                found: self.peek_clone(),
                                                pos: self.pos,
                                            }),
                                        },
                                        Err(e) => Err(e),
                                    }
                                } else {
                                    match self.consume(&Token::Semicolon) {
                                        Some(_) => Ok(Statement::Let(name, ty, None)),
                                        None => Err(ParseError::Expected {
                                            expected: Token::Semicolon,
                                            found: self.peek_clone(),
                                            pos: self.pos,
                                        }),
                                    }
                                }
                            },
                            Err(e) => Err(e),
                        },
                        None => Err(ParseError::Expected {
                            expected: Token::Colon,
                            found: self.peek_clone(),
                            pos: self.pos,
                        }),
                    },
                    None => Err(ParseError::ExpectedIdent {
                        found: self.peek_clone(),
                        pos: self.pos,
                    }),
                }
            },
            Some(Token::If) => match self.parse_condition_body() {
                Ok((cond, body)) => Ok(Statement::If(cond, Box::new(body))),
                Err(e) => Err(e),
            },
            Some(Token::While) => match self.parse_condition_body() {
                Ok((cond, body)) => Ok(Statement::While(cond, Box::new(body))),
                Err(e) => Err(e),
            },
            Some(Token::BraceOpen) => {
                self.pos += 1;
                match self.parse_statement_list() {
                    Ok(body) => {
                        proof {
                            lemma_compound_view(body);
                        }
                        Ok(Statement::Compound(body))
                    },
                    Err(e) => Err(e),
                }
            },
            _ => match self.parse_expr() {
                Ok(e) => match self.consume(&Token::Semicolon) {
                    Some(_) => Ok(Statement::Expression(e)),
                    None => Err(ParseError::Expected {
                        expected: Token::Semicolon,
                        found: self.peek_clone(),
                        pos: self.pos,
                    }),
                },
                Err(e) => Err(e),
            },
        }
    }

    /// The shared shape of `if` and `while`: `( condition ) statement`.
    fn parse_condition_body(&mut self) -> (r: Result<(Expression, Statement), ParseError>)
        requires
            old(self).pos < old(self).tokens.len(),
        ensures
            final(self).tokens == old(self).tokens,
            match r {
                Ok(p) => ({
                    &&& spec_parse_condition_body(old(self).toks(), old(self).pos as int) == Ok::<
                        (SpecExpression, SpecStatement, int),
                        SpecParseError,
                    >((p.0.deep_view(), p.1.deep_view(), final(self).pos as int))
                    &&& old(self).pos < final(self).pos <= final(self).tokens.len()
                }),
                Err(e) => spec_parse_condition_body(old(self).toks(), old(self).pos as int)
                    == Err::<(SpecExpression, SpecStatement, int), SpecParseError>(e.deep_view()),
            },
        decreases self.tokens.len() - self.pos, 29int,
    {
        if self.pos + 1 < self.tokens.len() && same_kind(
            &self.tokens[self.pos + 1],
            &Token::ParenOpen,
        ) {
            self.pos += 2;
            match self.parse_expr() {
                Ok(cond) => match self.consume(&Token::ParenClose) {
                    Some(_) => match self.parse_statement() {
                        Ok(body) => Ok((cond, body)),
                        Err(e) => Err(e),
                    },
                    None => Err(ParseError::Expected {
                        expected: Token::ParenClose,
                        found: self.peek_clone(),
                        pos: self.pos,
                    }),
                },
                Err(e) => Err(e),
            }
        } else {
            let found = if self.pos + 1 < self.tokens.len() {
                Some(self.tokens[self.pos + 1].clone())
            } else {
                None
            };
            Err(ParseError::Expected {
                expected: Token::ParenOpen,
                found,
                pos: self.pos + 1,
            })
        }
    }

    /// The statements of a block, up to and including the closing brace.
    fn parse_statement_list(&mut self) -> (r: Result<Vec<Statement>, ParseError>)
        ensures
            final(self).tokens == old(self).tokens,
            match r {
                Ok(list) => ({
                    &&& spec_parse_statement_list(old(self).toks(), old(self).pos as int) == Ok::<
                        (Seq<SpecStatement>, int),
                        SpecParseError,
                    >((list.deep_view(), final(self).pos as int))
                    &&& old(self).pos < final(self).pos <= final(self).tokens.len()
                }),
                Err(e) => spec_parse_statement_list(old(self).toks(), old(self).pos as int)
                    == Err::<(Seq<SpecStatement>, int), SpecParseError>(e.deep_view()),
            },
        decreases self.tokens.len() - self.pos, 31int,
    {
        if self.pos >= self.tokens.len() {
            return Err(ParseError::Expected {
                expected: Token::BraceClose,
                found: None,
                pos: self.pos,
            });
        }
        if same_kind(&self.tokens[self.pos], &Token::BraceClose) {
            self.pos += 1;
            let list: Vec<Statement> = Vec::new();
            proof {
                assert(list.deep_view() =~= Seq::<SpecStatement>::empty());
            }
            return Ok(list);
        }
        match self.parse_statement() {
            Ok(s) => match self.parse_statement_list() {
                Ok(mut rest) => {
                    let ghost rest0 = rest.deep_view();
                    rest.insert(0, s);
                    proof {
                        assert(rest.deep_view() =~= seq![rest@[0].deep_view()] + rest0);
                    }
                    Ok(rest)
                },
                Err(e) => Err(e),
            },
            Err(e) => Err(e),
        }
    }

    /// A comma-separated `name : type` list up to and including `term`.
    fn parse_pairs(&mut self, term: &Token) -> (r: Result<Vec<(String, String)>, ParseError>)
        requires
            term@ == SpecToken::ParenClose || term@ == SpecToken::BraceClose,
        ensures
            final(self).tokens == old(self).tokens,
            match r {
                Ok(list) => ({
                    &&& spec_parse_pairs(old(self).toks(), old(self).pos as int, term@) == Ok::<
                        (Seq<(Seq<char>, Seq<char>)>, int),
                        SpecParseError,
                    >((list.deep_view(), final(self).pos as int))
                    &&& old(self).pos < final(self).pos <= final(self).tokens.len()
                }),
                Err(e) => spec_parse_pairs(old(self).toks(), old(self).pos as int, term@)
                    == Err::<(Seq<(Seq<char>, Seq<char>)>, int), SpecParseError>(e.deep_view()),
            },
        decreases self.tokens.len() - self.pos,
    {
        if self.pos >= self.tokens.len() {
            return Err(ParseError::Expected {
                expected: term.clone(),
                found: None,
                pos: self.pos,
            });
        }
        if same_kind(&self.tokens[self.pos], term) {
            self.pos += 1;
            let list: Vec<(String, String)> = Vec::new();
            proof {
                assert(list.deep_view() =~= Seq::<(Seq<char>, Seq<char>)>::empty());
            }
            return Ok(list);
        }
        match self.consume_ident() {
            Some(name) => match self.consume(&Token::Colon) {
                Some(_) => match self.parse_type() {
                    Ok(ty) => {
                        if self.pos < self.tokens.len() && same_kind(
                            &self.tokens[self.pos],
                            term,
                        ) {
                            self.pos += 1;
                            let list = vec![(name, ty)];
                            proof {
                                assert(list.deep_view() =~= seq![list@[0].deep_view()]);
                            }
                            Ok(list)
                        } else if self.pos < self.tokens.len() && same_kind(
                            &self.tokens[self.pos],
                            &Token::Comma,
                        ) {
                            self.pos += 1;
                            match self.parse_pairs(term) {
                                Ok(mut rest) => {
                                    let ghost rest0 = rest.deep_view();
                                    rest.insert(0, (name, ty));
                                    proof {
                                        assert(rest.deep_view() =~= seq![rest@[0].deep_view()]
                                            + rest0);
                                    }
                                    Ok(rest)
                                },
                                Err(e) => Err(e),
                            }
                        } else {
                            Err(ParseError::Expected {
                                expected: Token::Comma,
                                found: self.peek_clone(),
                                pos: self.pos,
                            })
                        }
                    },
                    Err(e) => Err(e),
                },
                None => Err(ParseError::Expected {
                    expected: Token::Colon,
                    found: self.peek_clone(),
                    pos: self.pos,
                }),
            },
            None => Err(ParseError::ExpectedIdent { found: self.peek_clone(), pos: self.pos }),
        }
    }

    /// The right-hand side of a binding: a function, a struct, or an
    /// expression.
    fn parse_value(&mut self) -> (r: Result<ConstAssignmentVal, ParseError>)
        ensures
            final(self).tokens == old(self).tokens,
            match r {
                Ok(v) => ({
                    &&& spec_parse_value(old(self).toks(), old(self).pos as int) == Ok::<
                        (SpecConstAssignmentVal, int),
                        SpecParseError,
                    >((v.deep_view(), final(self).pos as int))
                    &&& old(self).pos < final(self).pos <= final(self).tokens.len()
                }),
                Err(e) => spec_parse_value(old(self).toks(), old(self).pos as int) == Err::<
                    (SpecConstAssignmentVal, int),
                    SpecParseError,
                >(e.deep_view()),
            },
    {
        let t = self.peek_clone();
        match t {
            Some(Token::Fn) => {
                assert(self.pos < self.tokens.len());
                if self.pos + 1 < self.tokens.len() && same_kind(
                    &self.tokens[self.pos + 1],
                    &Token::ParenOpen,
                ) {
                    self.pos += 2;
                    match self.parse_pairs(&Token::ParenClose) {
                        Ok(args) => {
                            let return_type = if self.pos < self.tokens.len() && same_kind(
                                &self.tokens[self.pos],
                                &Token::Arrow,
                            ) {
                                self.pos += 1;
                                match self.parse_type() {
                                    Ok(ty) => Some(ty),
                                    Err(e) => {
                                        return Err(e);
                                    },
                                }
                            } else {
                                None
                            };
                            if self.pos < self.tokens.len() && same_kind(
                                &self.tokens[self.pos],
                                &Token::BraceOpen,
                            ) {
                                self.pos += 1;
                                match self.parse_statement_list() {
                                    Ok(body) => {
                                        proof {
                                            lemma_function_val_view(args, return_type, body);
                                        }
                                        Ok(ConstAssignmentVal::Function {
                                            args,
                                            return_type,
                                            body,
                                        })
                                    },
                                    Err(e) => Err(e),
                                }
                            } else {
                                Err(ParseError::Expected {
                                    expected: Token::BraceOpen,
                                    found: self.peek_clone(),
                                    pos: self.pos,
                                })
                            }
                        },
                        Err(e) => Err(e),
                    }
                } else {
                    let found = if self.pos + 1 < self.tokens.len() {
                        Some(self.tokens[self.pos + 1].clone())
                    } else {
                        None
                    };
                    Err(ParseError::Expected {
                        expected: Token::ParenOpen,
                        found,
                        pos: self.pos + 1,
                    })
                }
            },
            Some(Token::Struct) => {
                assert(self.pos < self.tokens.len());
                if self.pos + 1 < self.tokens.len() && same_kind(
                    &self.tokens[self.pos + 1],
                    &Token::BraceOpen,
                ) {
                    self.pos += 2;
                    match self.parse_pairs(&Token::BraceClose) {
                        Ok(members) => Ok(ConstAssignmentVal::Struct(members)),
                        Err(e) => Err(e),
                    }
                } else {
                    let found = if self.pos + 1 < self.tokens.len() {
                        Some(self.tokens[self.pos + 1].clone())
                    } else {
                        None
                    };
                    Err(ParseError::Expected {
                        expected: Token::BraceOpen,
                        found,
                        pos: self.pos + 1,
                    })
                }
            },
            _ => match self.parse_expr() {
                Ok(e) => Ok(ConstAssignmentVal::Expression(e)),
                Err(e) => Err(e),
            },
        }
    }

    /// One top-level binding `name :: value ;`.
    fn parse_const_assignment(&mut self) -> (r: Result<ConstAssignment, ParseError>)
        ensures
            final(self).tokens == old(self).tokens,
            match r {
                Ok(ca) => ({
                    &&& spec_parse_const_assignment(old(self).toks(), old(self).pos as int)
                        == Ok::<(SpecConstAssignment, int), SpecParseError>(
                        (ca.deep_view(), final(self).pos as int),
                    )
                    &&& old(self).pos < final(self).pos <= final(self).tokens.len()
                }),
                Err(e) => spec_parse_const_assignment(old(self).toks(), old(self).pos as int)
                    == Err::<(SpecConstAssignment, int), SpecParseError>(e.deep_view()),
            },
    {
        match self.consume_ident() {
            Some(name) => match self.consume(&Token::ColonColon) {
                Some(_) => match self.parse_value() {
                    Ok(val) => match self.consume(&Token::Semicolon) {
                        Some(_) => Ok(ConstAssignment(name, val)),
                        None => Err(ParseError::Expected {
                            expected: Token::Semicolon,
                            found: self.peek_clone(),
                            pos: self.pos,
                        }),
                    },
                    Err(e) => Err(e),
                },
                None => Err(ParseError::Expected {
                    expected: Token::ColonColon,
                    found: self.peek_clone(),
                    pos: self.pos,
                }),
            },
            None => Err(ParseError::ExpectedIdent { found: self.peek_clone(), pos: self.pos }),
        }
    }

    /// The whole program: bindings until the token stream is exhausted.
    fn parse(self) -> (r: Result<AstRoot, ParseError>)
        requires
            self.pos == 0,
        ensures
            match r {
                Ok(ast) => parse_spec(self.toks()) == Ok::<Seq<SpecConstAssignment>,
                    SpecParseError,
                >(ast.deep_view()),
                Err(e) => parse_spec(self.toks()) == Err::<Seq<SpecConstAssignment>,
                    SpecParseError,
                >(e.deep_view()),
            },
    {
        let ghost toks = self.toks();
        let mut this = self;
        let mut items: Vec<ConstAssignment> = Vec::new();
        proof {
            assert(items.deep_view() =~= Seq::<SpecConstAssignment>::empty());
            match spec_parse_items(toks, 0) {
                Ok((rest, pend)) => {
                    assert(items.deep_view() + rest =~= rest);
                },
                Err(e) => {},
            }
        }
        while this.pos < this.tokens.len()
            invariant
                toks == self.toks(),
                this.toks() == toks,
                match spec_parse_items(toks, this.pos as int) {
                    Ok((rest, pend)) => spec_parse_items(toks, 0) == Ok::<
                        (Seq<SpecConstAssignment>, int),
                        SpecParseError,
                    >((items.deep_view() + rest, pend)),
                    Err(e) => spec_parse_items(toks, 0) == Err::<
                        (Seq<SpecConstAssignment>, int),
                        SpecParseError,
                    >(e),
                },
            decreases this.tokens.len() - this.pos,
        {
            let ghost items0 = items.deep_view();
            let ghost p0 = this.pos as int;
            match this.parse_const_assignment() {
                Ok(ca) => {
                    items.push(ca);
                    proof {
                        assert(items.deep_view() =~= items0.push(
                            items@[items@.len() - 1].deep_view(),
                        ));
                        match spec_parse_items(toks, this.pos as int) {
                            Ok((rest, pend)) => {
                                assert(items0 + (seq![items@[items@.len() - 1].deep_view()]
                                    + rest) =~= items.deep_view() + rest);
                            },
                            Err(e) => {},
                        }
                    }
                },
                Err(e) => {
                    return Err(e);
                },
            }
        }
        proof {
            assert(items.deep_view() + Seq::<SpecConstAssignment>::empty() =~= items.deep_view());
        }
        Ok(AstRoot(items))
    }
}

/// Parse a token sequence into its abstract syntax tree, or report the
/// first failure. Returns exactly what `parse_spec` describes.
pub fn parse(tokens: Vec<Token>) -> (r: Result<AstRoot, ParseError>)
    ensures
        match r {
            Ok(ast) => parse_spec(tokens.deep_view()) == Ok::<
                Seq<SpecConstAssignment>,
                SpecParseError,
            >(ast.deep_view()),
            Err(e) => parse_spec(tokens.deep_view()) == Err::<
                Seq<SpecConstAssignment>,
                SpecParseError,
            >(e.deep_view()),
        },
{
    let parser = Parser { tokens, pos: 0 };
    parser.parse()
}

} // verus!
