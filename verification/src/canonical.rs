//! The canonical token print of a syntax tree, and the proof that
//! re-parsing it reconstructs the tree exactly.
//!
//! `expr_tokens` prints every binary operation fully parenthesized and
//! every unary operation as `( op operand )`, so the print of any
//! well-formed expression is unambiguous; `program_tokens` extends the
//! print to statements and whole programs, with a type printed as one
//! identifier token carrying its full text. `lemma_expr_round_trip` and
//! `lemma_program_round_trip` show that the parser maps the print back
//! to the very tree it came from: together with the parser's functional
//! contract this pins down that parsing loses nothing of a tree's
//! shape.

use vstd::prelude::*;

use crate::ast::{
    Operator, SpecConstAssignment, SpecConstAssignmentVal, SpecExpression, SpecStatement,
};
use crate::lexer::SpecToken;
use crate::parser::{
    SpecParseError, parse_spec, spec_level_op, spec_parse_binary, spec_parse_call_args,
    spec_parse_chain, spec_parse_const_assignment, spec_parse_expr, spec_parse_items,
    spec_parse_member, spec_parse_member_chain, spec_parse_pairs, spec_parse_primary,
    spec_parse_statement, spec_parse_statement_list, spec_parse_type, spec_parse_unary,
    spec_parse_value, spec_peek,
};

verus! {

broadcast use vstd::seq::group_seq_axioms;

/// Operators that stand between two operands.
pub open spec fn is_binary_operator(op: Operator) -> bool {
    op != Operator::UnaryPlus && op != Operator::Deref
}

/// Operators that stand before one operand.
pub open spec fn is_unary_operator(op: Operator) -> bool {
    op == Operator::UnaryPlus || op == Operator::Deref
}

/// A well-formed expression: every binary node carries a binary
/// operator, every unary node a unary one. The parser only ever builds
/// such trees.
pub open spec fn wf_expr(e: SpecExpression) -> bool
    decreases e,
{
    match e {
        SpecExpression::NumberLiteral(_) => true,
        SpecExpression::StringLiteral(_) => true,
        SpecExpression::Ident(_) => true,
        SpecExpression::BinaryOperator { op, left, right } => is_binary_operator(op) && wf_expr(
            *left,
        ) && wf_expr(*right),
        SpecExpression::UnaryOperator { op, operand } => is_unary_operator(op) && wf_expr(
            *operand,
        ),
        SpecExpression::FunctionCall(name, args) => wf_expr_seq(args),
    }
}

/// Every expression of a sequence is well formed.
pub open spec fn wf_expr_seq(args: Seq<SpecExpression>) -> bool
    decreases args,
{
    if args.len() == 0 {
        true
    } else {
        wf_expr(args[0]) && wf_expr_seq(args.drop_first())
    }
}

/// The token an operator prints as. `UnaryPlus` and `Deref` share their
/// tokens with `Add` and `Multiply`; the position tells them apart.
pub open spec fn token_of_operator(op: Operator) -> SpecToken {
    match op {
        Operator::Assign => SpecToken::Equals,
        Operator::Add => SpecToken::Plus,
        Operator::UnaryPlus => SpecToken::Plus,
        Operator::Subtract => SpecToken::Hyphen,
        Operator::Multiply => SpecToken::Star,
        Operator::Deref => SpecToken::Star,
        Operator::IsEqual => SpecToken::EqualsEquals,
        Operator::IsLessThan => SpecToken::AngleBracketOpen,
        Operator::IsGreaterThan => SpecToken::AngleBracketClose,
        Operator::MemberAccess => SpecToken::Period,
    }
}

/// The precedence level a binary operator is parsed at; member access
/// sits below all binary tiers.
pub open spec fn spec_binary_op_level(op: Operator) -> int {
    match op {
        Operator::Assign => 0,
        Operator::IsEqual => 1,
        Operator::IsLessThan => 2,
        Operator::IsGreaterThan => 2,
        Operator::Add => 3,
        Operator::Subtract => 3,
        Operator::Multiply => 4,
        _ => 5,
    }
}

/// The canonical token print of an expression: literals and identifiers
/// print as their own token, every binary operation as
/// `( left op right )`, every unary operation as `( op operand )`, and a
/// call as `name ( arg , arg )`.
pub open spec fn expr_tokens(e: SpecExpression) -> Seq<SpecToken>
    decreases e,
{
    match e {
        SpecExpression::NumberLiteral(n) => seq![SpecToken::NumberLiteral(n)],
        SpecExpression::StringLiteral(s) => seq![SpecToken::StringLiteral(s)],
        SpecExpression::Ident(s) => seq![SpecToken::Ident(s)],
        SpecExpression::BinaryOperator { op, left, right } => seq![SpecToken::ParenOpen]
            + expr_tokens(*left) + seq![token_of_operator(op)] + expr_tokens(*right)
            + seq![SpecToken::ParenClose],
        SpecExpression::UnaryOperator { op, operand } => seq![
            SpecToken::ParenOpen,
            token_of_operator(op),
        ] + expr_tokens(*operand) + seq![SpecToken::ParenClose],
        SpecExpression::FunctionCall(name, args) => seq![
            SpecToken::Ident(name),
            SpecToken::ParenOpen,
        ] + args_tokens(args) + seq![SpecToken::ParenClose],
    }
}

/// The canonical print of call arguments, joined by commas.
pub open spec fn args_tokens(args: Seq<SpecExpression>) -> Seq<SpecToken>
    decreases args,
{
    if args.len() == 0 {
        Seq::empty()
    } else if args.len() == 1 {
        expr_tokens(args[0])
    } else {
        expr_tokens(args[0]) + seq![SpecToken::Comma] + args_tokens(args.drop_first())
    }
}

/// Whether `t`, standing right after an expression, would extend that
/// expression when parsing at binary level `level` or anywhere tighter.
pub open spec fn token_extends_expression(level: int, t: SpecToken) -> bool {
    ||| (t == SpecToken::Equals && level <= 0)
    ||| (t == SpecToken::EqualsEquals && level <= 1)
    ||| ((t == SpecToken::AngleBracketOpen || t == SpecToken::AngleBracketClose) && level <= 2)
    ||| ((t == SpecToken::Plus || t == SpecToken::Hyphen) && level <= 3)
    ||| (t == SpecToken::Star && level <= 4)
    ||| t == SpecToken::Period
}

/// The token after `end` cannot turn a preceding identifier into a call.
pub open spec fn stops_primary(toks: Seq<SpecToken>, end: int, e: SpecExpression) -> bool {
    match spec_peek(toks, end) {
        None => true,
        Some(t) => (e is Ident) ==> t != SpecToken::ParenOpen,
    }
}

/// The token after `end` extends no member chain either.
pub open spec fn stops_member(toks: Seq<SpecToken>, end: int, e: SpecExpression) -> bool {
    &&& stops_primary(toks, end, e)
    &&& spec_peek(toks, end) != Some(SpecToken::Period)
}

/// The token after `end` extends no parse at binary level `level` or
/// tighter.
pub open spec fn stops_binary(toks: Seq<SpecToken>, end: int, level: int, e: SpecExpression) -> bool {
    match spec_peek(toks, end) {
        None => true,
        Some(t) => !token_extends_expression(level, t) && ((e is Ident) ==> t
            != SpecToken::ParenOpen),
    }
}

/// The canonical print of `e` stands in `toks` at position `pos`.
pub open spec fn print_at(toks: Seq<SpecToken>, pos: int, e: SpecExpression) -> bool {
    text_at(toks, pos, expr_tokens(e))
}

/// A piece of token text stands in `toks` at position `pos`.
pub open spec fn text_at(toks: Seq<SpecToken>, pos: int, t: Seq<SpecToken>) -> bool {
    &&& 0 <= pos
    &&& pos + t.len() <= toks.len()
    &&& toks.subrange(pos, pos + t.len() as int) == t
}

/// One token of a matched piece, read from the whole sequence.
proof fn lemma_text_index(toks: Seq<SpecToken>, pos: int, t: Seq<SpecToken>, j: int)
    requires
        text_at(toks, pos, t),
        0 <= j < t.len(),
    ensures
        toks[pos + j] == t[j],
{
    assert(t[j] == toks.subrange(pos, pos + t.len() as int)[j]);
}

/// A matched concatenation of three pieces matches piece by piece.
proof fn lemma_text_split3(
    toks: Seq<SpecToken>,
    pos: int,
    a: Seq<SpecToken>,
    b: Seq<SpecToken>,
    c: Seq<SpecToken>,
)
    requires
        text_at(toks, pos, a + b + c),
    ensures
        text_at(toks, pos, a),
        text_at(toks, pos + a.len(), b),
        text_at(toks, pos + a.len() + b.len(), c),
{
    let whole = a + b + c;
    assert forall|j: int| 0 <= j < whole.len() implies toks[pos + j] == whole[j] by {
        lemma_text_index(toks, pos, whole, j);
    }
    assert forall|i: int| 0 <= i < a.len() implies toks.subrange(pos, pos + a.len() as int)[i]
        == a[i] by {
        assert(whole[i] == a[i]);
        assert(toks[pos + i] == whole[i]);
    }
    assert(toks.subrange(pos, pos + a.len() as int) =~= a);
    assert forall|i: int| 0 <= i < b.len() implies toks.subrange(
        pos + a.len(),
        pos + a.len() + b.len() as int,
    )[i] == b[i] by {
        assert(whole[a.len() + i] == b[i]);
        assert(toks[pos + (a.len() + i)] == whole[a.len() + i]);
    }
    assert(toks.subrange(pos + a.len(), pos + a.len() + b.len() as int) =~= b);
    assert forall|i: int| 0 <= i < c.len() implies toks.subrange(
        pos + a.len() + b.len(),
        pos + whole.len() as int,
    )[i] == c[i] by {
        assert(whole[a.len() + b.len() + i] == c[i]);
        assert(toks[pos + (a.len() + b.len() + i)] == whole[a.len() + b.len() + i]);
    }
    assert(toks.subrange(pos + a.len() + b.len(), pos + whole.len() as int) =~= c);
}

/// The canonical print of an expression is never empty.
proof fn lemma_expr_tokens_nonempty(e: SpecExpression)
    ensures
        expr_tokens(e).len() >= 1,
{
}

/// The first token of a canonical print is a literal, an identifier, or
/// an opening parenthesis; never an operator token.
proof fn lemma_print_starts_openly(e: SpecExpression)
    ensures
        expr_tokens(e).len() >= 1,
        (expr_tokens(e)[0] is NumberLiteral || expr_tokens(e)[0] is StringLiteral || expr_tokens(
            e,
        )[0] is Ident || expr_tokens(e)[0] == SpecToken::ParenOpen),
{
    match e {
        SpecExpression::BinaryOperator { op, left, right } => {
            assert(expr_tokens(e)[0] == SpecToken::ParenOpen);
        },
        SpecExpression::UnaryOperator { op, operand } => {
            assert(expr_tokens(e)[0] == SpecToken::ParenOpen);
        },
        SpecExpression::FunctionCall(name, args) => {
            assert(expr_tokens(e)[0] == SpecToken::Ident(name));
        },
        _ => {},
    }
}

/// A primary parse of the canonical print yields the expression back.
proof fn lemma_rt_primary(toks: Seq<SpecToken>, pos: int, e: SpecExpression)
    requires
        wf_expr(e),
        print_at(toks, pos, e),
        stops_primary(toks, pos + expr_tokens(e).len(), e),
    ensures
        spec_parse_primary(toks, pos) == Ok::<(SpecExpression, int), SpecParseError>(
            (e, pos + expr_tokens(e).len()),
        ),
    decreases expr_tokens(e).len(), 0int,
{
    let t = expr_tokens(e);
    let end = pos + t.len();
    lemma_text_index(toks, pos, t, 0);
    match e {
        SpecExpression::NumberLiteral(n) => {},
        SpecExpression::StringLiteral(s) => {},
        SpecExpression::Ident(s) => {},
        SpecExpression::BinaryOperator { op, left, right } => {
            let lt = expr_tokens(*left);
            let rt = expr_tokens(*right);
            let inner = lt + seq![token_of_operator(op)] + rt;
            assert(t =~= seq![SpecToken::ParenOpen] + inner + seq![SpecToken::ParenClose]);
            lemma_text_split3(
                toks,
                pos,
                seq![SpecToken::ParenOpen],
                inner,
                seq![SpecToken::ParenClose],
            );
            lemma_text_index(toks, pos + 1 + inner.len(), seq![SpecToken::ParenClose], 0);
            lemma_rt_bin_inner(toks, pos + 1, op, *left, *right, 0);
        },
        SpecExpression::UnaryOperator { op, operand } => {
            let ot = expr_tokens(*operand);
            let inner = seq![token_of_operator(op)] + ot;
            assert(t =~= seq![SpecToken::ParenOpen] + inner + seq![SpecToken::ParenClose]);
            lemma_text_split3(
                toks,
                pos,
                seq![SpecToken::ParenOpen],
                inner,
                seq![SpecToken::ParenClose],
            );
            lemma_text_index(toks, pos + 1 + inner.len(), seq![SpecToken::ParenClose], 0);
            lemma_rt_unary_inner(toks, pos + 1, op, *operand, 0);
        },
        SpecExpression::FunctionCall(name, args) => {
            let at = args_tokens(args);
            let opening = seq![SpecToken::Ident(name), SpecToken::ParenOpen];
            assert(t =~= opening + at + seq![SpecToken::ParenClose]);
            lemma_text_split3(toks, pos, opening, at, seq![SpecToken::ParenClose]);
            lemma_text_index(toks, pos, opening, 1);
            lemma_text_index(toks, pos + 2 + at.len(), seq![SpecToken::ParenClose], 0);
            lemma_rt_args(toks, pos + 2, args);
        },
    }
}

/// Parsing the arguments-and-closing-parenthesis piece of a canonical
/// call yields the argument list back.
proof fn lemma_rt_args(toks: Seq<SpecToken>, pos: int, args: Seq<SpecExpression>)
    requires
        wf_expr_seq(args),
        text_at(toks, pos, args_tokens(args)),
        spec_peek(toks, pos + args_tokens(args).len()) == Some(SpecToken::ParenClose),
    ensures
        spec_parse_call_args(toks, pos) == Ok::<(Seq<SpecExpression>, int), SpecParseError>(
            (args, pos + args_tokens(args).len() + 1),
        ),
    decreases args_tokens(args).len(), 9int,
{
    let at = args_tokens(args);
    let end = pos + at.len() as int;
    if args.len() == 0 {
        assert(args =~= Seq::<SpecExpression>::empty());
        assert(spec_parse_call_args(toks, pos) == Ok::<
            (Seq<SpecExpression>, int),
            SpecParseError,
        >((args, end + 1)));
    } else if args.len() == 1 {
        let a0 = args[0];
        lemma_print_starts_openly(a0);
        lemma_text_index(toks, pos, at, 0);
        lemma_rt_binary(toks, pos, a0, 0);
        assert(args =~= seq![a0]);
        assert(spec_parse_expr(toks, pos) == Ok::<(SpecExpression, int), SpecParseError>(
            (a0, end),
        ));
        assert(spec_parse_call_args(toks, pos) == Ok::<
            (Seq<SpecExpression>, int),
            SpecParseError,
        >((args, end + 1)));
    } else {
        let a0 = args[0];
        let t0 = expr_tokens(a0);
        let rest = args.drop_first();
        assert(at =~= t0 + seq![SpecToken::Comma] + args_tokens(rest));
        lemma_text_split3(toks, pos, t0, seq![SpecToken::Comma], args_tokens(rest));
        lemma_text_index(toks, pos + t0.len(), seq![SpecToken::Comma], 0);
        lemma_print_starts_openly(a0);
        lemma_text_index(toks, pos, t0, 0);
        lemma_rt_binary(toks, pos, a0, 0);
        let p1 = pos + t0.len() as int;
        assert(spec_parse_expr(toks, pos) == Ok::<(SpecExpression, int), SpecParseError>(
            (a0, p1),
        ));
        lemma_rt_args(toks, p1 + 1, rest);
        assert(seq![a0] + rest =~= args);
        assert(spec_parse_call_args(toks, pos) == Ok::<
            (Seq<SpecExpression>, int),
            SpecParseError,
        >((args, end + 1)));
    }
}

/// A member-tier parse of the canonical print yields the expression
/// back.
proof fn lemma_rt_member(toks: Seq<SpecToken>, pos: int, e: SpecExpression)
    requires
        wf_expr(e),
        print_at(toks, pos, e),
        stops_member(toks, pos + expr_tokens(e).len(), e),
    ensures
        spec_parse_member(toks, pos) == Ok::<(SpecExpression, int), SpecParseError>(
            (e, pos + expr_tokens(e).len()),
        ),
    decreases expr_tokens(e).len(), 1int,
{
    lemma_rt_primary(toks, pos, e);
    lemma_expr_tokens_nonempty(e);
    let end = pos + expr_tokens(e).len() as int;
    assert(spec_parse_member_chain(toks, end, e) == Ok::<(SpecExpression, int), SpecParseError>(
        (e, end),
    ));
}

/// A unary-tier parse of the canonical print yields the expression back.
proof fn lemma_rt_unary(toks: Seq<SpecToken>, pos: int, e: SpecExpression)
    requires
        wf_expr(e),
        print_at(toks, pos, e),
        stops_member(toks, pos + expr_tokens(e).len(), e),
    ensures
        spec_parse_unary(toks, pos) == Ok::<(SpecExpression, int), SpecParseError>(
            (e, pos + expr_tokens(e).len()),
        ),
    decreases expr_tokens(e).len(), 2int,
{
    lemma_print_starts_openly(e);
    lemma_text_index(toks, pos, expr_tokens(e), 0);
    lemma_rt_member(toks, pos, e);
}

/// A binary-tier parse of the canonical print yields the expression
/// back, at every level.
proof fn lemma_rt_binary(toks: Seq<SpecToken>, pos: int, e: SpecExpression, level: int)
    requires
        wf_expr(e),
        print_at(toks, pos, e),
        0 <= level <= 5,
        stops_binary(toks, pos + expr_tokens(e).len(), level, e),
    ensures
        spec_parse_binary(toks, pos, level) == Ok::<(SpecExpression, int), SpecParseError>(
            (e, pos + expr_tokens(e).len()),
        ),
    decreases expr_tokens(e).len(), 8 - level,
{
    let end = pos + expr_tokens(e).len() as int;
    if level == 5 {
        lemma_rt_unary(toks, pos, e);
    } else {
        lemma_rt_binary(toks, pos, e, level + 1);
        lemma_expr_tokens_nonempty(e);
        assert(spec_parse_chain(toks, end, level, e) == Ok::<
            (SpecExpression, int),
            SpecParseError,
        >((e, end)));
    }
}

/// Parsing the inside of a canonical binary print, `left op right`, at
/// any level at or looser than the operator's own, yields the binary
/// node.
proof fn lemma_rt_bin_inner(
    toks: Seq<SpecToken>,
    pos: int,
    op: Operator,
    left: SpecExpression,
    right: SpecExpression,
    level: int,
)
    requires
        is_binary_operator(op),
        wf_expr(left),
        wf_expr(right),
        0 <= level <= 5,
        level <= spec_binary_op_level(op),
        text_at(toks, pos, expr_tokens(left) + seq![token_of_operator(op)] + expr_tokens(right)),
        spec_peek(toks, pos + expr_tokens(left).len() + 1 + expr_tokens(right).len()) == Some(
            SpecToken::ParenClose,
        ),
    ensures
        spec_parse_binary(toks, pos, level) == Ok::<(SpecExpression, int), SpecParseError>(
            (
                SpecExpression::BinaryOperator {
                    op,
                    left: Box::new(left),
                    right: Box::new(right),
                },
                pos + expr_tokens(left).len() + 1 + expr_tokens(right).len(),
            ),
        ),
    decreases expr_tokens(left).len() + 1 + expr_tokens(right).len(), 20 - level,
{
    let lt = expr_tokens(left);
    let rt = expr_tokens(right);
    let p_op = pos + lt.len() as int;
    let end = p_op + 1 + rt.len() as int;
    let joined = SpecExpression::BinaryOperator {
        op,
        left: Box::new(left),
        right: Box::new(right),
    };
    lemma_text_split3(toks, pos, lt, seq![token_of_operator(op)], rt);
    lemma_text_index(toks, p_op, seq![token_of_operator(op)], 0);
    if op == Operator::MemberAccess {
        if level == 5 {
            // Unary tier: the left print opens with no unary operator,
            // so parsing descends to the member tier, which picks up
            // the `.` chain.
            lemma_print_starts_openly(left);
            lemma_text_index(toks, pos, lt, 0);
            lemma_rt_primary(toks, pos, left);
            lemma_rt_primary(toks, p_op + 1, right);
            assert(spec_parse_member_chain(toks, end, joined) == Ok::<
                (SpecExpression, int),
                SpecParseError,
            >((joined, end)));
            assert(spec_parse_member_chain(toks, p_op, left) == Ok::<
                (SpecExpression, int),
                SpecParseError,
            >((joined, end)));
            assert(spec_parse_member(toks, pos) == Ok::<(SpecExpression, int), SpecParseError>(
                (joined, end),
            ));
            assert(spec_parse_unary(toks, pos) == Ok::<(SpecExpression, int), SpecParseError>(
                (joined, end),
            ));
            assert(spec_parse_binary(toks, pos, level) == Ok::<
                (SpecExpression, int),
                SpecParseError,
            >((joined, end)));
        } else {
            lemma_rt_bin_inner(toks, pos, op, left, right, level + 1);
            assert(spec_parse_chain(toks, end, level, joined) == Ok::<
                (SpecExpression, int),
                SpecParseError,
            >((joined, end)));
            assert(spec_parse_binary(toks, pos, level) == Ok::<
                (SpecExpression, int),
                SpecParseError,
            >((joined, end)));
        }
    } else {
        let lv = spec_binary_op_level(op);
        if level == lv {
            lemma_rt_binary(toks, pos, left, level + 1);
            lemma_rt_binary(toks, p_op + 1, right, level + 1);
            assert(spec_level_op(level, toks[p_op]) == Some(op));
            assert(spec_parse_chain(toks, end, level, joined) == Ok::<
                (SpecExpression, int),
                SpecParseError,
            >((joined, end)));
            assert(spec_parse_chain(toks, p_op, level, left) == Ok::<
                (SpecExpression, int),
                SpecParseError,
            >((joined, end)));
            assert(spec_parse_binary(toks, pos, level) == Ok::<
                (SpecExpression, int),
                SpecParseError,
            >((joined, end)));
        } else {
            lemma_rt_bin_inner(toks, pos, op, left, right, level + 1);
            assert(spec_parse_chain(toks, end, level, joined) == Ok::<
                (SpecExpression, int),
                SpecParseError,
            >((joined, end)));
            assert(spec_parse_binary(toks, pos, level) == Ok::<
                (SpecExpression, int),
                SpecParseError,
            >((joined, end)));
        }
    }
}

/// Parsing the inside of a canonical unary print, `op operand`, yields
/// the unary node, at every level.
proof fn lemma_rt_unary_inner(
    toks: Seq<SpecToken>,
    pos: int,
    op: Operator,
    operand: SpecExpression,
    level: int,
)
    requires
        is_unary_operator(op),
        wf_expr(operand),
        0 <= level <= 5,
        text_at(toks, pos, seq![token_of_operator(op)] + expr_tokens(operand)),
        spec_peek(toks, pos + 1 + expr_tokens(operand).len()) == Some(SpecToken::ParenClose),
    ensures
        spec_parse_binary(toks, pos, level) == Ok::<(SpecExpression, int), SpecParseError>(
            (
                SpecExpression::UnaryOperator { op, operand: Box::new(operand) },
                pos + 1 + expr_tokens(operand).len(),
            ),
        ),
    decreases expr_tokens(operand).len(), 20 - level,
{
    let ot = expr_tokens(operand);
    let whole = seq![token_of_operator(op)] + ot;
    let end = pos + 1 + ot.len() as int;
    let node = SpecExpression::UnaryOperator { op, operand: Box::new(operand) };
    lemma_text_index(toks, pos, whole, 0);
    assert(toks.subrange(pos + 1, pos + 1 + ot.len() as int) =~= ot) by {
        assert forall|j: int| 0 <= j < ot.len() implies toks[pos + 1 + j] == ot[j] by {
            lemma_text_index(toks, pos, whole, 1 + j);
        }
    }
    if level == 5 {
        lemma_rt_unary(toks, pos + 1, operand);
        assert(crate::ast::spec_to_unary_op(toks[pos]) == Some(op));
        assert(spec_parse_unary(toks, pos) == Ok::<(SpecExpression, int), SpecParseError>(
            (node, end),
        ));
        assert(spec_parse_binary(toks, pos, level) == Ok::<(SpecExpression, int), SpecParseError>(
            (node, end),
        ));
    } else {
        lemma_rt_unary_inner(toks, pos, op, operand, level + 1);
        assert(spec_parse_chain(toks, end, level, node) == Ok::<
            (SpecExpression, int),
            SpecParseError,
        >((node, end)));
        assert(spec_parse_binary(toks, pos, level) == Ok::<(SpecExpression, int), SpecParseError>(
            (node, end),
        ));
    }
}

/// Round trip: re-parsing the canonical token print of a well-formed
/// expression reconstructs an expression equal to the original, with
/// every token consumed.
pub proof fn lemma_expr_round_trip(e: SpecExpression)
    requires
        wf_expr(e),
    ensures
        spec_parse_expr(expr_tokens(e), 0) == Ok::<(SpecExpression, int), SpecParseError>(
            (e, expr_tokens(e).len() as int),
        ),
{
    let toks = expr_tokens(e);
    assert(toks.subrange(0, toks.len() as int) =~= toks);
    lemma_rt_binary(toks, 0, e, 0);
}

/// A well-formed statement: its expressions are well formed.
pub open spec fn wf_statement(s: SpecStatement) -> bool
    decreases s,
{
    match s {
        SpecStatement::Return(e) => wf_expr(e),
        SpecStatement::Let(name, ty, init) => match init {
            Some(e) => wf_expr(e),
            None => true,
        },
        SpecStatement::If(cond, body) => wf_expr(cond) && wf_statement(*body),
        SpecStatement::While(cond, body) => wf_expr(cond) && wf_statement(*body),
        SpecStatement::Compound(body) => wf_statement_seq(body),
        SpecStatement::Expression(e) => wf_expr(e),
    }
}

/// Every statement of a sequence is well formed.
pub open spec fn wf_statement_seq(body: Seq<SpecStatement>) -> bool
    decreases body,
{
    if body.len() == 0 {
        true
    } else {
        wf_statement(body[0]) && wf_statement_seq(body.drop_first())
    }
}

/// A well-formed binding value: its statements and expressions are well
/// formed.
pub open spec fn wf_value(v: SpecConstAssignmentVal) -> bool {
    match v {
        SpecConstAssignmentVal::Function { args, return_type, body } => wf_statement_seq(body),
        SpecConstAssignmentVal::Struct(members) => true,
        SpecConstAssignmentVal::Expression(e) => wf_expr(e),
    }
}

/// Every binding of a program is well formed.
pub open spec fn wf_program(items: Seq<SpecConstAssignment>) -> bool
    decreases items,
{
    if items.len() == 0 {
        true
    } else {
        wf_value(items[0].1) && wf_program(items.drop_first())
    }
}

/// The canonical print of a type: one identifier token carrying the full
/// type text. The parser reads it back unchanged, since no pointer-star
/// token follows it in any canonical print.
pub open spec fn type_tokens(ty: Seq<char>) -> Seq<SpecToken> {
    seq![SpecToken::Ident(ty)]
}

/// The canonical print of a statement.
pub open spec fn stmt_tokens(s: SpecStatement) -> Seq<SpecToken>
    decreases s,
{
    match s {
        SpecStatement::Return(e) => seq![SpecToken::Return] + expr_tokens(e)
            + seq![SpecToken::Semicolon],
        SpecStatement::Let(name, ty, init) => seq![SpecToken::Let, SpecToken::Ident(name), SpecToken::Colon]
            + type_tokens(ty) + (match init {
            Some(e) => seq![SpecToken::Equals] + expr_tokens(e),
            None => Seq::empty(),
        }) + seq![SpecToken::Semicolon],
        SpecStatement::If(cond, body) => seq![SpecToken::If, SpecToken::ParenOpen] + expr_tokens(
            cond,
        ) + seq![SpecToken::ParenClose] + stmt_tokens(*body),
        SpecStatement::While(cond, body) => seq![SpecToken::While, SpecToken::ParenOpen]
            + expr_tokens(cond) + seq![SpecToken::ParenClose] + stmt_tokens(*body),
        SpecStatement::Compound(body) => seq![SpecToken::BraceOpen] + stmts_tokens(body)
            + seq![SpecToken::BraceClose],
        SpecStatement::Expression(e) => expr_tokens(e) + seq![SpecToken::Semicolon],
    }
}

/// The canonical print of a statement sequence, one after the other.
pub open spec fn stmts_tokens(body: Seq<SpecStatement>) -> Seq<SpecToken>
    decreases body,
{
    if body.len() == 0 {
        Seq::empty()
    } else {
        stmt_tokens(body[0]) + stmts_tokens(body.drop_first())
    }
}

/// The canonical print of `name : type` pairs, joined with commas. The
/// closing token is not part of the print.
pub open spec fn pairs_tokens(pairs: Seq<(Seq<char>, Seq<char>)>) -> Seq<SpecToken>
    decreases pairs,
{
    if pairs.len() == 0 {
        Seq::empty()
    } else {
        let head = seq![SpecToken::Ident(pairs[0].0), SpecToken::Colon] + type_tokens(pairs[0].1);
        if pairs.len() == 1 {
            head
        } else {
            head + seq![SpecToken::Comma] + pairs_tokens(pairs.drop_first())
        }
    }
}

/// The canonical print of a binding's right-hand side.
pub open spec fn value_tokens(v: SpecConstAssignmentVal) -> Seq<SpecToken> {
    match v {
        SpecConstAssignmentVal::Function { args, return_type, body } => seq![
            SpecToken::Fn,
            SpecToken::ParenOpen,
        ] + pairs_tokens(args) + seq![SpecToken::ParenClose] + (match return_type {
            Some(t) => seq![SpecToken::Arrow] + type_tokens(t),
            None => Seq::empty(),
        }) + seq![SpecToken::BraceOpen] + stmts_tokens(body) + seq![SpecToken::BraceClose],
        SpecConstAssignmentVal::Struct(members) => seq![SpecToken::Struct, SpecToken::BraceOpen]
            + pairs_tokens(members) + seq![SpecToken::BraceClose],
        SpecConstAssignmentVal::Expression(e) => expr_tokens(e),
    }
}

/// The canonical print of one binding, `name :: value ;`.
pub open spec fn binding_tokens(ca: SpecConstAssignment) -> Seq<SpecToken> {
    seq![SpecToken::Ident(ca.0), SpecToken::ColonColon] + value_tokens(ca.1)
        + seq![SpecToken::Semicolon]
}

/// The canonical print of a whole program, binding after binding.
pub open spec fn program_tokens(items: Seq<SpecConstAssignment>) -> Seq<SpecToken>
    decreases items,
{
    if items.len() == 0 {
        Seq::empty()
    } else {
        binding_tokens(items[0]) + program_tokens(items.drop_first())
    }
}

/// Parsing a type printed as one identifier token reads the text back
/// unchanged, when no star token follows.
proof fn lemma_rt_type(toks: Seq<SpecToken>, pos: int, ty: Seq<char>)
    requires
        0 <= pos < toks.len(),
        toks[pos] == SpecToken::Ident(ty),
        pos + 1 < toks.len() ==> toks[pos + 1] != SpecToken::Star,
    ensures
        spec_parse_type(toks, pos) == Ok::<(Seq<char>, int), SpecParseError>((ty, pos + 1)),
{
    assert(ty + Seq::new(0nat, |i: int| '*') =~= ty);
}

/// The first token of a canonical statement print is never a closing
/// brace, so a statement list never ends early.
proof fn lemma_stmt_starts(s: SpecStatement)
    ensures
        stmt_tokens(s).len() >= 1,
        stmt_tokens(s)[0] != SpecToken::BraceClose,
        s is Compound <==> stmt_tokens(s)[0] == SpecToken::BraceOpen,
        (stmt_tokens(s)[0] == SpecToken::Return) == (s is Return),
        (stmt_tokens(s)[0] == SpecToken::Let) == (s is Let),
        (stmt_tokens(s)[0] == SpecToken::If) == (s is If),
        (stmt_tokens(s)[0] == SpecToken::While) == (s is While),
{
    match s {
        SpecStatement::Expression(e) => {
            lemma_print_starts_openly(e);
            assert(stmt_tokens(s)[0] == expr_tokens(e)[0]);
        },
        _ => {},
    }
}

/// A statement parse of the canonical print yields the statement back.
proof fn lemma_rt_statement(toks: Seq<SpecToken>, pos: int, s: SpecStatement)
    requires
        wf_statement(s),
        text_at(toks, pos, stmt_tokens(s)),
    ensures
        spec_parse_statement(toks, pos) == Ok::<(SpecStatement, int), SpecParseError>(
            (s, pos + stmt_tokens(s).len()),
        ),
    decreases stmt_tokens(s).len(), 12int,
{
    lemma_text_index(toks, pos, stmt_tokens(s), 0);
    match s {
        SpecStatement::Return(e) => {
            lemma_rt_stmt_return(toks, pos, e);
        },
        SpecStatement::Let(name, ty, init) => {
            lemma_rt_stmt_let(toks, pos, name, ty, init);
        },
        SpecStatement::If(cond, body) => {
            lemma_rt_stmt_if(toks, pos, cond, *body);
        },
        SpecStatement::While(cond, body) => {
            lemma_rt_stmt_while(toks, pos, cond, *body);
        },
        SpecStatement::Compound(body) => {
            lemma_rt_stmt_compound(toks, pos, body);
        },
        SpecStatement::Expression(e) => {
            lemma_rt_stmt_expr(toks, pos, e);
        },
    }
}

/// The `return expr ;` case of the statement round trip.
proof fn lemma_rt_stmt_return(toks: Seq<SpecToken>, pos: int, e: SpecExpression)
    requires
        wf_expr(e),
        text_at(toks, pos, stmt_tokens(SpecStatement::Return(e))),
    ensures
        spec_parse_statement(toks, pos) == Ok::<(SpecStatement, int), SpecParseError>(
            (SpecStatement::Return(e), pos + stmt_tokens(SpecStatement::Return(e)).len()),
        ),
    decreases stmt_tokens(SpecStatement::Return(e)).len(), 11int,
{
    let s = SpecStatement::Return(e);
    let t = stmt_tokens(s);
    let end = pos + t.len() as int;
    let et = expr_tokens(e);
    lemma_text_index(toks, pos, t, 0);
    assert(t =~= seq![SpecToken::Return] + et + seq![SpecToken::Semicolon]);
    lemma_text_split3(toks, pos, seq![SpecToken::Return], et, seq![SpecToken::Semicolon]);
    lemma_text_index(toks, pos + 1 + et.len(), seq![SpecToken::Semicolon], 0);
    lemma_rt_binary(toks, pos + 1, e, 0);
    assert(spec_parse_expr(toks, pos + 1) == Ok::<(SpecExpression, int), SpecParseError>(
        (e, pos + 1 + et.len()),
    ));
    assert(spec_parse_statement(toks, pos) == Ok::<(SpecStatement, int), SpecParseError>(
        (s, end),
    ));
}

/// The `let name : type = expr ;` case of the statement round trip.
proof fn lemma_rt_stmt_let(
    toks: Seq<SpecToken>,
    pos: int,
    name: Seq<char>,
    ty: Seq<char>,
    init: Option<SpecExpression>,
)
    requires
        wf_statement(SpecStatement::Let(name, ty, init)),
        text_at(toks, pos, stmt_tokens(SpecStatement::Let(name, ty, init))),
    ensures
        spec_parse_statement(toks, pos) == Ok::<(SpecStatement, int), SpecParseError>(
            (
                SpecStatement::Let(name, ty, init),
                pos + stmt_tokens(SpecStatement::Let(name, ty, init)).len(),
            ),
        ),
    decreases stmt_tokens(SpecStatement::Let(name, ty, init)).len(), 11int,
{
    let s = SpecStatement::Let(name, ty, init);
    let t = stmt_tokens(s);
    let end = pos + t.len() as int;
    let mid = match init {
        Some(e) => seq![SpecToken::Equals] + expr_tokens(e),
        None => Seq::<SpecToken>::empty(),
    };
    let opening = seq![SpecToken::Let, SpecToken::Ident(name), SpecToken::Colon] + type_tokens(ty);
    lemma_text_index(toks, pos, t, 0);
    assert(t =~= opening + mid + seq![SpecToken::Semicolon]);
    lemma_text_split3(toks, pos, opening, mid, seq![SpecToken::Semicolon]);
    lemma_text_index(toks, pos, opening, 1);
    lemma_text_index(toks, pos, opening, 2);
    lemma_text_index(toks, pos, opening, 3);
    lemma_text_index(toks, pos + 4 + mid.len(), seq![SpecToken::Semicolon], 0);
    match init {
        Some(e) => {
            let et = expr_tokens(e);
            lemma_text_index(toks, pos + 4, mid, 0);
            lemma_rt_type(toks, pos + 3, ty);
            assert(mid =~= seq![SpecToken::Equals] + et);
            lemma_text_split3(toks, pos + 4, seq![SpecToken::Equals], et, Seq::empty());
            lemma_rt_binary(toks, pos + 5, e, 0);
            assert(spec_parse_expr(toks, pos + 5) == Ok::<(SpecExpression, int), SpecParseError>(
                (e, pos + 5 + et.len()),
            ));
            assert(spec_parse_statement(toks, pos) == Ok::<(SpecStatement, int), SpecParseError>(
                (s, end),
            ));
        },
        None => {
            lemma_rt_type(toks, pos + 3, ty);
            assert(spec_parse_statement(toks, pos) == Ok::<(SpecStatement, int), SpecParseError>(
                (s, end),
            ));
        },
    }
}

/// The `if ( cond ) statement` case of the statement round trip.
proof fn lemma_rt_stmt_if(toks: Seq<SpecToken>, pos: int, cond: SpecExpression, body: SpecStatement)
    requires
        wf_expr(cond),
        wf_statement(body),
        text_at(toks, pos, stmt_tokens(SpecStatement::If(cond, Box::new(body)))),
    ensures
        spec_parse_statement(toks, pos) == Ok::<(SpecStatement, int), SpecParseError>(
            (
                SpecStatement::If(cond, Box::new(body)),
                pos + stmt_tokens(SpecStatement::If(cond, Box::new(body))).len(),
            ),
        ),
    decreases stmt_tokens(SpecStatement::If(cond, Box::new(body))).len(), 11int,
{
    let s = SpecStatement::If(cond, Box::new(body));
    let t = stmt_tokens(s);
    let end = pos + t.len() as int;
    let ct = expr_tokens(cond);
    let bt = stmt_tokens(body);
    let opening = seq![SpecToken::If, SpecToken::ParenOpen];
    lemma_text_index(toks, pos, t, 0);
    assert(t =~= opening + (ct + seq![SpecToken::ParenClose]) + bt);
    lemma_text_split3(toks, pos, opening, ct + seq![SpecToken::ParenClose], bt);
    lemma_text_index(toks, pos, opening, 1);
    lemma_text_split3(toks, pos + 2, ct, seq![SpecToken::ParenClose], Seq::empty());
    lemma_text_index(toks, pos + 2 + ct.len(), seq![SpecToken::ParenClose], 0);
    lemma_rt_binary(toks, pos + 2, cond, 0);
    lemma_rt_statement(toks, pos + 2 + ct.len() + 1, body);
    assert(spec_parse_statement(toks, pos) == Ok::<(SpecStatement, int), SpecParseError>(
        (s, end),
    ));
}

/// The `while ( cond ) statement` case of the statement round trip.
proof fn lemma_rt_stmt_while(
    toks: Seq<SpecToken>,
    pos: int,
    cond: SpecExpression,
    body: SpecStatement,
)
    requires
        wf_expr(cond),
        wf_statement(body),
        text_at(toks, pos, stmt_tokens(SpecStatement::While(cond, Box::new(body)))),
    ensures
        spec_parse_statement(toks, pos) == Ok::<(SpecStatement, int), SpecParseError>(
            (
                SpecStatement::While(cond, Box::new(body)),
                pos + stmt_tokens(SpecStatement::While(cond, Box::new(body))).len(),
            ),
        ),
    decreases stmt_tokens(SpecStatement::While(cond, Box::new(body))).len(), 11int,
{
    let s = SpecStatement::While(cond, Box::new(body));
    let t = stmt_tokens(s);
    let end = pos + t.len() as int;
    let ct = expr_tokens(cond);
    let bt = stmt_tokens(body);
    let opening = seq![SpecToken::While, SpecToken::ParenOpen];
    lemma_text_index(toks, pos, t, 0);
    assert(t =~= opening + (ct + seq![SpecToken::ParenClose]) + bt);
    lemma_text_split3(toks, pos, opening, ct + seq![SpecToken::ParenClose], bt);
    lemma_text_index(toks, pos, opening, 1);
    lemma_text_split3(toks, pos + 2, ct, seq![SpecToken::ParenClose], Seq::empty());
    lemma_text_index(toks, pos + 2 + ct.len(), seq![SpecToken::ParenClose], 0);
    lemma_rt_binary(toks, pos + 2, cond, 0);
    lemma_rt_statement(toks, pos + 2 + ct.len() + 1, body);
    assert(spec_parse_statement(toks, pos) == Ok::<(SpecStatement, int), SpecParseError>(
        (s, end),
    ));
}

/// The `{ statements }` case of the statement round trip.
proof fn lemma_rt_stmt_compound(toks: Seq<SpecToken>, pos: int, body: Seq<SpecStatement>)
    requires
        wf_statement_seq(body),
        text_at(toks, pos, stmt_tokens(SpecStatement::Compound(body))),
    ensures
        spec_parse_statement(toks, pos) == Ok::<(SpecStatement, int), SpecParseError>(
            (
                SpecStatement::Compound(body),
                pos + stmt_tokens(SpecStatement::Compound(body)).len(),
            ),
        ),
    decreases stmt_tokens(SpecStatement::Compound(body)).len(), 11int,
{
    let s = SpecStatement::Compound(body);
    let t = stmt_tokens(s);
    let end = pos + t.len() as int;
    let bt = stmts_tokens(body);
    lemma_text_index(toks, pos, t, 0);
    assert(t =~= seq![SpecToken::BraceOpen] + bt + seq![SpecToken::BraceClose]);
    lemma_text_split3(toks, pos, seq![SpecToken::BraceOpen], bt, seq![SpecToken::BraceClose]);
    lemma_text_index(toks, pos + 1 + bt.len(), seq![SpecToken::BraceClose], 0);
    lemma_rt_stmt_list(toks, pos + 1, body);
    assert(spec_parse_statement(toks, pos) == Ok::<(SpecStatement, int), SpecParseError>(
        (s, end),
    ));
}

/// The expression-statement case of the statement round trip.
proof fn lemma_rt_stmt_expr(toks: Seq<SpecToken>, pos: int, e: SpecExpression)
    requires
        wf_expr(e),
        text_at(toks, pos, stmt_tokens(SpecStatement::Expression(e))),
    ensures
        spec_parse_statement(toks, pos) == Ok::<(SpecStatement, int), SpecParseError>(
            (SpecStatement::Expression(e), pos + stmt_tokens(SpecStatement::Expression(e)).len()),
        ),
    decreases stmt_tokens(SpecStatement::Expression(e)).len(), 11int,
{
    let s = SpecStatement::Expression(e);
    let t = stmt_tokens(s);
    let end = pos + t.len() as int;
    let et = expr_tokens(e);
    assert(t =~= et + seq![SpecToken::Semicolon] + Seq::empty());
    lemma_text_split3(toks, pos, et, seq![SpecToken::Semicolon], Seq::empty());
    lemma_text_index(toks, pos + et.len(), seq![SpecToken::Semicolon], 0);
    lemma_print_starts_openly(e);
    lemma_text_index(toks, pos, et, 0);
    lemma_rt_binary(toks, pos, e, 0);
    assert(spec_parse_expr(toks, pos) == Ok::<(SpecExpression, int), SpecParseError>(
        (e, pos + et.len()),
    ));
    assert(spec_parse_statement(toks, pos) == Ok::<(SpecStatement, int), SpecParseError>(
        (s, end),
    ));
}

/// Parsing a printed statement sequence up to and including the closing
/// brace yields the sequence back.
proof fn lemma_rt_stmt_list(toks: Seq<SpecToken>, pos: int, body: Seq<SpecStatement>)
    requires
        wf_statement_seq(body),
        text_at(toks, pos, stmts_tokens(body)),
        spec_peek(toks, pos + stmts_tokens(body).len()) == Some(SpecToken::BraceClose),
    ensures
        spec_parse_statement_list(toks, pos) == Ok::<(Seq<SpecStatement>, int), SpecParseError>(
            (body, pos + stmts_tokens(body).len() + 1),
        ),
    decreases stmts_tokens(body).len(), 13int,
{
    let bt = stmts_tokens(body);
    let end = pos + bt.len() as int;
    if body.len() == 0 {
        assert(body =~= Seq::<SpecStatement>::empty());
        assert(spec_parse_statement_list(toks, pos) == Ok::<
            (Seq<SpecStatement>, int),
            SpecParseError,
        >((body, end + 1)));
    } else {
        let s0 = body[0];
        let rest = body.drop_first();
        assert(bt =~= stmt_tokens(s0) + stmts_tokens(rest) + Seq::empty());
        lemma_text_split3(toks, pos, stmt_tokens(s0), stmts_tokens(rest), Seq::empty());
        lemma_stmt_starts(s0);
        lemma_text_index(toks, pos, stmt_tokens(s0), 0);
        lemma_rt_statement(toks, pos, s0);
        let p1 = pos + stmt_tokens(s0).len() as int;
        lemma_rt_stmt_list(toks, p1, rest);
        assert(seq![s0] + rest =~= body);
        assert(spec_parse_statement_list(toks, pos) == Ok::<
            (Seq<SpecStatement>, int),
            SpecParseError,
        >((body, end + 1)));
    }
}

/// Parsing printed `name : type` pairs up to and including the closing
/// token yields the pairs back.
proof fn lemma_rt_pairs(
    toks: Seq<SpecToken>,
    pos: int,
    pairs: Seq<(Seq<char>, Seq<char>)>,
    term: SpecToken,
)
    requires
        term == SpecToken::ParenClose || term == SpecToken::BraceClose,
        text_at(toks, pos, pairs_tokens(pairs)),
        spec_peek(toks, pos + pairs_tokens(pairs).len()) == Some(term),
    ensures
        spec_parse_pairs(toks, pos, term) == Ok::<
            (Seq<(Seq<char>, Seq<char>)>, int),
            SpecParseError,
        >((pairs, pos + pairs_tokens(pairs).len() + 1)),
    decreases pairs.len(),
{
    let pt = pairs_tokens(pairs);
    let end = pos + pt.len() as int;
    if pairs.len() == 0 {
        assert(pairs =~= Seq::<(Seq<char>, Seq<char>)>::empty());
        assert(spec_parse_pairs(toks, pos, term) == Ok::<
            (Seq<(Seq<char>, Seq<char>)>, int),
            SpecParseError,
        >((pairs, end + 1)));
    } else {
        let head = seq![SpecToken::Ident(pairs[0].0), SpecToken::Colon] + type_tokens(pairs[0].1);
        if pairs.len() == 1 {
            assert(pt =~= head + Seq::empty() + Seq::empty());
            lemma_text_index(toks, pos, pt, 0);
            lemma_text_index(toks, pos, pt, 1);
            lemma_text_index(toks, pos, pt, 2);
            lemma_rt_type(toks, pos + 2, pairs[0].1);
            assert(pairs =~= seq![pairs[0]]);
            assert(spec_parse_pairs(toks, pos, term) == Ok::<
                (Seq<(Seq<char>, Seq<char>)>, int),
                SpecParseError,
            >((pairs, end + 1)));
        } else {
            let rest = pairs.drop_first();
            assert(pt =~= head + seq![SpecToken::Comma] + pairs_tokens(rest));
            lemma_text_split3(toks, pos, head, seq![SpecToken::Comma], pairs_tokens(rest));
            lemma_text_index(toks, pos, head, 0);
            lemma_text_index(toks, pos, head, 1);
            lemma_text_index(toks, pos, head, 2);
            lemma_text_index(toks, pos + head.len(), seq![SpecToken::Comma], 0);
            lemma_rt_type(toks, pos + 2, pairs[0].1);
            lemma_rt_pairs(toks, pos + head.len() + 1, rest, term);
            assert(seq![pairs[0]] + rest =~= pairs);
            assert(spec_parse_pairs(toks, pos, term) == Ok::<
                (Seq<(Seq<char>, Seq<char>)>, int),
                SpecParseError,
            >((pairs, end + 1)));
        }
    }
}

/// A value parse of the canonical print yields the binding value back.
proof fn lemma_rt_value(toks: Seq<SpecToken>, pos: int, v: SpecConstAssignmentVal)
    requires
        wf_value(v),
        text_at(toks, pos, value_tokens(v)),
        spec_peek(toks, pos + value_tokens(v).len()) == Some(SpecToken::Semicolon),
    ensures
        spec_parse_value(toks, pos) == Ok::<(SpecConstAssignmentVal, int), SpecParseError>(
            (v, pos + value_tokens(v).len()),
        ),
{
    let vt = value_tokens(v);
    let end = pos + vt.len() as int;
    match v {
        SpecConstAssignmentVal::Function { args, return_type, body } => {
            let at = pairs_tokens(args);
            let rt = match return_type {
                Some(t) => seq![SpecToken::Arrow] + type_tokens(t),
                None => Seq::<SpecToken>::empty(),
            };
            let bt = stmts_tokens(body);
            let opening = seq![SpecToken::Fn, SpecToken::ParenOpen];
            let tail = rt + seq![SpecToken::BraceOpen] + bt + seq![SpecToken::BraceClose];
            assert(vt =~= opening + (at + seq![SpecToken::ParenClose]) + tail);
            lemma_text_split3(toks, pos, opening, at + seq![SpecToken::ParenClose], tail);
            lemma_text_index(toks, pos, opening, 0);
            lemma_text_index(toks, pos, opening, 1);
            lemma_text_split3(toks, pos + 2, at, seq![SpecToken::ParenClose], Seq::empty());
            lemma_text_index(toks, pos + 2 + at.len(), seq![SpecToken::ParenClose], 0);
            lemma_rt_pairs(toks, pos + 2, args, SpecToken::ParenClose);
            let p1 = pos + 2 + at.len() + 1 as int;
            assert(text_at(toks, p1, tail));
            assert(tail =~= rt + seq![SpecToken::BraceOpen] + (bt + seq![SpecToken::BraceClose]));
            lemma_text_split3(
                toks,
                p1,
                rt,
                seq![SpecToken::BraceOpen],
                bt + seq![SpecToken::BraceClose],
            );
            lemma_text_index(toks, p1 + rt.len(), seq![SpecToken::BraceOpen], 0);
            let p2 = p1 + rt.len() as int;
            lemma_text_split3(toks, p2 + 1, bt, seq![SpecToken::BraceClose], Seq::empty());
            lemma_text_index(toks, p2 + 1 + bt.len(), seq![SpecToken::BraceClose], 0);
            lemma_rt_stmt_list(toks, p2 + 1, body);
            match return_type {
                Some(t) => {
                    lemma_text_index(toks, p1, rt, 0);
                    lemma_text_index(toks, p1, rt, 1);
                    lemma_rt_type(toks, p1 + 1, t);
                    assert(spec_parse_value(toks, pos) == Ok::<
                        (SpecConstAssignmentVal, int),
                        SpecParseError,
                    >((v, end)));
                },
                None => {
                    assert(spec_parse_value(toks, pos) == Ok::<
                        (SpecConstAssignmentVal, int),
                        SpecParseError,
                    >((v, end)));
                },
            }
        },
        SpecConstAssignmentVal::Struct(members) => {
            let mt = pairs_tokens(members);
            let opening = seq![SpecToken::Struct, SpecToken::BraceOpen];
            assert(vt =~= opening + mt + seq![SpecToken::BraceClose]);
            lemma_text_split3(toks, pos, opening, mt, seq![SpecToken::BraceClose]);
            lemma_text_index(toks, pos, opening, 0);
            lemma_text_index(toks, pos, opening, 1);
            lemma_text_index(toks, pos + 2 + mt.len(), seq![SpecToken::BraceClose], 0);
            lemma_rt_pairs(toks, pos + 2, members, SpecToken::BraceClose);
            assert(spec_parse_value(toks, pos) == Ok::<
                (SpecConstAssignmentVal, int),
                SpecParseError,
            >((v, end)));
        },
        SpecConstAssignmentVal::Expression(e) => {
            lemma_print_starts_openly(e);
            lemma_text_index(toks, pos, vt, 0);
            lemma_rt_binary(toks, pos, e, 0);
            assert(spec_parse_expr(toks, pos) == Ok::<(SpecExpression, int), SpecParseError>(
                (e, end),
            ));
            assert(spec_parse_value(toks, pos) == Ok::<
                (SpecConstAssignmentVal, int),
                SpecParseError,
            >((v, end)));
        },
    }
}

/// A binding parse of the canonical print yields the binding back.
proof fn lemma_rt_binding(toks: Seq<SpecToken>, pos: int, ca: SpecConstAssignment)
    requires
        wf_value(ca.1),
        text_at(toks, pos, binding_tokens(ca)),
    ensures
        spec_parse_const_assignment(toks, pos) == Ok::<
            (SpecConstAssignment, int),
            SpecParseError,
        >((ca, pos + binding_tokens(ca).len())),
{
    let bt = binding_tokens(ca);
    let end = pos + bt.len() as int;
    let vt = value_tokens(ca.1);
    let opening = seq![SpecToken::Ident(ca.0), SpecToken::ColonColon];
    assert(bt =~= opening + vt + seq![SpecToken::Semicolon]);
    lemma_text_split3(toks, pos, opening, vt, seq![SpecToken::Semicolon]);
    lemma_text_index(toks, pos, opening, 0);
    lemma_text_index(toks, pos, opening, 1);
    lemma_text_index(toks, pos + 2 + vt.len(), seq![SpecToken::Semicolon], 0);
    lemma_rt_value(toks, pos + 2, ca.1);
    assert(ca == SpecConstAssignment(ca.0, ca.1));
    assert(spec_parse_const_assignment(toks, pos) == Ok::<
        (SpecConstAssignment, int),
        SpecParseError,
    >((ca, end)));
}

/// Parsing a printed program from `pos` to the end of the input yields
/// the bindings back.
proof fn lemma_rt_items(toks: Seq<SpecToken>, pos: int, items: Seq<SpecConstAssignment>)
    requires
        wf_program(items),
        text_at(toks, pos, program_tokens(items)),
        pos + program_tokens(items).len() == toks.len(),
    ensures
        spec_parse_items(toks, pos) == Ok::<(Seq<SpecConstAssignment>, int), SpecParseError>(
            (items, toks.len() as int),
        ),
    decreases items.len(),
{
    if items.len() == 0 {
        assert(items =~= Seq::<SpecConstAssignment>::empty());
    } else {
        let ca = items[0];
        let rest = items.drop_first();
        let pt = program_tokens(items);
        assert(pt =~= binding_tokens(ca) + program_tokens(rest) + Seq::empty());
        lemma_text_split3(toks, pos, binding_tokens(ca), program_tokens(rest), Seq::empty());
        lemma_rt_binding(toks, pos, ca);
        let p1 = pos + binding_tokens(ca).len() as int;
        lemma_rt_items(toks, p1, rest);
        assert(seq![ca] + rest =~= items);
        assert(spec_parse_items(toks, pos) == Ok::<
            (Seq<SpecConstAssignment>, int),
            SpecParseError,
        >((items, toks.len() as int)));
    }
}

/// Round trip for whole programs: re-parsing the canonical token print
/// of a well-formed program reconstructs a program equal to the
/// original.
pub proof fn lemma_program_round_trip(items: Seq<SpecConstAssignment>)
    requires
        wf_program(items),
    ensures
        parse_spec(program_tokens(items)) == Ok::<Seq<SpecConstAssignment>, SpecParseError>(
            items,
        ),
{
    let toks = program_tokens(items);
    assert(toks.subrange(0, toks.len() as int) =~= toks);
    lemma_rt_items(toks, 0, items);
}

} // verus!
