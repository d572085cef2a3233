//! Syntax-directed C emitter.
//!
//! `emit` renders an abstract syntax tree as C source text in two
//! passes: pass one emits a forward declaration for every function
//! binding, in declaration order, so functions may call each other
//! regardless of definition order; pass two emits the definitions,
//! also in declaration order. A binding of a bare integer literal to a
//! `__t_`-prefixed name is a test marker: it is never emitted to C, and
//! when test mode is active it produces a `name=value` line on the side
//! channel instead. Any other bare top-level expression is unsupported
//! and aborts the run.
//!
//! Every executable function is proved to return exactly what the
//! spec-level serialization functions describe.

use vstd::prelude::*;

use crate::ast::{
    AstRoot, ConstAssignment, ConstAssignmentVal, Expression, Operator, SpecConstAssignment,
    SpecConstAssignmentVal, SpecExpression, SpecStatement, Statement,
};

verus! {

broadcast use vstd::std_specs::vec::group_vec_axioms, vstd::seq::group_seq_axioms;

/// A fatal emission failure; the whole run is aborted.
#[derive(Debug, PartialEq, Clone)]
pub enum EmitError {
    /// A top-level expression binding that is not a test marker.
    UnsupportedTopLevelExpression { name: String },
}

/// Model of `EmitError`.
pub enum SpecEmitError {
    UnsupportedTopLevelExpression { name: Seq<char> },
}

impl DeepView for EmitError {
    type V = SpecEmitError;

    open spec fn deep_view(&self) -> SpecEmitError {
        match self {
            EmitError::UnsupportedTopLevelExpression { name } => {
                SpecEmitError::UnsupportedTopLevelExpression { name: name@ }
            },
        }
    }
}

/// The literal text of an operator. `Deref` and `UnaryPlus` share their
/// text with `Multiply` and `Add`; the position (prefix or infix) tells
/// them apart in the output.
pub open spec fn spec_serialize_operator(op: Operator) -> Seq<char> {
    match op {
        Operator::Assign => "="@,
        Operator::Add => "+"@,
        Operator::UnaryPlus => "+"@,
        Operator::Subtract => "-"@,
        Operator::Multiply => "*"@,
        Operator::Deref => "*"@,
        Operator::IsEqual => "=="@,
        Operator::IsLessThan => "<"@,
        Operator::IsGreaterThan => ">"@,
        Operator::MemberAccess => "."@,
    }
}

/// The decimal digit character for `d`.
pub open spec fn spec_digit_char(d: int) -> char {
    if d == 0 {
        '0'
    } else if d == 1 {
        '1'
    } else if d == 2 {
        '2'
    } else if d == 3 {
        '3'
    } else if d == 4 {
        '4'
    } else if d == 5 {
        '5'
    } else if d == 6 {
        '6'
    } else if d == 7 {
        '7'
    } else if d == 8 {
        '8'
    } else {
        '9'
    }
}

/// The decimal digits of a non-negative number, most significant first.
pub open spec fn spec_nat_digits(n: int) -> Seq<char>
    decreases n,
{
    if n < 10 {
        seq![spec_digit_char(n)]
    } else {
        spec_nat_digits(n / 10) + seq![spec_digit_char(n % 10)]
    }
}

/// The decimal text of a signed number.
pub open spec fn spec_number_text(n: int) -> Seq<char> {
    if n < 0 {
        seq!['-'] + spec_nat_digits(-n)
    } else {
        spec_nat_digits(n)
    }
}

/// The C text of an expression. Every binary operation is parenthesized
/// as `(left op right)`, making precedence unambiguous in the generated
/// C regardless of the original tree shape; a unary operation renders as
/// `(opX)`; a call as `name(arg,arg)`.
pub open spec fn spec_serialize_expression(e: SpecExpression) -> Seq<char>
    decreases e,
{
    match e {
        SpecExpression::NumberLiteral(n) => spec_number_text(n),
        SpecExpression::StringLiteral(s) => seq!['"'] + s + seq!['"'],
        SpecExpression::Ident(s) => s,
        SpecExpression::BinaryOperator { op, left, right } => seq!['(']
            + spec_serialize_expression(*left) + seq![' '] + spec_serialize_operator(op)
            + seq![' '] + spec_serialize_expression(*right) + seq![')'],
        SpecExpression::UnaryOperator { op, operand } => seq!['('] + spec_serialize_operator(op)
            + spec_serialize_expression(*operand) + seq![')'],
        SpecExpression::FunctionCall(name, args) => name + seq!['('] + spec_join_arguments(args)
            + seq![')'],
    }
}

/// Call arguments joined with commas.
pub open spec fn spec_join_arguments(args: Seq<SpecExpression>) -> Seq<char>
    decreases args,
{
    if args.len() == 0 {
        Seq::empty()
    } else if args.len() == 1 {
        spec_serialize_expression(args[0])
    } else {
        spec_serialize_expression(args[0]) + seq![','] + spec_join_arguments(args.drop_first())
    }
}

/// The C text of a statement: a direct structural rendering. `if` and
/// `while` add no braces of their own; a multi-statement body must be a
/// compound statement.
pub open spec fn spec_serialize_statement(s: SpecStatement) -> Seq<char>
    decreases s,
{
    match s {
        SpecStatement::Return(e) => "return "@ + spec_serialize_expression(e) + ";"@,
        SpecStatement::Let(name, ty, init) => match init {
            Some(e) => ty + " "@ + name + " = "@ + spec_serialize_expression(e) + ";"@,
            None => ty + " "@ + name + ";"@,
        },
        SpecStatement::If(cond, body) => "if ("@ + spec_serialize_expression(cond) + ") "@
            + spec_serialize_statement(*body),
        SpecStatement::While(cond, body) => "while ("@ + spec_serialize_expression(cond) + ") "@
            + spec_serialize_statement(*body),
        SpecStatement::Compound(body) => "{ "@ + spec_concat_statements(body) + " }"@,
        SpecStatement::Expression(e) => spec_serialize_expression(e) + ";"@,
    }
}

/// Statements rendered one after the other, with no separator.
pub open spec fn spec_concat_statements(list: Seq<SpecStatement>) -> Seq<char>
    decreases list,
{
    if list.len() == 0 {
        Seq::empty()
    } else {
        spec_serialize_statement(list[0]) + spec_concat_statements(list.drop_first())
    }
}

/// Function parameters rendered as `type name`, joined with commas.
pub open spec fn spec_arguments_text(args: Seq<(Seq<char>, Seq<char>)>) -> Seq<char>
    decreases args,
{
    if args.len() == 0 {
        Seq::empty()
    } else if args.len() == 1 {
        args[0].1 + " "@ + args[0].0
    } else {
        args[0].1 + " "@ + args[0].0 + ","@ + spec_arguments_text(args.drop_first())
    }
}

/// Struct members rendered as `type name;`, one after the other.
pub open spec fn spec_members_text(members: Seq<(Seq<char>, Seq<char>)>) -> Seq<char>
    decreases members,
{
    if members.len() == 0 {
        Seq::empty()
    } else {
        members[0].1 + " "@ + members[0].0 + ";"@ + spec_members_text(members.drop_first())
    }
}

/// The return type as emitted: an omitted return type defaults to
/// `void`.
pub open spec fn spec_return_text(return_type: Option<Seq<char>>) -> Seq<char> {
    match return_type {
        Some(t) => t,
        None => "void"@,
    }
}

/// The forward declaration of one binding: a prototype for a function,
/// nothing for anything else.
pub open spec fn spec_forward_declaration(ca: SpecConstAssignment) -> Seq<char> {
    match ca.1 {
        SpecConstAssignmentVal::Function { args, return_type, body } => {
            spec_return_text(return_type) + " "@ + ca.0 + " ("@ + spec_arguments_text(args)
                + ");"@
        },
        _ => Seq::empty(),
    }
}

/// Pass one: the forward declarations of all function bindings, in
/// declaration order.
pub open spec fn spec_forward_declarations(items: Seq<SpecConstAssignment>) -> Seq<char>
    decreases items,
{
    if items.len() == 0 {
        Seq::empty()
    } else {
        spec_forward_declaration(items[0]) + spec_forward_declarations(items.drop_first())
    }
}

/// Whether a binding is a test marker: a bare integer literal bound to a
/// name that starts with `__t_`.
pub open spec fn spec_is_test_marker(ca: SpecConstAssignment) -> bool {
    &&& ca.1 matches SpecConstAssignmentVal::Expression(e) && e is NumberLiteral
    &&& ca.0.len() >= 4
    &&& ca.0.subrange(0, 4) == "__t_"@
}

/// Pass two: the definitions in declaration order, together with the
/// side-channel marker lines. A test marker produces no C text; its
/// `name=value` line appears only when test mode is active. A bare
/// top-level expression that is no test marker is unsupported.
pub open spec fn spec_definitions(items: Seq<SpecConstAssignment>, test_mode: bool) -> Result<
    (Seq<char>, Seq<Seq<char>>),
    SpecEmitError,
>
    decreases items,
{
    if items.len() == 0 {
        Ok((Seq::empty(), Seq::empty()))
    } else {
        let SpecConstAssignment(name, val) = items[0];
        let head: Result<(Seq<char>, Seq<Seq<char>>), SpecEmitError> = match val {
            SpecConstAssignmentVal::Function { args, return_type, body } => Ok(
                (
                    spec_return_text(return_type) + " "@ + name + " ("@ + spec_arguments_text(args)
                        + ") { "@ + spec_concat_statements(body) + " }"@,
                    Seq::empty(),
                ),
            ),
            SpecConstAssignmentVal::Struct(members) => Ok(
                (
                    "typedef struct { "@ + spec_members_text(members) + " } "@ + name + ";"@,
                    Seq::empty(),
                ),
            ),
            SpecConstAssignmentVal::Expression(e) => {
                if spec_is_test_marker(items[0]) {
                    if test_mode {
                        Ok(
                            (
                                Seq::empty(),
                                seq![name + "="@ + spec_number_text(e->NumberLiteral_0)],
                            ),
                        )
                    } else {
                        Ok((Seq::empty(), Seq::empty()))
                    }
                } else {
                    Err(SpecEmitError::UnsupportedTopLevelExpression { name })
                }
            },
        };
        match head {
            Ok((text, markers)) => match spec_definitions(items.drop_first(), test_mode) {
                Ok((rest_text, rest_markers)) => Ok((text + rest_text, markers + rest_markers)),
                Err(e) => Err(e),
            },
            Err(e) => Err(e),
        }
    }
}

/// The whole emitted output: forward declarations, then definitions,
/// then a final newline; beside it the side-channel marker lines.
pub open spec fn emit_spec(items: Seq<SpecConstAssignment>, test_mode: bool) -> Result<
    (Seq<char>, Seq<Seq<char>>),
    SpecEmitError,
> {
    match spec_definitions(items, test_mode) {
        Ok((text, markers)) => Ok(
            (spec_forward_declarations(items) + text + "\n"@, markers),
        ),
        Err(e) => Err(e),
    }
}

/// The literal text of an operator.
pub fn serialize_operator(op: Operator) -> (r: String)
    ensures
        r@ == spec_serialize_operator(op),
{
    match op {
        Operator::Assign => "=".to_owned(),
        Operator::Add => "+".to_owned(),
        Operator::UnaryPlus => "+".to_owned(),
        Operator::Subtract => "-".to_owned(),
        Operator::Multiply => "*".to_owned(),
        Operator::Deref => "*".to_owned(),
        Operator::IsEqual => "==".to_owned(),
        Operator::IsLessThan => "<".to_owned(),
        Operator::IsGreaterThan => ">".to_owned(),
        Operator::MemberAccess => ".".to_owned(),
    }
}

/// The decimal digit character for `d`.
fn digit_text(d: u64) -> (r: &'static str)
    requires
        d < 10,
    ensures
        r@ == seq![spec_digit_char(d as int)],
{
    let r: &'static str = if d == 0 {
        "0"
    } else if d == 1 {
        "1"
    } else if d == 2 {
        "2"
    } else if d == 3 {
        "3"
    } else if d == 4 {
        "4"
    } else if d == 5 {
        "5"
    } else if d == 6 {
        "6"
    } else if d == 7 {
        "7"
    } else if d == 8 {
        "8"
    } else {
        "9"
    };
    proof {
        reveal_strlit("0");
        reveal_strlit("1");
        reveal_strlit("2");
        reveal_strlit("3");
        reveal_strlit("4");
        reveal_strlit("5");
        reveal_strlit("6");
        reveal_strlit("7");
        reveal_strlit("8");
        reveal_strlit("9");
        assert(r@ =~= seq![spec_digit_char(d as int)]);
    }
    r
}

/// The decimal digits of a number, most significant first.
fn nat_text(n: u64) -> (r: String)
    ensures
        r@ == spec_nat_digits(n as int),
    decreases n,
{
    if n < 10 {
        digit_text(n).to_owned()
    } else {
        let mut s = nat_text(n / 10);
        s.append(digit_text(n % 10));
        s
    }
}

/// The decimal text of a signed number.
fn number_text(n: i64) -> (r: String)
    ensures
        r@ == spec_number_text(n as int),
{
    if n >= 0 {
        nat_text(n as u64)
    } else {
        let m: u64 = (-(n as i128)) as u64;
        let mut s = "-".to_owned();
        s.append(nat_text(m).as_str());
        proof {
            reveal_strlit("-");
            assert(s@ =~= seq!['-'] + spec_nat_digits(m as int));
        }
        s
    }
}

/// The C text of an expression.
pub fn serialize_expression(expr: &Expression) -> (r: String)
    ensures
        r@ == spec_serialize_expression(expr.deep_view()),
    decreases *expr, 0int,
{
    match expr {
        Expression::NumberLiteral(n) => number_text(*n),
        Expression::StringLiteral(s) => {
            let mut out = "\"".to_owned();
            out.append(s.as_str());
            out.append("\"");
            proof {
                reveal_strlit("\"");
                assert(out@ =~= seq!['"'] + s@ + seq!['"']);
            }
            out
        },
        Expression::Ident(s) => s.clone(),
        Expression::BinaryOperator { op, left, right } => {
            let mut out = "(".to_owned();
            out.append(serialize_expression(left).as_str());
            out.append(" ");
            out.append(serialize_operator(*op).as_str());
            out.append(" ");
            out.append(serialize_expression(right).as_str());
            out.append(")");
            proof {
                reveal_strlit("(");
                reveal_strlit(")");
                reveal_strlit(" ");
                assert(out@ =~= seq!['('] + spec_serialize_expression(left.deep_view())
                    + seq![' '] + spec_serialize_operator(*op) + seq![' ']
                    + spec_serialize_expression(right.deep_view()) + seq![')']);
            }
            out
        },
        Expression::UnaryOperator { op, operand } => {
            let mut out = "(".to_owned();
            out.append(serialize_operator(*op).as_str());
            out.append(serialize_expression(operand).as_str());
            out.append(")");
            proof {
                reveal_strlit("(");
                reveal_strlit(")");
                assert(out@ =~= seq!['('] + spec_serialize_operator(*op)
                    + spec_serialize_expression(operand.deep_view()) + seq![')']);
            }
            out
        },
        Expression::FunctionCall(name, args) => {
            let mut out = name.clone();
            out.append("(");
            out.append(serialize_arguments(args, 0).as_str());
            out.append(")");
            proof {
                reveal_strlit("(");
                reveal_strlit(")");
                lemma_function_call_view_ref(name, args, expr);
                assert(args.deep_view().subrange(0, args.deep_view().len() as int)
                    =~= args.deep_view());
                assert(out@ =~= name@ + seq!['('] + spec_join_arguments(args.deep_view())
                    + seq![')']);
            }
            out
        },
    }
}

/// The call arguments from index `i` on, joined with commas.
fn serialize_arguments(args: &Vec<Expression>, i: usize) -> (r: String)
    requires
        i <= args.len(),
    ensures
        r@ == spec_join_arguments(
            args.deep_view().subrange(i as int, args.deep_view().len() as int),
        ),
    decreases *args, args.len() - i,
{
    let ghost tail = args.deep_view().subrange(i as int, args.deep_view().len() as int);
    if i >= args.len() {
        let out = String::new();
        proof {
            assert(tail =~= Seq::<SpecExpression>::empty());
        }
        out
    } else if i == args.len() - 1 {
        let out = serialize_expression(&args[i]);
        proof {
            assert(tail.len() == 1);
            assert(tail[0] == args.deep_view()[i as int]);
        }
        out
    } else {
        let mut out = serialize_expression(&args[i]);
        out.append(",");
        out.append(serialize_arguments(args, i + 1).as_str());
        proof {
            reveal_strlit(",");
            assert(tail[0] == args.deep_view()[i as int]);
            assert(tail.drop_first() =~= args.deep_view().subrange(
                i + 1,
                args.deep_view().len() as int,
            ));
            assert(out@ =~= spec_serialize_expression(tail[0]) + seq![',']
                + spec_join_arguments(tail.drop_first()));
        }
        out
    }
}

/// The C text of a statement.
pub fn serialize_statement(statement: &Statement) -> (r: String)
    ensures
        r@ == spec_serialize_statement(statement.deep_view()),
    decreases *statement, 0int,
{
    match statement {
        Statement::Return(e) => {
            let mut out = "return ".to_owned();
            out.append(serialize_expression(e).as_str());
            out.append(";");
            out
        },
        Statement::Let(name, ty, init) => match init {
            Some(e) => {
                let mut out = ty.clone();
                out.append(" ");
                out.append(name.as_str());
                out.append(" = ");
                out.append(serialize_expression(e).as_str());
                out.append(";");
                out
            },
            None => {
                let mut out = ty.clone();
                out.append(" ");
                out.append(name.as_str());
                out.append(";");
                out
            },
        },
        Statement::If(cond, body) => {
            let mut out = "if (".to_owned();
            out.append(serialize_expression(cond).as_str());
            out.append(") ");
            out.append(serialize_statement(body).as_str());
            out
        },
        Statement::While(cond, body) => {
            let mut out = "while (".to_owned();
            out.append(serialize_expression(cond).as_str());
            out.append(") ");
            out.append(serialize_statement(body).as_str());
            out
        },
        Statement::Compound(body) => {
            let mut out = "{ ".to_owned();
            out.append(serialize_statements(body, 0).as_str());
            out.append(" }");
            proof {
                lemma_compound_view_ref(body, statement);
                assert(body.deep_view().subrange(0, body.deep_view().len() as int)
                    =~= body.deep_view());
            }
            out
        },
        Statement::Expression(e) => {
            let mut out = serialize_expression(e);
            out.append(";");
            out
        },
    }
}

/// The statements from index `i` on, one after the other.
fn serialize_statements(list: &Vec<Statement>, i: usize) -> (r: String)
    requires
        i <= list.len(),
    ensures
        r@ == spec_concat_statements(
            list.deep_view().subrange(i as int, list.deep_view().len() as int),
        ),
    decreases *list, list.len() - i,
{
    let ghost tail = list.deep_view().subrange(i as int, list.deep_view().len() as int);
    if i >= list.len() {
        let out = String::new();
        proof {
            assert(tail =~= Seq::<SpecStatement>::empty());
        }
        out
    } else {
        let mut out = serialize_statement(&list[i]);
        out.append(serialize_statements(list, i + 1).as_str());
        proof {
            assert(tail[0] == list.deep_view()[i as int]);
            assert(tail.drop_first() =~= list.deep_view().subrange(
                i + 1,
                list.deep_view().len() as int,
            ));
        }
        out
    }
}

/// Function parameters from index `i` on, as `type name`, joined with
/// commas.
fn arguments_text(args: &Vec<(String, String)>, i: usize) -> (r: String)
    requires
        i <= args.len(),
    ensures
        r@ == spec_arguments_text(
            args.deep_view().subrange(i as int, args.deep_view().len() as int),
        ),
    decreases args.len() - i,
{
    let ghost tail = args.deep_view().subrange(i as int, args.deep_view().len() as int);
    if i >= args.len() {
        let out = String::new();
        proof {
            assert(tail =~= Seq::<(Seq<char>, Seq<char>)>::empty());
        }
        out
    } else {
        let mut out = args[i].1.clone();
        out.append(" ");
        out.append(args[i].0.as_str());
        proof {
            assert(tail[0] == args.deep_view()[i as int]);
        }
        if i == args.len() - 1 {
            proof {
                assert(tail.len() == 1);
            }
            out
        } else {
            out.append(",");
            out.append(arguments_text(args, i + 1).as_str());
            proof {
                reveal_strlit(",");
                assert(tail.drop_first() =~= args.deep_view().subrange(
                    i + 1,
                    args.deep_view().len() as int,
                ));
            }
            out
        }
    }
}

/// Struct members from index `i` on, as `type name;`, one after the
/// other.
fn members_text(members: &Vec<(String, String)>, i: usize) -> (r: String)
    requires
        i <= members.len(),
    ensures
        r@ == spec_members_text(
            members.deep_view().subrange(i as int, members.deep_view().len() as int),
        ),
    decreases members.len() - i,
{
    let ghost tail = members.deep_view().subrange(i as int, members.deep_view().len() as int);
    if i >= members.len() {
        let out = String::new();
        proof {
            assert(tail =~= Seq::<(Seq<char>, Seq<char>)>::empty());
        }
        out
    } else {
        let mut out = members[i].1.clone();
        out.append(" ");
        out.append(members[i].0.as_str());
        out.append(";");
        out.append(members_text(members, i + 1).as_str());
        proof {
            assert(tail[0] == members.deep_view()[i as int]);
            assert(tail.drop_first() =~= members.deep_view().subrange(
                i + 1,
                members.deep_view().len() as int,
            ));
        }
        out
    }
}

/// The return type as emitted; `void` when omitted.
fn return_text(return_type: &Option<String>) -> (r: String)
    ensures
        r@ == spec_return_text(return_type.deep_view()),
{
    match return_type {
        Some(t) => t.clone(),
        None => "void".to_owned(),
    }
}

/// Pass one: the forward declarations of the function bindings from
/// index `i` on.
fn forward_declarations(items: &Vec<ConstAssignment>, i: usize) -> (r: String)
    requires
        i <= items.len(),
    ensures
        r@ == spec_forward_declarations(
            items.deep_view().subrange(i as int, items.deep_view().len() as int),
        ),
    decreases items.len() - i,
{
    let ghost tail = items.deep_view().subrange(i as int, items.deep_view().len() as int);
    if i >= items.len() {
        let out = String::new();
        proof {
            assert(tail =~= Seq::<SpecConstAssignment>::empty());
        }
        out
    } else {
        let ca = &items[i];
        let head: String = match &ca.1 {
            ConstAssignmentVal::Function { args, return_type, body: _ } => {
                let mut h = return_text(return_type);
                h.append(" ");
                h.append(ca.0.as_str());
                h.append(" (");
                h.append(arguments_text(args, 0).as_str());
                h.append(");");
                proof {
                    assert(args.deep_view().subrange(0, args.deep_view().len() as int)
                        =~= args.deep_view());
                }
                h
            },
            _ => String::new(),
        };
        let out = head.concat(forward_declarations(items, i + 1).as_str());
        proof {
            assert(tail[0] == items.deep_view()[i as int]);
            assert(tail.drop_first() =~= items.deep_view().subrange(
                i + 1,
                items.deep_view().len() as int,
            ));
        }
        out
    }
}

/// Whether a binding name carries the `__t_` test-marker prefix.
fn has_marker_prefix(name: &String) -> (r: bool)
    ensures
        r == (name@.len() >= 4 && name@.subrange(0, 4) == "__t_"@),
{
    if name.as_str().unicode_len() >= 4 {
        let p = name.as_str().substring_char(0, 4);
        let eq = crate::lexer::str_eq(p, "__t_");
        proof {
            if p@ == "__t_"@ {
                assert(name@.subrange(0, 4) == "__t_"@);
            }
        }
        eq
    } else {
        false
    }
}

/// Pass two: the definitions and side-channel marker lines of the
/// bindings from index `i` on.
fn definitions(items: &Vec<ConstAssignment>, i: usize, test_mode: bool) -> (r: Result<
    (String, Vec<String>),
    EmitError,
>)
    requires
        i <= items.len(),
    ensures
        match r {
            Ok(out) => spec_definitions(
                items.deep_view().subrange(i as int, items.deep_view().len() as int),
                test_mode,
            ) == Ok::<(Seq<char>, Seq<Seq<char>>), SpecEmitError>((out.0@, out.1.deep_view())),
            Err(e) => spec_definitions(
                items.deep_view().subrange(i as int, items.deep_view().len() as int),
                test_mode,
            ) == Err::<(Seq<char>, Seq<Seq<char>>), SpecEmitError>(e.deep_view()),
        },
    decreases items.len() - i,
{
    let ghost tail = items.deep_view().subrange(i as int, items.deep_view().len() as int);
    if i >= items.len() {
        let markers: Vec<String> = Vec::new();
        proof {
            assert(tail =~= Seq::<SpecConstAssignment>::empty());
            assert(markers.deep_view() =~= Seq::<Seq<char>>::empty());
        }
        return Ok((String::new(), markers));
    }
    proof {
        assert(tail[0] == items.deep_view()[i as int]);
        assert(tail.drop_first() =~= items.deep_view().subrange(
            i + 1,
            items.deep_view().len() as int,
        ));
    }
    let ca = &items[i];
    // The text and (at most one) marker line of this binding.
    let head: (String, Option<String>) = match &ca.1 {
        ConstAssignmentVal::Function { args, return_type, body } => {
            let mut h = return_text(return_type);
            h.append(" ");
            h.append(ca.0.as_str());
            h.append(" (");
            h.append(arguments_text(args, 0).as_str());
            h.append(") { ");
            h.append(serialize_statements(body, 0).as_str());
            h.append(" }");
            proof {
                lemma_function_val_view_ref(args, return_type, body, &ca.1);
                assert(args.deep_view().subrange(0, args.deep_view().len() as int)
                    =~= args.deep_view());
                assert(body.deep_view().subrange(0, body.deep_view().len() as int)
                    =~= body.deep_view());
            }
            (h, None)
        },
        ConstAssignmentVal::Struct(members) => {
            let mut h = "typedef struct { ".to_owned();
            h.append(members_text(members, 0).as_str());
            h.append(" } ");
            h.append(ca.0.as_str());
            h.append(";");
            proof {
                assert(members.deep_view().subrange(0, members.deep_view().len() as int)
                    =~= members.deep_view());
            }
            (h, None)
        },
        ConstAssignmentVal::Expression(e) => match e {
            Expression::NumberLiteral(n) => {
                if has_marker_prefix(&ca.0) {
                    if test_mode {
                        let mut m = ca.0.clone();
                        m.append("=");
                        m.append(number_text(*n).as_str());
                        (String::new(), Some(m))
                    } else {
                        (String::new(), None)
                    }
                } else {
                    return Err(EmitError::UnsupportedTopLevelExpression { name: ca.0.clone() });
                }
            },
            _ => {
                return Err(EmitError::UnsupportedTopLevelExpression { name: ca.0.clone() });
            },
        },
    };
    match definitions(items, i + 1, test_mode) {
        Ok((rest_text, rest_markers)) => {
            let text = head.0.concat(rest_text.as_str());
            match head.1 {
                Some(m) => {
                    let mut markers = rest_markers;
                    let ghost markers0 = markers.deep_view();
                    markers.insert(0, m);
                    proof {
                        assert(markers.deep_view() =~= seq![markers@[0].deep_view()] + markers0);
                    }
                    Ok((text, markers))
                },
                None => {
                    proof {
                        assert(Seq::<Seq<char>>::empty() + rest_markers.deep_view()
                            =~= rest_markers.deep_view());
                    }
                    Ok((text, rest_markers))
                },
            }
        },
        Err(e) => Err(e),
    }
}

/// Render an abstract syntax tree as C source text and side-channel
/// marker lines, or report the first unsupported binding. Returns
/// exactly what `emit_spec` describes.
pub fn emit(ast: &AstRoot, test_mode: bool) -> (r: Result<(String, Vec<String>), EmitError>)
    ensures
        match r {
            Ok(out) => emit_spec(ast.deep_view(), test_mode) == Ok::<
                (Seq<char>, Seq<Seq<char>>),
                SpecEmitError,
            >((out.0@, out.1.deep_view())),
            Err(e) => emit_spec(ast.deep_view(), test_mode) == Err::<
                (Seq<char>, Seq<Seq<char>>),
                SpecEmitError,
            >(e.deep_view()),
        },
{
    proof {
        assert(ast.0.deep_view().subrange(0, ast.0.deep_view().len() as int)
            =~= ast.0.deep_view());
    }
    match definitions(&ast.0, 0, test_mode) {
        Ok((text, markers)) => {
            let mut out = forward_declarations(&ast.0, 0);
            out.append(text.as_str());
            out.append("\n");
            Ok((out, markers))
        },
        Err(e) => Err(e),
    }
}

/// `lemma_function_call_view`, reached through a reference to the whole
/// expression.
proof fn lemma_function_call_view_ref(name: &String, args: &Vec<Expression>, expr: &Expression)
    requires
        *expr == Expression::FunctionCall(*name, *args),
    ensures
        expr.deep_view() == SpecExpression::FunctionCall(name@, args.deep_view()),
{
    crate::ast::lemma_function_call_view(*name, *args);
}

/// Every binding's forward declaration stands as a contiguous piece of
/// pass one's text.
proof fn lemma_declaration_within_pass_one(items: Seq<SpecConstAssignment>, k: int)
    requires
        0 <= k < items.len(),
    ensures
        exists|off: int|
            {
                &&& 0 <= off
                &&& off + spec_forward_declaration(items[k]).len() <= spec_forward_declarations(
                    items,
                ).len()
                &&& #[trigger] spec_forward_declarations(items).subrange(
                    off,
                    off + spec_forward_declaration(items[k]).len() as int,
                ) == spec_forward_declaration(items[k])
            },
    decreases k,
{
    let d = spec_forward_declaration(items[k]);
    let all = spec_forward_declarations(items);
    let h = spec_forward_declaration(items[0]);
    let rest = spec_forward_declarations(items.drop_first());
    if k == 0 {
        assert(all.subrange(0, 0 + d.len() as int) =~= d);
    } else {
        lemma_declaration_within_pass_one(items.drop_first(), k - 1);
        assert(items.drop_first()[k - 1] == items[k]);
        let off0 = choose|off0: int|
            {
                &&& 0 <= off0
                &&& off0 + d.len() <= rest.len()
                &&& #[trigger] rest.subrange(off0, off0 + d.len() as int) == d
            };
        let off = h.len() as int + off0;
        assert(all.subrange(off, off + d.len() as int) =~= rest.subrange(
            off0,
            off0 + d.len() as int,
        ));
    }
}

/// Two-pass emission: when emission succeeds, the emitted text opens
/// with the forward declarations of all function bindings, in
/// declaration order, and the prototype of every function binding
/// stands inside that opening, before the text of any definition. A
/// function defined after its first caller in source order is therefore
/// declared before that caller's definition in the emitted C.
pub proof fn lemma_two_pass_emission(
    items: Seq<SpecConstAssignment>,
    test_mode: bool,
    k: int,
    text: Seq<char>,
    markers: Seq<Seq<char>>,
)
    requires
        emit_spec(items, test_mode) == Ok::<(Seq<char>, Seq<Seq<char>>), SpecEmitError>(
            (text, markers),
        ),
        0 <= k < items.len(),
        items[k].1 is Function,
    ensures
        spec_forward_declarations(items).len() <= text.len(),
        text.subrange(0, spec_forward_declarations(items).len() as int)
            == spec_forward_declarations(items),
        exists|off: int|
            {
                &&& 0 <= off
                &&& off + spec_forward_declaration(items[k]).len() <= spec_forward_declarations(
                    items,
                ).len()
                &&& #[trigger] text.subrange(
                    off,
                    off + spec_forward_declaration(items[k]).len() as int,
                ) == spec_forward_declaration(items[k])
            },
{
    let d = spec_forward_declaration(items[k]);
    let decls = spec_forward_declarations(items);
    match spec_definitions(items, test_mode) {
        Ok(out) => {
            assert(text == decls + out.0 + "\n"@);
            assert(text.subrange(0, decls.len() as int) =~= decls);
            lemma_declaration_within_pass_one(items, k);
            let off = choose|off: int|
                {
                    &&& 0 <= off
                    &&& off + d.len() <= decls.len()
                    &&& #[trigger] decls.subrange(off, off + d.len() as int) == d
                };
            assert(text.subrange(off, off + d.len() as int) =~= decls.subrange(
                off,
                off + d.len() as int,
            ));
        },
        Err(e) => {
            assert(false);
        },
    }
}

/// `lemma_function_val_view`, reached through a reference to the whole
/// value.
proof fn lemma_function_val_view_ref(
    args: &Vec<(String, String)>,
    return_type: &Option<String>,
    body: &Vec<Statement>,
    val: &ConstAssignmentVal,
)
    requires
        *val == (ConstAssignmentVal::Function {
            args: *args,
            return_type: *return_type,
            body: *body,
        }),
    ensures
        val.deep_view() == (SpecConstAssignmentVal::Function {
            args: args.deep_view(),
            return_type: return_type.deep_view(),
            body: body.deep_view(),
        }),
{
    crate::ast::lemma_function_val_view(*args, *return_type, *body);
}

/// `lemma_compound_view`, reached through a reference to the whole
/// statement.
proof fn lemma_compound_view_ref(body: &Vec<Statement>, statement: &Statement)
    requires
        *statement == Statement::Compound(*body),
    ensures
        statement.deep_view() == SpecStatement::Compound(body.deep_view()),
{
    crate::ast::lemma_compound_view(*body);
}

} // verus!
