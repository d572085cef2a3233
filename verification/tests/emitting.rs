use loki::ast::{Expression, Operator, Statement};
use loki::emitter::{serialize_expression, serialize_operator, serialize_statement, EmitError};
use loki::{compile, CompileError};

#[test]
fn operator_texts() {
    assert_eq!(serialize_operator(Operator::Assign), "=");
    assert_eq!(serialize_operator(Operator::Add), "+");
    assert_eq!(serialize_operator(Operator::UnaryPlus), "+");
    assert_eq!(serialize_operator(Operator::Subtract), "-");
    assert_eq!(serialize_operator(Operator::Multiply), "*");
    assert_eq!(serialize_operator(Operator::Deref), "*");
    assert_eq!(serialize_operator(Operator::IsEqual), "==");
    assert_eq!(serialize_operator(Operator::IsLessThan), "<");
    assert_eq!(serialize_operator(Operator::IsGreaterThan), ">");
    assert_eq!(serialize_operator(Operator::MemberAccess), ".");
}

#[test]
fn expression_rendering_parenthesizes_binary_operations() {
    let e = Expression::BinaryOperator {
        op: Operator::Add,
        left: Box::new(Expression::NumberLiteral(1)),
        right: Box::new(Expression::BinaryOperator {
            op: Operator::Multiply,
            left: Box::new(Expression::NumberLiteral(2)),
            right: Box::new(Expression::NumberLiteral(3)),
        }),
    };
    assert_eq!(serialize_expression(&e), "(1 + (2 * 3))");
}

#[test]
fn unary_rendering_has_no_inner_space() {
    let e = Expression::UnaryOperator {
        op: Operator::Deref,
        operand: Box::new(Expression::Ident("p".to_string())),
    };
    assert_eq!(serialize_expression(&e), "(*p)");
}

#[test]
fn call_and_string_rendering() {
    let e = Expression::FunctionCall(
        "printf".to_string(),
        vec![
            Expression::StringLiteral("hi".to_string()),
            Expression::NumberLiteral(7),
        ],
    );
    assert_eq!(serialize_expression(&e), "printf(\"hi\",7)");
}

#[test]
fn negative_and_extreme_number_rendering() {
    assert_eq!(serialize_expression(&Expression::NumberLiteral(0)), "0");
    assert_eq!(serialize_expression(&Expression::NumberLiteral(-5)), "-5");
    assert_eq!(
        serialize_expression(&Expression::NumberLiteral(i64::MAX)),
        "9223372036854775807"
    );
    assert_eq!(
        serialize_expression(&Expression::NumberLiteral(i64::MIN)),
        "-9223372036854775808"
    );
}

#[test]
fn statement_rendering() {
    assert_eq!(
        serialize_statement(&Statement::Return(Expression::NumberLiteral(1))),
        "return 1;"
    );
    assert_eq!(
        serialize_statement(&Statement::Let(
            "x".to_string(),
            "int".to_string(),
            Some(Expression::NumberLiteral(2))
        )),
        "int x = 2;"
    );
    assert_eq!(
        serialize_statement(&Statement::Let("x".to_string(), "int*".to_string(), None)),
        "int* x;"
    );
    assert_eq!(
        serialize_statement(&Statement::If(
            Expression::Ident("c".to_string()),
            Box::new(Statement::Return(Expression::NumberLiteral(1)))
        )),
        "if (c) return 1;"
    );
    assert_eq!(
        serialize_statement(&Statement::While(
            Expression::Ident("c".to_string()),
            Box::new(Statement::Compound(vec![]))
        )),
        "while (c) {  }"
    );
    assert_eq!(
        serialize_statement(&Statement::Compound(vec![
            Statement::Return(Expression::NumberLiteral(1)),
            Statement::Return(Expression::NumberLiteral(2)),
        ])),
        "{ return 1;return 2; }"
    );
    assert_eq!(
        serialize_statement(&Statement::Expression(Expression::Ident("x".to_string()))),
        "x;"
    );
}

#[test]
fn forward_declarations_precede_all_definitions() {
    // `main` calls `callee`, which is defined only afterwards: the
    // two-pass emission must still declare `callee` before `main`'s
    // definition.
    let source = "main :: fn ( ) { return callee ( ) ; } ; callee :: fn ( ) -> int { return 1 ; } ;";
    let (text, markers) = compile(source, false).unwrap();
    assert_eq!(
        text,
        "void main ();int callee ();void main () { return callee(); }int callee () { return 1; }\n"
    );
    assert_eq!(markers, Vec::<String>::new());
    let declaration = text.find("int callee ();").unwrap();
    let definition = text.find("int callee () {").unwrap();
    assert!(declaration < definition);
}

#[test]
fn struct_binding_renders_as_typedef() {
    let source = "point :: struct { x : int , y : int } ;";
    let (text, _) = compile(source, false).unwrap();
    assert_eq!(text, "typedef struct { int x;int y; } point;\n");
}

#[test]
fn function_with_parameters_and_return_type() {
    let source = "add :: fn ( a : int , b : int ) -> int { return a + b ; } ;";
    let (text, _) = compile(source, false).unwrap();
    assert_eq!(text, "int add (int a,int b);int add (int a,int b) { return (a + b); }\n");
}

#[test]
fn test_marker_with_test_mode_active() {
    let (text, markers) = compile("__t_x :: 5 ;", true).unwrap();
    assert_eq!(markers, vec!["__t_x=5".to_string()]);
    // The marker produces no C text at all.
    assert_eq!(text, "\n");
}

#[test]
fn test_marker_with_test_mode_inactive() {
    let (text, markers) = compile("__t_x :: 5 ;", false).unwrap();
    assert_eq!(markers, Vec::<String>::new());
    assert_eq!(text, "\n");
}

#[test]
fn markers_keep_declaration_order() {
    let (_, markers) = compile("__t_a :: 1 ; __t_b :: 2 ;", true).unwrap();
    assert_eq!(markers, vec!["__t_a=1".to_string(), "__t_b=2".to_string()]);
}

#[test]
fn bare_expression_binding_is_unsupported() {
    let err = compile("x :: 7 ;", true).unwrap_err();
    assert_eq!(
        err,
        CompileError::Emit(EmitError::UnsupportedTopLevelExpression { name: "x".to_string() })
    );
}

#[test]
fn marker_name_with_non_literal_value_is_unsupported() {
    let err = compile("__t_x :: 1 + 2 ;", true).unwrap_err();
    assert_eq!(
        err,
        CompileError::Emit(EmitError::UnsupportedTopLevelExpression {
            name: "__t_x".to_string()
        })
    );
}

#[test]
fn compile_reports_lex_and_parse_failures() {
    assert!(matches!(compile("a ?", false), Err(CompileError::Lex(_))));
    assert!(matches!(compile("a :: fn ( ) { return 1 }", false), Err(CompileError::Parse(_))));
}

#[test]
fn empty_source_compiles_to_a_newline() {
    let (text, markers) = compile("", true).unwrap();
    assert_eq!(text, "\n");
    assert_eq!(markers, Vec::<String>::new());
}
