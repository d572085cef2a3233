use loki::ast::{AstRoot, ConstAssignment, ConstAssignmentVal, Expression, Operator, Statement};
use loki::lexer::{lex, Token};
use loki::parser::{parse, ParseError};

fn parse_source(source: &str) -> Result<AstRoot, ParseError> {
    parse(lex(source).unwrap())
}

fn expression_of(source: &str) -> Expression {
    let ast = parse_source(source).unwrap();
    assert_eq!(ast.0.len(), 1);
    let ConstAssignment(_, val) = ast.0.into_iter().next().unwrap();
    match val {
        ConstAssignmentVal::Expression(e) => e,
        other => panic!("expected an expression binding, found {:?}", other),
    }
}

#[test]
fn multiplication_binds_tighter_than_addition() {
    let e = expression_of("x :: 1 + 2 * 3 ;");
    assert_eq!(
        e,
        Expression::BinaryOperator {
            op: Operator::Add,
            left: Box::new(Expression::NumberLiteral(1)),
            right: Box::new(Expression::BinaryOperator {
                op: Operator::Multiply,
                left: Box::new(Expression::NumberLiteral(2)),
                right: Box::new(Expression::NumberLiteral(3)),
            }),
        }
    );
}

#[test]
fn unary_deref_binds_tighter_than_addition() {
    let e = expression_of("x :: *a + 1 ;");
    assert_eq!(
        e,
        Expression::BinaryOperator {
            op: Operator::Add,
            left: Box::new(Expression::UnaryOperator {
                op: Operator::Deref,
                operand: Box::new(Expression::Ident("a".to_string())),
            }),
            right: Box::new(Expression::NumberLiteral(1)),
        }
    );
}

#[test]
fn member_access_is_left_associative() {
    let e = expression_of("x :: a . b . c ;");
    assert_eq!(
        e,
        Expression::BinaryOperator {
            op: Operator::MemberAccess,
            left: Box::new(Expression::BinaryOperator {
                op: Operator::MemberAccess,
                left: Box::new(Expression::Ident("a".to_string())),
                right: Box::new(Expression::Ident("b".to_string())),
            }),
            right: Box::new(Expression::Ident("c".to_string())),
        }
    );
}

#[test]
fn member_access_binds_tighter_than_deref() {
    let e = expression_of("x :: *a.b ;");
    assert_eq!(
        e,
        Expression::UnaryOperator {
            op: Operator::Deref,
            operand: Box::new(Expression::BinaryOperator {
                op: Operator::MemberAccess,
                left: Box::new(Expression::Ident("a".to_string())),
                right: Box::new(Expression::Ident("b".to_string())),
            }),
        }
    );
}

#[test]
fn nested_deref() {
    let e = expression_of("x :: **p ;");
    assert_eq!(
        e,
        Expression::UnaryOperator {
            op: Operator::Deref,
            operand: Box::new(Expression::UnaryOperator {
                op: Operator::Deref,
                operand: Box::new(Expression::Ident("p".to_string())),
            }),
        }
    );
}

#[test]
fn addition_is_left_associative() {
    let e = expression_of("x :: 1 + 2 + 3 ;");
    assert_eq!(
        e,
        Expression::BinaryOperator {
            op: Operator::Add,
            left: Box::new(Expression::BinaryOperator {
                op: Operator::Add,
                left: Box::new(Expression::NumberLiteral(1)),
                right: Box::new(Expression::NumberLiteral(2)),
            }),
            right: Box::new(Expression::NumberLiteral(3)),
        }
    );
}

#[test]
fn parentheses_override_precedence() {
    let e = expression_of("x :: ( 1 + 2 ) * 3 ;");
    assert_eq!(
        e,
        Expression::BinaryOperator {
            op: Operator::Multiply,
            left: Box::new(Expression::BinaryOperator {
                op: Operator::Add,
                left: Box::new(Expression::NumberLiteral(1)),
                right: Box::new(Expression::NumberLiteral(2)),
            }),
            right: Box::new(Expression::NumberLiteral(3)),
        }
    );
}

#[test]
fn relational_and_equality_operators() {
    let e = expression_of("x :: a < b == c > d ;");
    // Relational binds tighter than equality.
    assert_eq!(
        e,
        Expression::BinaryOperator {
            op: Operator::IsEqual,
            left: Box::new(Expression::BinaryOperator {
                op: Operator::IsLessThan,
                left: Box::new(Expression::Ident("a".to_string())),
                right: Box::new(Expression::Ident("b".to_string())),
            }),
            right: Box::new(Expression::BinaryOperator {
                op: Operator::IsGreaterThan,
                left: Box::new(Expression::Ident("c".to_string())),
                right: Box::new(Expression::Ident("d".to_string())),
            }),
        }
    );
}

#[test]
fn call_requires_adjacent_paren() {
    let e = expression_of("x :: f ( 1 , g ( ) , 2 ) ;");
    assert_eq!(
        e,
        Expression::FunctionCall(
            "f".to_string(),
            vec![
                Expression::NumberLiteral(1),
                Expression::FunctionCall("g".to_string(), vec![]),
                Expression::NumberLiteral(2),
            ]
        )
    );
}

#[test]
fn call_accepts_trailing_comma() {
    let e = expression_of("x :: f ( 1 , ) ;");
    assert_eq!(
        e,
        Expression::FunctionCall("f".to_string(), vec![Expression::NumberLiteral(1)])
    );
}

#[test]
fn parse_struct_binding() {
    let ast = parse_source("p :: struct { x : int , y : int * * } ;").unwrap();
    assert_eq!(
        ast,
        AstRoot(vec![ConstAssignment(
            "p".to_string(),
            ConstAssignmentVal::Struct(vec![
                ("x".to_string(), "int".to_string()),
                ("y".to_string(), "int**".to_string()),
            ])
        )])
    );
}

#[test]
fn parse_function_with_statements() {
    let ast = parse_source(
        "f :: fn ( a : int , b : char * ) -> int { let x : int = 1 ; let y : int ; if ( a == 1 ) { return x ; } while ( a < 2 ) a = a + 1 ; b ; } ;",
    )
    .unwrap();
    assert_eq!(
        ast,
        AstRoot(vec![ConstAssignment(
            "f".to_string(),
            ConstAssignmentVal::Function {
                args: vec![
                    ("a".to_string(), "int".to_string()),
                    ("b".to_string(), "char*".to_string()),
                ],
                return_type: Some("int".to_string()),
                body: vec![
                    Statement::Let(
                        "x".to_string(),
                        "int".to_string(),
                        Some(Expression::NumberLiteral(1))
                    ),
                    Statement::Let("y".to_string(), "int".to_string(), None),
                    Statement::If(
                        Expression::BinaryOperator {
                            op: Operator::IsEqual,
                            left: Box::new(Expression::Ident("a".to_string())),
                            right: Box::new(Expression::NumberLiteral(1)),
                        },
                        Box::new(Statement::Compound(vec![Statement::Return(
                            Expression::Ident("x".to_string())
                        )])),
                    ),
                    Statement::While(
                        Expression::BinaryOperator {
                            op: Operator::IsLessThan,
                            left: Box::new(Expression::Ident("a".to_string())),
                            right: Box::new(Expression::NumberLiteral(2)),
                        },
                        Box::new(Statement::Expression(Expression::BinaryOperator {
                            op: Operator::Assign,
                            left: Box::new(Expression::Ident("a".to_string())),
                            right: Box::new(Expression::BinaryOperator {
                                op: Operator::Add,
                                left: Box::new(Expression::Ident("a".to_string())),
                                right: Box::new(Expression::NumberLiteral(1)),
                            }),
                        })),
                    ),
                    Statement::Expression(Expression::Ident("b".to_string())),
                ],
            }
        )])
    );
}

#[test]
fn parse_several_bindings_in_order() {
    let ast = parse_source("a :: 1 ; b :: 2 ;").unwrap();
    assert_eq!(
        ast,
        AstRoot(vec![
            ConstAssignment(
                "a".to_string(),
                ConstAssignmentVal::Expression(Expression::NumberLiteral(1))
            ),
            ConstAssignment(
                "b".to_string(),
                ConstAssignmentVal::Expression(Expression::NumberLiteral(2))
            ),
        ])
    );
}

#[test]
fn missing_semicolon_reports_expected_and_found() {
    let err = parse_source("a :: fn ( ) { return 1 }").unwrap_err();
    assert_eq!(
        err,
        ParseError::Expected {
            expected: Token::Semicolon,
            found: Some(Token::BraceClose),
            pos: 8,
        }
    );
}

#[test]
fn missing_comma_between_parameters() {
    let err = parse_source("f :: fn ( a : int b : int ) { } ;").unwrap_err();
    assert_eq!(
        err,
        ParseError::Expected {
            expected: Token::Comma,
            found: Some(Token::Ident("b".to_string())),
            pos: 7,
        }
    );
}

#[test]
fn missing_type_annotation_in_let() {
    let err = parse_source("f :: fn ( ) { let x = 1 ; } ;").unwrap_err();
    assert_eq!(
        err,
        ParseError::Expected {
            expected: Token::Colon,
            found: Some(Token::Equals),
            pos: 8,
        }
    );
}

#[test]
fn binding_without_double_colon() {
    let err = parse_source("a : 1 ;").unwrap_err();
    assert_eq!(
        err,
        ParseError::Expected {
            expected: Token::ColonColon,
            found: Some(Token::Colon),
            pos: 1,
        }
    );
}

#[test]
fn stray_token_in_expression() {
    let err = parse_source("a :: ; ;").unwrap_err();
    assert_eq!(
        err,
        ParseError::UnexpectedToken {
            found: Some(Token::Semicolon),
            pos: 2,
        }
    );
}

#[test]
fn input_ending_inside_binding() {
    let err = parse_source("a ::").unwrap_err();
    assert_eq!(err, ParseError::UnexpectedToken { found: None, pos: 2 });
}

#[test]
fn empty_token_stream_parses_to_empty_program() {
    let ast = parse(Vec::new()).unwrap();
    assert_eq!(ast, AstRoot(vec![]));
}

#[test]
fn binding_must_start_with_an_identifier() {
    let err = parse_source("1 ;").unwrap_err();
    assert_eq!(
        err,
        ParseError::ExpectedIdent {
            found: Some(Token::NumberLiteral(1)),
            pos: 0,
        }
    );
}

#[test]
fn reparsing_a_canonical_print_reconstructs_the_tree() {
    // The canonical print of a tree parenthesizes every operation, so
    // re-parsing it gives the tree back unchanged.
    let e = expression_of("x :: ( ( * a ) + f ( ( a . b ) , 2 ) ) ;");
    assert_eq!(
        e,
        Expression::BinaryOperator {
            op: Operator::Add,
            left: Box::new(Expression::UnaryOperator {
                op: Operator::Deref,
                operand: Box::new(Expression::Ident("a".to_string())),
            }),
            right: Box::new(Expression::FunctionCall(
                "f".to_string(),
                vec![
                    Expression::BinaryOperator {
                        op: Operator::MemberAccess,
                        left: Box::new(Expression::Ident("a".to_string())),
                        right: Box::new(Expression::Ident("b".to_string())),
                    },
                    Expression::NumberLiteral(2),
                ]
            )),
        }
    );
}

#[test]
fn binary_operator_of_token() {
    assert_eq!(Operator::to_binary_op(&Token::Equals), Some(Operator::Assign));
    assert_eq!(Operator::to_binary_op(&Token::Plus), Some(Operator::Add));
    assert_eq!(Operator::to_binary_op(&Token::Hyphen), Some(Operator::Subtract));
    assert_eq!(Operator::to_binary_op(&Token::Star), Some(Operator::Multiply));
    assert_eq!(Operator::to_binary_op(&Token::EqualsEquals), Some(Operator::IsEqual));
    assert_eq!(Operator::to_binary_op(&Token::AngleBracketOpen), Some(Operator::IsLessThan));
    assert_eq!(Operator::to_binary_op(&Token::AngleBracketClose), Some(Operator::IsGreaterThan));
    assert_eq!(Operator::to_binary_op(&Token::Period), Some(Operator::MemberAccess));
    assert_eq!(Operator::to_binary_op(&Token::Semicolon), None);
}

#[test]
fn unary_operator_of_token() {
    assert_eq!(Operator::to_unary_op(&Token::Plus), Some(Operator::UnaryPlus));
    assert_eq!(Operator::to_unary_op(&Token::Star), Some(Operator::Deref));
    assert_eq!(Operator::to_unary_op(&Token::Hyphen), None);
}
