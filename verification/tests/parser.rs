use mathfp::ast::Expr::{Binary, Grouping, Literal, Program, Variable};
use mathfp::ast::{Expr, LiteralValue};
use mathfp::parser::Parser;
use mathfp::token::TokenType::{
    Binding, EndStmt, Eof, Identifier, If, LeftParen, Minus, Plus, RightParen, Slash, Star,
};
use mathfp::token::{Numeral, Scanner, Token, TokenType};

fn number(value: f64) -> Numeral {
    Numeral::parse(&format!("{}", value)).unwrap()
}

#[allow(non_snake_case)]
fn Number(value: f64) -> TokenType {
    TokenType::Number(number(value))
}

fn literal(value: f64) -> Expr {
    Literal(LiteralValue::Number(number(value)))
}

fn assert_parse(input: Vec<Token>, expected: Expr) {
    let actual = Parser::new(input.clone()).parse().unwrap();
    assert_eq!(actual, expected, "Failed on input: {:?}", input);
}

fn make_token(kind: TokenType) -> Token {
    Token {
        kind,
        lexeme: std::string::String::new(),
        line: 1,
        column: 1,
    }
}

fn parse_source(source: &str) -> Result<Expr, Vec<String>> {
    let tokens = Scanner::new(source).scan().unwrap();
    Parser::new(tokens).parse()
}

fn statements_of(program: Expr) -> Vec<Expr> {
    match program {
        Program { statements } => statements,
        other => panic!("not a program: {:?}", other),
    }
}

#[test]
fn parser_test_empty() {
    assert_parse(vec![make_token(Eof)], Program { statements: vec![] });
}

#[test]
fn test_expr() {
    assert_parse(
        vec![
            make_token(Number(5.0)),
            make_token(Plus),
            make_token(Number(3.0)),
            make_token(Star),
            make_token(Number(1.0)),
            make_token(Eof),
        ],
        Program {
            statements: vec![Binary {
                left: Box::new(literal(5.0)),
                op: make_token(Plus),
                right: Box::new(Binary {
                    left: Box::new(literal(3.0)),
                    op: make_token(Star),
                    right: Box::new(literal(1.0)),
                }),
            }],
        },
    );
}

#[test]
fn test_stmt() {
    assert_parse(
        vec![
            make_token(Number(5.0)),
            make_token(Star),
            make_token(Number(3.0)),
            make_token(EndStmt),
            make_token(Eof),
        ],
        Program {
            statements: vec![Binary {
                left: Box::new(literal(5.0)),
                op: make_token(Star),
                right: Box::new(literal(3.0)),
            }],
        },
    );
}

#[test]
#[should_panic(expected = "Expected a primary expression")]
fn test_invalid_expr() {
    Parser::new(vec![
        make_token(Number(5.0)),
        make_token(Plus),
        make_token(Star),
        make_token(Eof),
    ])
    .parse()
    .unwrap();
}

#[test]
fn parser_test_grouping() {
    // ((9)*(9))
    assert_parse(
        vec![
            make_token(LeftParen),
            make_token(LeftParen),
            make_token(Number(9.0)),
            make_token(RightParen),
            make_token(Star),
            make_token(LeftParen),
            make_token(Number(9.0)),
            make_token(RightParen),
            make_token(RightParen),
            make_token(Eof),
        ],
        Program {
            statements: vec![Grouping(Box::new(Binary {
                left: Box::new(Grouping(Box::new(literal(9.0)))),
                op: make_token(Star),
                right: Box::new(Grouping(Box::new(literal(9.0)))),
            }))],
        },
    );
}

#[test]
#[should_panic(expected = "Expected ) after parenthesised expression")]
fn test_invalid_grouping_close() {
    // ((9)*(9
    Parser::new(vec![
        make_token(LeftParen),
        make_token(LeftParen),
        make_token(Number(9.0)),
        make_token(RightParen),
        make_token(Star),
        make_token(LeftParen),
        make_token(Number(9.0)),
        make_token(Eof),
    ])
    .parse()
    .unwrap();
}

#[test]
#[should_panic(expected = "Expected ; or newline after expression")]
fn test_invalid_grouping_open() {
    // 9)*(9))
    Parser::new(vec![
        make_token(Number(9.0)),
        make_token(RightParen),
        make_token(Star),
        make_token(LeftParen),
        make_token(Number(9.0)),
        make_token(RightParen),
        make_token(RightParen),
        make_token(Eof),
    ])
    .parse()
    .unwrap();
}

#[test]
fn blank_sources_parse_to_an_empty_program() {
    for source in ["", " ", "\t \r", "      "] {
        assert_eq!(parse_source(source), Ok(Program { statements: vec![] }));
    }
}

#[test]
fn terminators_alone_parse_to_an_empty_program() {
    assert_eq!(parse_source(";;\n;\n\n"), Ok(Program { statements: vec![] }));
}

#[test]
fn one_error_for_a_malformed_statement_and_parsing_goes_on() {
    // 5 + ; 3 * 2;
    let tokens = vec![
        make_token(Number(5.0)),
        make_token(Plus),
        make_token(EndStmt),
        make_token(Number(3.0)),
        make_token(Star),
        make_token(Number(2.0)),
        make_token(EndStmt),
        make_token(Eof),
    ];
    let mut parser = Parser::new(tokens.clone());
    let errors = parser.parse().unwrap_err();
    assert_eq!(
        errors,
        vec!["[Line 1, Col 1] Expected a primary expression, found EndStmt"]
    );

    // The statement behind the malformed one parses as it does by itself.
    let second = Parser::new(tokens[3..].to_vec()).parse().unwrap();
    assert_eq!(
        second,
        Program {
            statements: vec![Binary {
                left: Box::new(literal(3.0)),
                op: make_token(Star),
                right: Box::new(literal(2.0)),
            }],
        }
    );
}

#[test]
fn every_malformed_statement_gives_one_error() {
    let errors = parse_source("5 + ; 3 * 2; (1 ; x := ) ; 7 8\n* 2").unwrap_err();
    assert_eq!(
        errors,
        vec![
            "[Line 1, Col 5] Expected a primary expression, found EndStmt",
            "[Line 1, Col 17] Expected ) after parenthesised expression, found EndStmt",
            "[Line 1, Col 24] Expected a primary expression, found RightParen",
            "[Line 1, Col 30] Expected ; or newline after expression, found Number(8)",
            "[Line 2, Col 1] Expected a primary expression, found Star",
        ]
    );
}

#[test]
fn subtraction_and_division_group_to_the_left() {
    let a = || Box::new(Variable("a".to_string()));
    let b = || Box::new(Variable("b".to_string()));
    let c = || Box::new(Variable("c".to_string()));
    let tokens = |op: TokenType| {
        vec![
            make_token(Identifier("a".to_string())),
            make_token(op.clone()),
            make_token(Identifier("b".to_string())),
            make_token(op),
            make_token(Identifier("c".to_string())),
            make_token(Eof),
        ]
    };
    for op in [Minus, Slash, Plus, Star] {
        assert_parse(
            tokens(op.clone()),
            Program {
                statements: vec![Binary {
                    left: Box::new(Binary {
                        left: a(),
                        op: make_token(op.clone()),
                        right: b(),
                    }),
                    op: make_token(op),
                    right: c(),
                }],
            },
        );
    }
}

#[test]
fn a_binding_binds_a_name_to_an_expression() {
    let statements = statements_of(parse_source("x := 2 * 5 / 1; y := 7").unwrap());
    assert_eq!(statements.len(), 2);
    match &statements[0] {
        Expr::Binding { name, expr } => {
            assert_eq!(name, "x");
            match &**expr {
                Binary { left, op, right } => {
                    assert_eq!(op.kind, Slash);
                    assert_eq!(op.lexeme, "/");
                    assert_eq!((op.line, op.column), (1, 12));
                    assert!(matches!(&**left, Binary { .. }));
                    assert!(matches!(&**right, Literal(LiteralValue::Number(_))));
                }
                other => panic!("not a binary expression: {:?}", other),
            }
        }
        other => panic!("not a binding: {:?}", other),
    }
    match &statements[1] {
        Expr::Binding { name, expr } => {
            assert_eq!(name, "y");
            match &**expr {
                Literal(LiteralValue::Number(numeral)) => assert_eq!(numeral.text(), "7"),
                other => panic!("not a number: {:?}", other),
            }
        }
        other => panic!("not a binding: {:?}", other),
    }
}

#[test]
fn a_binding_may_hold_a_binding_or_a_string() {
    let statements = statements_of(parse_source("a := b := \"hello\"").unwrap());
    assert_eq!(
        statements,
        vec![Expr::Binding {
            name: "a".to_string(),
            expr: Box::new(Expr::Binding {
                name: "b".to_string(),
                expr: Box::new(Literal(LiteralValue::String("hello".to_string()))),
            }),
        }]
    );
}

#[test]
fn only_a_bare_identifier_can_be_bound() {
    assert_eq!(
        parse_source("5 := 1").unwrap_err(),
        vec!["[Line 1, Col 3] Expected an identifier to bind a value"]
    );
    assert_eq!(
        parse_source("+ := 1").unwrap_err(),
        vec!["[Line 1, Col 1] Expected a primary expression, found Plus"]
    );
    let tokens = vec![
        make_token(LeftParen),
        make_token(Binding),
        make_token(Eof),
    ];
    assert_eq!(
        Parser::new(tokens).parse().unwrap_err(),
        vec!["[Line 1, Col 1] Expected a primary expression, found Binding"]
    );
}

#[test]
fn a_binding_without_a_value_is_an_error() {
    assert_eq!(
        parse_source("x :=").unwrap_err(),
        vec!["[Line 1, Col 5] Expected a primary expression, found Eof"]
    );
    assert_eq!(
        parse_source("(").unwrap_err(),
        vec!["[Line 1, Col 2] Expected a primary expression, found Eof"]
    );
}

#[test]
fn a_terminator_is_an_empty_expression_inside_a_statement() {
    assert_eq!(
        parse_source("x := ;").unwrap(),
        Program {
            statements: vec![Expr::Binding {
                name: "x".to_string(),
                expr: Box::new(Expr::Empty),
            }],
        }
    );
}

#[test]
fn messages_name_the_token_that_was_found() {
    assert_eq!(
        parse_source("1 abc").unwrap_err(),
        vec!["[Line 1, Col 3] Expected ; or newline after expression, found Identifier(\"abc\")"]
    );
    assert_eq!(
        parse_source("1 \"a b\"").unwrap_err(),
        vec!["[Line 1, Col 3] Expected ; or newline after expression, found String(\"a b\")"]
    );
    assert_eq!(
        parse_source("(1 if").unwrap_err(),
        vec!["[Line 1, Col 4] Expected ) after parenthesised expression, found If"]
    );
    assert_eq!(
        Parser::new(vec![make_token(If), make_token(Eof)])
            .parse()
            .unwrap_err(),
        vec!["[Line 1, Col 1] Expected a primary expression, found If"]
    );
}

#[test]
fn parsing_stops_at_the_first_end_of_input() {
    let tokens = vec![
        make_token(Number(1.0)),
        make_token(Eof),
        make_token(Number(2.0)),
        make_token(Eof),
    ];
    assert_eq!(
        Parser::new(tokens).parse().unwrap(),
        Program {
            statements: vec![literal(1.0)]
        }
    );
}

#[test]
fn program_is_what_parse_does() {
    let tokens = Scanner::new("1 + 2; x").scan().unwrap();
    let by_parse = Parser::new(tokens.clone()).parse();
    let by_program = Parser::new(tokens).program();
    assert_eq!(by_parse, by_program);
    assert_eq!(statements_of(by_parse.unwrap()).len(), 2);
}

#[test]
fn parser_report_joins_the_errors() {
    let errors = vec!["first".to_string(), "second".to_string()];
    assert_eq!(Parser::report(&errors), "Parser errors:\nfirst\nsecond");
}
