use mathfp::token::TokenType::{
    Binding, Else, EndStmt, Eof, GreaterThan, Identifier, If, LeftParen, LessThan, MapsTo, Minus,
    Number, Plus, RightParen, Slash, Star, Then,
};
use mathfp::token::{Numeral, Scanner, Token, TokenType};

fn number(value: f64) -> TokenType {
    TokenType::Number(Numeral::parse(&format!("{}", value)).unwrap())
}

fn same_kind(actual: &TokenType, expected: &TokenType) -> bool {
    match (actual, expected) {
        (Number(a), Number(b)) => {
            a.text().parse::<f64>().unwrap() == b.text().parse::<f64>().unwrap()
        }
        _ => actual == expected,
    }
}

fn assert_scan(input: &str, expected: Vec<Token>) {
    let actual = Scanner::new(input).scan().unwrap();

    assert_eq!(
        actual.len(),
        expected.len(),
        "Token count mismatch for input: {input}"
    );

    for (i, (act, exp)) in actual.iter().zip(expected.iter()).enumerate() {
        assert!(
            same_kind(&act.kind, &exp.kind),
            "Token mismatch at index {i} for input: {input}: {:?} is not {:?}",
            act.kind,
            exp.kind
        );
    }
}

fn make_token(kind: TokenType) -> Token {
    Token {
        kind,
        lexeme: std::string::String::new(),
        line: 1,
        column: 1,
    }
}

#[test]
fn test_single_stmt() {
    assert_scan(
        "f := x |-> 2 * x;",
        vec![
            make_token(Identifier("f".to_string())),
            make_token(Binding),
            make_token(Identifier("x".to_string())),
            make_token(MapsTo),
            make_token(number(2.0)),
            make_token(Star),
            make_token(Identifier("x".to_string())),
            make_token(EndStmt),
            make_token(Eof),
        ],
    );
}

#[test]
fn test_multiple_stmt() {
    assert_scan(
        "x := 5.0; y \n",
        vec![
            make_token(Identifier("x".to_string())),
            make_token(Binding),
            make_token(number(5.0)),
            make_token(EndStmt),
            make_token(Identifier("y".to_string())),
            make_token(EndStmt),
            make_token(Eof),
        ],
    );
}

#[test]
fn test_single_symbols() {
    assert_scan(
        "+ - * / < > ( ) ;",
        vec![
            make_token(Plus),
            make_token(Minus),
            make_token(Star),
            make_token(Slash),
            make_token(LessThan),
            make_token(GreaterThan),
            make_token(LeftParen),
            make_token(RightParen),
            make_token(EndStmt),
            make_token(Eof),
        ],
    );
}

#[test]
fn test_multi_char_symbols() {
    assert_scan(
        ":= |->",
        vec![make_token(Binding), make_token(MapsTo), make_token(Eof)],
    );
}

#[test]
fn test_numbers() {
    assert_scan(
        "123 45.67 .5 -0.5",
        vec![
            make_token(number(123.0)),
            make_token(number(45.67)),
            make_token(number(0.5)),
            make_token(Minus),
            make_token(number(0.5)),
            make_token(Eof),
        ],
    );
}

#[test]
fn test_keywords_and_identifiers() {
    assert_scan(
        "if then else iffy then_else",
        vec![
            make_token(If),
            make_token(Then),
            make_token(Else),
            make_token(Identifier("iffy".to_string())),
            make_token(Identifier("then_else".to_string())),
            make_token(Eof),
        ],
    );
}

#[test]
fn test_complex_expression_no_whitespace() {
    assert_scan(
        "a:=b|->if(n>0)then x else y;",
        vec![
            make_token(Identifier("a".to_string())),
            make_token(Binding),
            make_token(Identifier("b".to_string())),
            make_token(MapsTo),
            make_token(If),
            make_token(LeftParen),
            make_token(Identifier("n".to_string())),
            make_token(GreaterThan),
            make_token(number(0.0)),
            make_token(RightParen),
            make_token(Then),
            make_token(Identifier("x".to_string())),
            make_token(Else),
            make_token(Identifier("y".to_string())),
            make_token(EndStmt),
            make_token(Eof),
        ],
    );
}

#[test]
fn test_string() {
    assert_scan(
        "msg := \"hello\"",
        vec![
            make_token(Identifier("msg".to_string())),
            make_token(Binding),
            make_token(TokenType::String("hello".to_string())),
            make_token(Eof),
        ],
    );
}

#[test]
fn test_whitespace_and_newlines() {
    assert_scan(
        "   x     :=   \t   10  \n",
        vec![
            make_token(Identifier("x".to_string())),
            make_token(Binding),
            make_token(number(10.0)),
            make_token(EndStmt),
            make_token(Eof),
        ],
    );
}

#[test]
fn token_test_empty() {
    assert_scan("", vec![make_token(Eof)]);
}

#[test]
fn blank_sources_yield_one_eof() {
    for source in ["", " ", "\t", "\r", "  \t \r  ", "\t\t\t"] {
        let tokens = Scanner::new(source).scan().unwrap();
        assert_eq!(tokens.len(), 1, "source {source:?}");
        assert_eq!(tokens[0].kind, Eof);
        assert_eq!(tokens[0].lexeme, "");
        assert_eq!(tokens[0].line, 1);
        assert_eq!(tokens[0].column, source.chars().count() + 1);
    }
}

#[test]
fn numerals_keep_their_text() {
    let tokens = Scanner::new("123 45.67 .5 -0.5 7.").scan().unwrap();
    let texts: Vec<String> = tokens
        .iter()
        .filter_map(|token| match &token.kind {
            Number(numeral) => Some(numeral.text().to_string()),
            _ => None,
        })
        .collect();
    assert_eq!(texts, vec!["123", "45.67", ".5", "0.5", "7."]);
    assert_eq!(tokens[3].kind, Minus);
    assert_eq!(tokens.last().unwrap().kind, Eof);
}

#[test]
fn numeral_parse_accepts_exactly_the_numerals() {
    for text in ["0", "5", "5.", ".5", "45.67", "007", "1234567890.0987654321"] {
        let numeral = Numeral::parse(text);
        assert_eq!(numeral.map(|n| n.text().to_string()), Some(text.to_string()));
    }
    for text in ["", ".", "..", "1.2.3", "1..2", "-1", "+1", "1e5", "1 ", "x", "٣", "inf", "nan"] {
        assert!(Numeral::parse(text).is_none(), "text {text:?}");
    }
}

#[test]
fn tokens_carry_lexeme_line_and_column() {
    let tokens = Scanner::new("ab := 12;\n  \"hi\" |-> c\n").scan().unwrap();
    let seen: Vec<(String, usize, usize)> = tokens
        .iter()
        .map(|token| (token.lexeme.clone(), token.line, token.column))
        .collect();
    let expected = vec![
        ("ab".to_string(), 1, 1),
        (":=".to_string(), 1, 4),
        ("12".to_string(), 1, 7),
        (";".to_string(), 1, 9),
        ("\n".to_string(), 1, 10),
        ("\"hi\"".to_string(), 2, 3),
        ("|->".to_string(), 2, 8),
        ("c".to_string(), 2, 12),
        ("\n".to_string(), 2, 13),
        ("".to_string(), 3, 1),
    ];
    assert_eq!(seen, expected);
    assert_eq!(tokens[5].kind, TokenType::String("hi".to_string()));
}

#[test]
fn a_line_feed_inside_a_string_starts_a_new_line() {
    let tokens = Scanner::new("\"a\nb\" x").scan().unwrap();
    assert_eq!(tokens[0].kind, TokenType::String("a\nb".to_string()));
    assert_eq!((tokens[0].line, tokens[0].column), (1, 1));
    assert_eq!(tokens[1].kind, Identifier("x".to_string()));
    assert_eq!((tokens[1].line, tokens[1].column), (2, 4));
}

#[test]
fn strings_are_taken_verbatim() {
    let tokens = Scanner::new("\"a\\n b\" \"\"").scan().unwrap();
    assert_eq!(tokens[0].kind, TokenType::String("a\\n b".to_string()));
    assert_eq!(tokens[1].kind, TokenType::String(String::new()));
    assert_eq!(tokens[2].kind, Eof);
}

#[test]
fn words_may_hold_letters_of_any_script() {
    let tokens = Scanner::new("été_2 := π").scan().unwrap();
    assert_eq!(tokens[0].kind, Identifier("été_2".to_string()));
    assert_eq!(tokens[0].lexeme, "été_2");
    assert_eq!(tokens[1].kind, Binding);
    assert_eq!((tokens[1].line, tokens[1].column), (1, 7));
    assert_eq!(tokens[2].kind, Identifier("π".to_string()));
    assert_eq!(tokens.len(), 4);
}

#[test]
fn keywords_are_case_sensitive() {
    let tokens = Scanner::new("If THEN else_ else").scan().unwrap();
    assert_eq!(tokens[0].kind, Identifier("If".to_string()));
    assert_eq!(tokens[1].kind, Identifier("THEN".to_string()));
    assert_eq!(tokens[2].kind, Identifier("else_".to_string()));
    assert_eq!(tokens[3].kind, Else);
}

#[test]
fn an_underscore_cannot_begin_a_word() {
    let errors = Scanner::new("_x").scan().unwrap_err();
    assert_eq!(errors, vec!["[Line 1, Col 1] Unexpected character: _"]);
}

#[test]
fn every_lexical_error_is_collected() {
    let errors = Scanner::new("x := 1.2.3 # |> : \n \"open").scan().unwrap_err();
    assert_eq!(
        errors,
        vec![
            "[Line 1, Col 6] Failed to parse '1.2.3' as a number: invalid float literal",
            "[Line 1, Col 12] Unexpected character: #",
            "[Line 1, Col 14] Expected a |-> (MapsTo) symbol",
            "[Line 1, Col 17] Expected a := (Binding) symbol",
            "[Line 2, Col 2] Unterminated string literal",
        ]
    );
}

#[test]
fn a_symbol_cut_short_by_the_end_is_an_error() {
    assert_eq!(
        Scanner::new("|").scan().unwrap_err(),
        vec!["[Line 1, Col 1] Expected a |-> (MapsTo) symbol"]
    );
    assert_eq!(
        Scanner::new("|-").scan().unwrap_err(),
        vec!["[Line 1, Col 1] Expected a |-> (MapsTo) symbol"]
    );
    assert_eq!(
        Scanner::new(":").scan().unwrap_err(),
        vec!["[Line 1, Col 1] Expected a := (Binding) symbol"]
    );
    assert_eq!(
        Scanner::new("\"").scan().unwrap_err(),
        vec!["[Line 1, Col 1] Unterminated string literal"]
    );
}

#[test]
fn a_lone_dot_is_no_number() {
    assert_eq!(
        Scanner::new(".").scan().unwrap_err(),
        vec!["[Line 1, Col 1] Failed to parse '.' as a number: invalid float literal"]
    );
}

#[test]
fn a_numeral_runs_over_every_numeric_character() {
    assert_eq!(
        Scanner::new("1٣").scan().unwrap_err(),
        vec!["[Line 1, Col 1] Failed to parse '1٣' as a number: invalid float literal"]
    );
}

#[test]
fn a_number_ends_where_a_word_begins() {
    let tokens = Scanner::new("12ab").scan().unwrap();
    assert!(same_kind(&tokens[0].kind, &number(12.0)));
    assert_eq!(tokens[1].kind, Identifier("ab".to_string()));
    assert_eq!(tokens[1].column, 3);
}

#[test]
fn scanning_again_yields_the_end_of_input() {
    let mut scanner = Scanner::new("x + 1");
    assert_eq!(scanner.scan().unwrap().len(), 4);
    let again = scanner.scan().unwrap();
    assert_eq!(again.len(), 1);
    assert_eq!(again[0].kind, Eof);
    assert_eq!((again[0].line, again[0].column), (1, 6));
}

#[test]
fn scanner_report_joins_the_errors() {
    let errors = vec!["first".to_string(), "second".to_string(), "third".to_string()];
    assert_eq!(Scanner::report(&errors), "Scanner errors:\nfirst\nsecond\nthird");
    assert_eq!(Scanner::report(&errors[..1]), "Scanner errors:\nfirst");
    assert_eq!(Scanner::report(&[]), "Scanner errors:\n");
}

#[test]
fn kinds_are_named_in_messages() {
    assert_eq!(Plus.name(), "Plus");
    assert_eq!(If.name(), "If");
    assert_eq!(Then.name(), "Then");
    assert_eq!(Eof.name(), "Eof");
    assert_eq!(Identifier("x".to_string()).name(), "Identifier(\"x\")");
    assert_eq!(
        TokenType::String("a\"b\n".to_string()).name(),
        "String(\"a\\\"b\\n\")"
    );
    assert_eq!(number(45.67).name(), "Number(45.67)");
}

#[test]
fn the_numerals_are_the_digit_and_dot_texts_that_are_floats() {
    let alphabet = ['0', '7', '9', '.'];
    let mut texts: Vec<String> = vec![String::new()];
    let mut from = 0;
    for _ in 0..5 {
        let until = texts.len();
        for i in from..until {
            for c in alphabet {
                let mut longer = texts[i].clone();
                longer.push(c);
                texts.push(longer);
            }
        }
        from = until;
    }
    assert_eq!(texts.len(), 1 + 4 + 16 + 64 + 256 + 1024);
    for text in texts {
        assert_eq!(
            Numeral::parse(&text).is_some(),
            text.parse::<f64>().is_ok(),
            "text {text:?}"
        );
    }
}
