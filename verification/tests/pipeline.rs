use jlox::ast::{AstPrinter, Expression, Visitor};
use jlox::interpreter::{Interpreter, RuntimeError, Types};
use jlox::parser::{Parser, ParserError};
use jlox::rational::Rational;
use jlox::scanner::{ScanError, ScanErrorKind, Scanner, Token, TokenType};

fn scan(source: &str) -> Result<Vec<Token>, ScanError> {
    Scanner::new(source).scan_tokens()
}

fn eval(source: &str) -> Result<Types, RuntimeError> {
    let tokens = scan(source).expect("scan failed");
    let mut parser = Parser::new(&tokens);
    let expr = parser.parse().expect("parse failed");
    Interpreter.visit_expresssion(&expr)
}

fn parse_err(source: &str) -> ParserError {
    let tokens = scan(source).expect("scan failed");
    let mut parser = Parser::new(&tokens);
    parser.parse().expect_err("parse unexpectedly succeeded")
}

fn number(source: &str) -> Rational {
    match eval(source) {
        Ok(Types::Number(q)) => q,
        other => panic!("expected a number, got {:?}", other),
    }
}

fn boolean(source: &str) -> bool {
    match eval(source) {
        Ok(Types::Boolean(b)) => b,
        other => panic!("expected a boolean, got {:?}", other),
    }
}

#[test]
fn test_ast() {
    let expr = Expression::Binary {
        l_expr: Box::new(Expression::Unary {
            operator: Token::new(TokenType::Minus, "-", 1),
            r_expr: Box::new(Expression::Literal {
                token: Token::new(TokenType::Number { value: Rational::new(123, 1) }, "123", 1),
            }),
        }),
        operator: Token::new(TokenType::Star, "*", 1),
        r_expr: Box::new(Expression::Grouping {
            expr: Box::new(Expression::Literal {
                token: Token::new(
                    TokenType::Number { value: Rational::new(4567, 100) },
                    "45.67",
                    1,
                ),
            }),
        }),
    };
    println!("{}", AstPrinter {}.print(&expr));
    assert_eq!(
        AstPrinter {}.print(&expr),
        "(Binary * (Unary - (Literal 123)) (Grouping (Literal 45.67)))"
    );
}

#[test]
fn arithmetic_on_literals() {
    assert!(number("1 + 2").eq_value(&Rational::new(3, 1)));
    assert!(number("6 / 2").eq_value(&Rational::new(3, 1)));
    assert!(number("10 - 4").eq_value(&Rational::new(6, 1)));
    assert!(number("7 * 8").eq_value(&Rational::new(56, 1)));
    assert!(number("1.5 + 1.25").eq_value(&Rational::new(11, 4)));
}

#[test]
fn division_by_zero_is_an_error() {
    // The numeric model is exact: no quiet infinity comes out of `1 / 0`.
    assert_eq!(eval("1 / 0"), Err(RuntimeError::DivisionByZero));
}

#[test]
fn operator_precedence() {
    assert!(number("2 + 3 * 4").eq_value(&Rational::new(14, 1)));
    assert!(number("(2 + 3) * 4").eq_value(&Rational::new(20, 1)));
}

#[test]
fn left_associativity() {
    assert!(number("10 - 3 - 2").eq_value(&Rational::new(5, 1)));
}

#[test]
fn unary_chaining() {
    assert!(number("--5").eq_value(&Rational::new(5, 1)));
    assert_eq!(eval("!!true"), Ok(Types::Boolean(true)));
}

#[test]
fn truthiness() {
    assert!(boolean("!nil"));
    assert!(boolean("!false"));
    assert!(!boolean("!0"));
    assert!(!boolean("!\"\""));
}

#[test]
fn string_concatenation() {
    assert_eq!(
        eval("\"foo\" + \"bar\""),
        Ok(Types::ReturnString(String::from("foobar")))
    );
    assert_eq!(eval("\"foo\" + 1"), Err(RuntimeError::UnrecognizedBinary));
    assert_eq!(eval("1 + \"foo\""), Err(RuntimeError::UnrecognizedBinary));
}

#[test]
fn equality_across_types() {
    assert_eq!(eval("nil == nil"), Ok(Types::Boolean(true)));
    assert_eq!(eval("true == true"), Ok(Types::Boolean(true)));
    assert_eq!(eval("nil != nil"), Ok(Types::Boolean(false)));
    assert_eq!(eval("1 == \"1\""), Err(RuntimeError::UnrecognizedBinary));
    assert_eq!(eval("1 == 1.0"), Ok(Types::Boolean(true)));
    assert_eq!(eval("1 < 2"), Ok(Types::Boolean(true)));
    assert_eq!(eval("1 >= 2"), Ok(Types::Boolean(false)));
    assert_eq!(eval("3 != 4"), Ok(Types::Boolean(true)));
}

#[test]
fn unterminated_string_fails_the_scan() {
    assert_eq!(
        scan("\"abc").unwrap_err(),
        ScanError { kind: ScanErrorKind::UnterminatedString, line: 1 }
    );
    // An embedded newline advances the reported line.
    assert_eq!(
        scan("\"a\nb").unwrap_err(),
        ScanError { kind: ScanErrorKind::UnterminatedString, line: 2 }
    );
}

#[test]
fn unexpected_character_fails_the_scan() {
    assert_eq!(
        scan("1 + @").unwrap_err(),
        ScanError { kind: ScanErrorKind::UnexpectedCharacter, line: 1 }
    );
}

#[test]
fn number_literal_out_of_range_fails_the_scan() {
    assert_eq!(
        scan("99999999999999999999").unwrap_err(),
        ScanError { kind: ScanErrorKind::NumberOutOfRange, line: 1 }
    );
}

#[test]
fn missing_close_paren_is_a_parse_error() {
    let e = parse_err("(1 + 2");
    assert_eq!(e.message, "expect ')' after expression");
    assert_eq!(e.line, 1);
    assert_eq!(e.lexeme, "");
}

#[test]
fn unrecognized_primary_is_a_parse_error() {
    let e = parse_err("foo");
    assert_eq!(e.message, "unrecognized primary");
    assert_eq!(e.line, 1);
    assert_eq!(e.lexeme, "foo");
}

#[test]
fn empty_input_is_a_parse_error() {
    let e = parse_err("");
    assert_eq!(e.message, "unrecognized primary");
    assert_eq!(e.lexeme, "");
}

#[test]
fn single_char_punctuation_round_trip() {
    let source = "+ - ( ) { } , . ; *";
    let tokens = scan(source).unwrap();
    let lexemes: Vec<&str> = tokens[..tokens.len() - 1]
        .iter()
        .map(|t| t.lexeme.as_str())
        .collect();
    assert_eq!(lexemes, vec!["+", "-", "(", ")", "{", "}", ",", ".", ";", "*"]);
    assert_eq!(tokens.last().unwrap().token_type, TokenType::Eof);
    for (t, c) in tokens[..tokens.len() - 1].iter().zip("+-(){},.;*".chars()) {
        assert_eq!(t.lexeme, c.to_string());
    }
}

#[test]
fn comments_and_lines() {
    assert!(number("1 + 2 // the rest is ignored").eq_value(&Rational::new(3, 1)));
    assert!(number("1 +\n2").eq_value(&Rational::new(3, 1)));
    let tokens = scan("1\n2").unwrap();
    assert_eq!(tokens[0].line, 1);
    assert_eq!(tokens[1].line, 2);
}

#[test]
fn keywords_and_identifiers() {
    let tokens = scan("var x while").unwrap();
    assert_eq!(tokens[0].token_type, TokenType::Var);
    assert_eq!(tokens[1].token_type, TokenType::Identifier);
    assert_eq!(tokens[1].lexeme, "x");
    assert_eq!(tokens[2].token_type, TokenType::While);
}

#[test]
fn two_char_operators() {
    let tokens = scan("!= == <= >= < > ! =").unwrap();
    let kinds: Vec<&TokenType> = tokens.iter().map(|t| &t.token_type).collect();
    assert_eq!(kinds[0], &TokenType::BangEqual);
    assert_eq!(kinds[1], &TokenType::EqualEqual);
    assert_eq!(kinds[2], &TokenType::LessEqual);
    assert_eq!(kinds[3], &TokenType::GreaterEqual);
    assert_eq!(kinds[4], &TokenType::Less);
    assert_eq!(kinds[5], &TokenType::Greater);
    assert_eq!(kinds[6], &TokenType::Bang);
    assert_eq!(kinds[7], &TokenType::Equal);
}

#[test]
fn string_literal_value_drops_quotes() {
    let tokens = scan("\"hi there\"").unwrap();
    assert_eq!(
        tokens[0].token_type,
        TokenType::StringLiteral { literal: String::from("hi there") }
    );
    assert_eq!(tokens[0].lexeme, "\"hi there\"");
}

#[test]
fn number_literal_values() {
    let tokens = scan("45.67 12 7.0").unwrap();
    assert_eq!(tokens[0].token_type, TokenType::Number { value: Rational::new(4567, 100) });
    assert_eq!(tokens[1].token_type, TokenType::Number { value: Rational::new(12, 1) });
    assert_eq!(tokens[2].token_type, TokenType::Number { value: Rational::new(70, 10) });
    // A dot with no digit behind it is not part of the number.
    let tokens = scan("12.").unwrap();
    assert_eq!(tokens[0].token_type, TokenType::Number { value: Rational::new(12, 1) });
    assert_eq!(tokens[1].token_type, TokenType::Dot);
}

#[test]
fn interpret_renders_values() {
    let display = |src: &str| -> String {
        let tokens = scan(src).unwrap();
        let mut parser = Parser::new(&tokens);
        let expr = parser.parse().unwrap();
        Interpreter.interpret(&expr).unwrap()
    };
    assert_eq!(display("2 + 3"), "5");
    assert_eq!(display("-5"), "-5");
    assert_eq!(display("true"), "true");
    assert_eq!(display("!1"), "false");
    assert_eq!(display("nil"), "nil");
    assert_eq!(display("\"foo\" + \"bar\""), "foobar");
    // The fraction is reduced for display: 15/10 + 125/100 = 2750/1000 = 11/4.
    assert_eq!(display("1.5 + 1.25"), "11/4");
    assert_eq!(display("6 / 2"), "3");
    assert_eq!(display("0.5 + 0.5"), "1");
}

#[test]
fn numeric_overflow_is_reported() {
    assert_eq!(
        eval("9223372036854775807 + 1"),
        Err(RuntimeError::NumericOverflow)
    );
    assert_eq!(eval("--9223372036854775807"), Ok(Types::Number(Rational::new(9223372036854775807, 1))));
}

#[test]
fn runtime_error_messages() {
    assert_eq!(RuntimeError::UnrecognizedBinary.message(), "Unrecognized binary");
    assert_eq!(
        RuntimeError::UnrecognizedBinaryNumbers.message(),
        "Unrecognized binary operation to two numbers"
    );
    assert_eq!(eval("-true"), Err(RuntimeError::UnrecognizedUnary));
    assert_eq!(eval("true < false"), Err(RuntimeError::UnrecognizedBinary));
}

#[test]
fn run_evaluates_the_expression() {
    assert_eq!(jlox::run("1 + 2").unwrap(), "3");
    assert_eq!(jlox::run("2 + 3 * 4").unwrap(), "14");
    assert_eq!(jlox::run("!nil").unwrap(), "true");
    assert_eq!(jlox::run("\"foo\" + \"bar\"").unwrap(), "foobar");
    let err = jlox::run("\"abc").unwrap_err();
    assert_eq!(err.display_string(), "[line 1] Error : Unterminated string.\n");
    let err = jlox::run("(1").unwrap_err();
    assert_eq!(
        err.display_string(),
        "[line 1] Error : expect ')' after expression\n"
    );
    let err = jlox::run("1 / 0").unwrap_err();
    assert_eq!(err, jlox::LoxError::Runtime(RuntimeError::DivisionByZero));
    assert_eq!(err.display_string(), "division by zero\n");
}

#[test]
fn cursor_helpers_and_synchronize() {
    let tokens = scan("1 + 2; var x").unwrap();
    let mut p = Parser::new(&tokens);
    assert!(p.check(&TokenType::Number { value: Rational::new(1, 1) }));
    assert!(!p.check(&TokenType::Plus));
    assert!(!p.is_at_end());
    assert_eq!(p.peek().unwrap().lexeme, "1");
    let first = p.advance().unwrap();
    assert_eq!(first.lexeme, "1");
    assert_eq!(p.previous().unwrap().lexeme, "1");
    // Synchronization from the start stops just past the semicolon.
    let mut p = Parser::new(&tokens);
    p.synchronize();
    assert_eq!(p.current, 4);
    assert_eq!(tokens[p.current].token_type, TokenType::Var);
}

#[test]
fn decimal_rendering() {
    assert_eq!(jlox::messages::decimal_string(0), "0");
    assert_eq!(jlox::messages::decimal_string(1234567890), "1234567890");
    assert_eq!(jlox::messages::i64_decimal_string(-42), "-42");
    assert_eq!(
        jlox::messages::i64_decimal_string(i64::MIN),
        "-9223372036854775808"
    );
}

#[test]
fn diagnostic_format() {
    assert_eq!(jlox::messages::error(3, "boom"), "[line 3] Error : boom");
    assert_eq!(jlox::messages::report(12, "x", "bad"), "[line 12] Error x: bad");
}
