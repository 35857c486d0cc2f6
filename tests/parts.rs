use timepass::environment::Environment;
use timepass::errors::Error;
use timepass::expressions::{repeat_text, text_less};
use timepass::float::{FloatAnswer, FloatQuery};
use timepass::interpreter::run;
use timepass::scanner::{is_alpha, is_digit, is_valid_literal, keyword_of};
use timepass::bigint::BigInt;
use timepass::token::{LiteralValue, Token, TokenType};

fn unit(q: FloatQuery) -> FloatAnswer {
    match q {
        FloatQuery::Render(b) => FloatAnswer::Text(f64::from_bits(b).to_string()),
        FloatQuery::Parse(t) => FloatAnswer::Bits(t.parse::<f64>().unwrap().to_bits()),
        _ => FloatAnswer::Text(String::new()),
    }
}

#[test]
fn character_classes() {
    assert!(is_digit('0') && is_digit('9') && !is_digit('a') && !is_digit('/'));
    assert!(is_alpha('a') && is_alpha('Z') && !is_alpha('_') && !is_alpha('1'));
    assert!(is_valid_literal('_') && is_valid_literal('x') && is_valid_literal('7'));
    assert!(!is_valid_literal('-') && !is_valid_literal(' '));
}

#[test]
fn reserved_words() {
    assert_eq!(keyword_of(&"print".to_string()), Some(TokenType::PRINT));
    assert_eq!(keyword_of(&"while".to_string()), Some(TokenType::WHILE));
    assert_eq!(keyword_of(&"nil".to_string()), Some(TokenType::NIL));
    assert_eq!(keyword_of(&"printer".to_string()), None);
}

#[test]
fn environment_last_definition_wins() {
    let mut env = Environment::new();
    assert_eq!(env.get("a".to_string()).err(), Some("Variable declaration not found ".to_string()));
    env.define("a".to_string(), LiteralValue::IntValue(BigInt::from_i64(1)));
    env.define("b".to_string(), LiteralValue::True);
    env.define("a".to_string(), LiteralValue::IntValue(BigInt::from_i64(2)));
    assert!(matches!(env.get("a".to_string()), Ok(LiteralValue::IntValue(x)) if x.to_text() == "2"));
    assert!(matches!(env.get("b".to_string()), Ok(LiteralValue::True)));
}

#[test]
fn texts() {
    assert_eq!(BigInt::from_i64(0).to_text(), "0");
    assert_eq!(BigInt::from_i64(-120).to_text(), "-120");
    assert_eq!(repeat_text(&"xy".to_string(), &BigInt::from_i64(2)), "xyxy");
    assert_eq!(repeat_text(&"xy".to_string(), &BigInt::from_i64(-1)), "");
    assert_eq!(BigInt::from_i64(i64::MIN).to_text(), i64::MIN.to_string());
    assert_eq!(BigInt::from_i64(-40).add(&BigInt::from_i64(2)).to_text(), "-38");
    assert_eq!(BigInt::from_u64(u64::MAX).mul(&BigInt::from_u64(u64::MAX)).to_text(), "340282366920938463426481119284349108225");
    assert!(text_less(&"abc".to_string(), &"abd".to_string()));
    assert!(text_less(&"ab".to_string(), &"abc".to_string()));
    assert!(!text_less(&"abc".to_string(), &"abc".to_string()));
}

#[test]
fn token_and_value_texts() {
    let t = Token::new(TokenType::NUMBER, "12".to_string(), Some(LiteralValue::IntValue(BigInt::from_i64(12))), 3);
    assert_eq!(t.to_string(&unit), "NUMBER, 12, IntValue(12), 3");
    let t = Token::new(TokenType::PLUS, "+".to_string(), None, 1);
    assert_eq!(t.to_string(&unit), "PLUS, +, NO LITERAL !, 1");
    let t = Token::new(TokenType::STRING, "\"ab\"".to_string(), Some(LiteralValue::StringValue("ab".to_string())), 2);
    assert_eq!(t.to_string(&unit), "STRING, \"ab\", StringValue(\"ab\"), 2");
    assert_eq!(LiteralValue::FValue(2.5f64.to_bits()).to_string(&unit), "2.5");
    assert_eq!(LiteralValue::Nil.to_string(&unit), "nil");
    assert_eq!(TokenType::BANG_EQUAL.to_string(), "BANG_EQUAL");
}

#[test]
fn error_messages() {
    assert_eq!(Error::UnknownToken('#', 4).to_string(&unit), "UNKNOWN TOKEN : #, at line 4");
    assert_eq!(Error::UnterminatedStringError(2).to_string(&unit), "UNTERMINATED STRING at line 2");
    let t = Token::new(TokenType::RIGHT_PAREN, ")".to_string(), None, 5);
    assert_eq!(Error::UnterminatedParenthesis(t.duplicate()).to_string(&unit), "UNTERMINATED PARENTHESIS : ), at line 5");
    assert_eq!(Error::NoFloatResult(t).to_string(&unit), "NO FLOATING-POINT RESULT at line 5");
}

fn absent_unit(_q: FloatQuery) -> FloatAnswer {
    FloatAnswer::Text(String::new())
}

#[test]
fn programs_without_floats_need_no_unit() {
    assert_eq!(run("print 1 + 2 * 3;".to_string(), &absent_unit), ("7".to_string(), Ok(())));
    assert_eq!(run("print \"ab\" * 2;".to_string(), &absent_unit), ("abab".to_string(), Ok(())));
    assert_eq!(
        run("1 / 0;".to_string(), &absent_unit),
        (String::new(), Err("ZERO DIVISION ERROR at line 1".to_string()))
    );
    assert_eq!(
        run("print 1 / 2;".to_string(), &absent_unit),
        (String::new(), Err("NO FLOATING-POINT RESULT at line 1\n".to_string()))
    );
}
