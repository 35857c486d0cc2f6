use timepass::errors::Error;
use timepass::expressions::Expression;
use timepass::float::{ArithOp, FloatAnswer, FloatQuery, Number, Order};
use timepass::interpreter::{run, Interpreter};
use timepass::parser::Parser;
use timepass::scanner::Scanner;
use timepass::statements::Statement;
use timepass::token::{LiteralValue, TokenType};

fn value_of(n: &Number) -> f64 {
    match n {
        Number::Int(x) => x.to_text().parse::<f64>().unwrap(),
        Number::Float(b) => f64::from_bits(*b),
    }
}

fn unit(q: FloatQuery) -> FloatAnswer {
    match q {
        FloatQuery::Parse(t) => match t.parse::<f64>() {
            Ok(v) => FloatAnswer::Bits(v.to_bits()),
            Err(_) => FloatAnswer::Text(t),
        },
        FloatQuery::Arith(op, a, b) => {
            let (x, y) = (value_of(&a), value_of(&b));
            let r = match op {
                ArithOp::Add => x + y,
                ArithOp::Sub => x - y,
                ArithOp::Mul => x * y,
                ArithOp::Div => x / y,
            };
            FloatAnswer::Bits(r.to_bits())
        }
        FloatQuery::Compare(a, b) => FloatAnswer::Order(match value_of(&a).partial_cmp(&value_of(&b)) {
            Some(std::cmp::Ordering::Less) => Order::Less,
            Some(std::cmp::Ordering::Equal) => Order::Equal,
            Some(std::cmp::Ordering::Greater) => Order::Greater,
            None => Order::Unordered,
        }),
        FloatQuery::Render(b) => FloatAnswer::Text(f64::from_bits(b).to_string()),
    }
}

fn exec(src: &str) -> (String, Result<(), String>) {
    run(src.to_string(), &unit)
}

fn parse_one(src: &str) -> Expression {
    let mut scanner = Scanner::new(src.as_bytes());
    let tokens = scanner.scan_tokens(&unit).ok().unwrap();
    let mut parser = Parser::new(tokens);
    let mut statements = parser.parse().ok().unwrap();
    assert_eq!(statements.len(), 1);
    match statements.remove(0) {
        Statement::ExpressionStatement(e) | Statement::PrintStatement(e) => e,
        Statement::Variable(_, e) => e,
    }
}

#[test]
fn integer_division_gives_a_float() {
    assert_eq!(exec("print 7 / 2;"), ("3.5".to_string(), Ok(())));
    assert_eq!(exec("print 7 * 2;"), ("14".to_string(), Ok(())));
    assert_eq!(exec("print 7 + 2;"), ("9".to_string(), Ok(())));
    assert_eq!(exec("print 7 - 9;"), ("-2".to_string(), Ok(())));
    let v = parse_one("6 / 3;").evaluate(&unit).ok().unwrap();
    assert!(matches!(v, LiteralValue::FValue(b) if f64::from_bits(b) == 2.0));
}

#[test]
fn division_by_zero_fails() {
    let err = Err("ZERO DIVISION ERROR at line 1".to_string());
    assert_eq!(exec("1 / 0;"), (String::new(), err.clone()));
    assert_eq!(exec("1.0 / 0;"), (String::new(), err.clone()));
    assert_eq!(exec("1 / 0.0;"), (String::new(), err.clone()));
    assert_eq!(exec("2.5 / 0.0;"), (String::new(), err));
}

#[test]
fn string_repetition() {
    assert_eq!(exec("print \"ab\" * 3;"), ("ababab".to_string(), Ok(())));
    assert_eq!(exec("print 3 * \"ab\";"), ("ababab".to_string(), Ok(())));
    assert_eq!(exec("print \"ab\" * 0;"), (String::new(), Ok(())));
    assert_eq!(exec("print \"ab\" * -2;"), (String::new(), Ok(())));
    assert_eq!(
        exec("\"ab\" * 1.5;"),
        (String::new(), Err("OPERATION STAR is not defined for operands of type ab, 1.5.".to_string()))
    );
}

#[test]
fn falsy_conversion() {
    assert_eq!(exec("print !0;"), ("true".to_string(), Ok(())));
    assert_eq!(exec("print !1;"), ("false".to_string(), Ok(())));
    assert_eq!(exec("print !\"\";"), ("true".to_string(), Ok(())));
    assert_eq!(exec("print !\"x\";"), ("false".to_string(), Ok(())));
    assert_eq!(exec("print !nil;"), ("true".to_string(), Ok(())));
    assert_eq!(exec("print !true;"), ("false".to_string(), Ok(())));
    assert_eq!(exec("print !false;"), ("true".to_string(), Ok(())));
    assert_eq!(exec("print !0.0;"), ("true".to_string(), Ok(())));
    assert_eq!(exec("print !2.5;"), ("false".to_string(), Ok(())));
    assert!(LiteralValue::IdentifierValue("x".to_string()).is_falsy().is_none());
}

#[test]
fn unterminated_string_names_its_first_line() {
    let mut scanner = Scanner::new(b"print 1;\n\"abc\nmore");
    match scanner.scan_tokens(&unit) {
        Err(Error::UnterminatedStringError(line)) => assert_eq!(line, 2),
        _ => panic!("expected an unterminated string"),
    }
    assert_eq!(exec("\"abc"), (String::new(), Err("UNTERMINATED STRING at line 1".to_string())));
}

#[test]
fn comparison_chain_precedence() {
    let e = parse_one("1 + 2 < 4 == true;");
    assert_eq!(e.to_string(&unit), "(== (< (+ 1 2) 4) true)");
    let left = parse_one("1 + 2 < 4;").evaluate(&unit).ok().unwrap();
    assert!(matches!(left, LiteralValue::True));
    assert_eq!(
        exec("1 + 2 < 4 == true;"),
        (String::new(), Err("OPERATION EQUAL_EQUAL is not defined for operands of type true, true.".to_string()))
    );
    assert_eq!(parse_one("1 - 2 - 3;").to_string(&unit), "(- (- 1 2) 3)");
    assert_eq!(parse_one("-(1 + 2) * 3;").to_string(&unit), "(* (- (GROUP : (+ 1 2))) 3)");
}

#[test]
fn decimal_literal_is_one_token() {
    let mut scanner = Scanner::new(b"1.5;");
    let tokens = scanner.scan_tokens(&unit).ok().unwrap();
    assert_eq!(tokens.len(), 3);
    assert_eq!(tokens[0].token_type, TokenType::NUMBER);
    assert_eq!(tokens[0].lexeme, "1.5");
    assert!(matches!(tokens[0].literal, Some(LiteralValue::FValue(b)) if f64::from_bits(b) == 1.5));
    assert_eq!(tokens[1].token_type, TokenType::SEMICOLON);
    assert_eq!(tokens[2].token_type, TokenType::EOF);
    let mut parser = Parser::new(tokens);
    assert_eq!(parser.parse().ok().unwrap().len(), 1);
    assert_eq!(exec("print 1.5;"), ("1.5".to_string(), Ok(())));
    assert_eq!(
        exec("print 1.;"),
        (String::new(), Err("EXPECTED A TOKEN : Expect ';' after value. on line 1".to_string()))
    );
}

#[test]
fn malformed_number_fails_when_scanning() {
    let mut scanner = Scanner::new(b"1a;");
    assert!(matches!(scanner.scan_tokens(&unit), Err(Error::ExpectedAToken(_, _))));
    let mut scanner = Scanner::new(b"1.5x;");
    assert!(matches!(scanner.scan_tokens(&unit), Err(Error::ExpectedAToken(_, _))));
    let (out, r) = exec("1a;");
    assert_eq!(out, "");
    assert!(r.unwrap_err().starts_with("EXPECTED A TOKEN : valid token :"));
}

#[test]
fn print_errors_are_collected() {
    assert_eq!(
        exec("print 1 / 0; print 2; print -\"a\";"),
        (
            "2".to_string(),
            Err("ZERO DIVISION ERROR at line 1\nOPERATION MINUS is not defined for operands of type a.\n".to_string())
        )
    );
}

#[test]
fn expression_errors_stop_the_run() {
    assert_eq!(
        exec("print 1;\n1 / 0;\nprint 2;"),
        ("1".to_string(), Err("ZERO DIVISION ERROR at line 2".to_string()))
    );
}

#[test]
fn empty_and_comment_sources() {
    assert_eq!(exec(""), (String::new(), Ok(())));
    assert_eq!(exec("// nothing here"), (String::new(), Ok(())));
    assert_eq!(exec("// first\nprint 1; // second\nprint 2;"), ("12".to_string(), Ok(())));
}

#[test]
fn lexical_errors() {
    assert_eq!(exec("print 1 @ 2;"), (String::new(), Err("UNKNOWN TOKEN : @, at line 1".to_string())));
    assert_eq!(exec("print 1 # 2;"), (String::new(), Err("UNKNOWN TOKEN : #, at line 1".to_string())));
}

#[test]
fn syntax_errors() {
    assert_eq!(
        exec("print 1"),
        (String::new(), Err("EXPECTED A TOKEN : Expect ';' after value. on line 1".to_string()))
    );
    assert_eq!(
        exec("(1 + 2;"),
        (String::new(), Err("EXPECTED A TOKEN : Missing ')' on line 1".to_string()))
    );
    assert_eq!(exec("+;"), (String::new(), Err("INVALID TOKEN : +, at line 1".to_string())));
    assert_eq!(
        exec("var = 1;"),
        (String::new(), Err("EXPECTED A TOKEN : Variable name on line 1".to_string()))
    );
    assert_eq!(
        exec("var x = 1"),
        (String::new(), Err("EXPECTED A TOKEN : Missing ';' on line 1".to_string()))
    );
}

#[test]
fn runtime_type_errors() {
    assert_eq!(
        exec("\"a\" + 1;"),
        (String::new(), Err("OPERATION PLUS is not defined for operands of type a, 1.".to_string()))
    );
    assert_eq!(
        exec("nil == nil;"),
        (String::new(), Err("OPERATION EQUAL_EQUAL is not defined for operands of type nil, nil.".to_string()))
    );
    assert_eq!(
        exec("\"a\" >= \"b\";"),
        (String::new(), Err("OPERATION GREATER_EQUAL is not defined for operands of type a, b.".to_string()))
    );
}

#[test]
fn integers_have_any_size() {
    assert_eq!(
        exec("print 170141183460469231731687303715884105727 + 1;"),
        ("170141183460469231731687303715884105728".to_string(), Ok(()))
    );
    assert_eq!(
        exec("print 99999999999999999999999999999999999999999;"),
        ("99999999999999999999999999999999999999999".to_string(), Ok(()))
    );
    assert_eq!(
        exec("print -170141183460469231731687303715884105728 - 1;"),
        ("-170141183460469231731687303715884105729".to_string(), Ok(()))
    );
    assert_eq!(
        exec("print 123456789123456789 * 987654321987654321;"),
        ("121932631356500531347203169112635269".to_string(), Ok(()))
    );
    assert_eq!(
        exec("print -(-170141183460469231731687303715884105728);"),
        ("170141183460469231731687303715884105728".to_string(), Ok(()))
    );
    assert_eq!(exec("print 3 - 10;"), ("-7".to_string(), Ok(())));
    assert_eq!(exec("print 0 - 0;"), ("0".to_string(), Ok(())));
    assert_eq!(exec("print 007 * 1;"), ("7".to_string(), Ok(())));
    assert_eq!(
        exec("print 100000000000000000000000000000000000000000 > 99999999999999999999999999999999999999999;"),
        ("true".to_string(), Ok(()))
    );
    assert_eq!(exec("print -5 < -3;"), ("true".to_string(), Ok(())));
    assert_eq!(exec("print 1 / 100000000000000000000;"), ("0.00000000000000000001".to_string(), Ok(())));
}

#[test]
fn strings_and_comparisons() {
    assert_eq!(exec("print \"ab\" + \"cd\";"), ("abcd".to_string(), Ok(())));
    assert_eq!(exec("print \"a\" < \"b\";"), ("true".to_string(), Ok(())));
    assert_eq!(exec("print \"b\" > \"ab\";"), ("true".to_string(), Ok(())));
    assert_eq!(exec("print \"ab\" == \"ab\";"), ("true".to_string(), Ok(())));
    assert_eq!(exec("print \"ab\" != \"ab\";"), ("false".to_string(), Ok(())));
    assert_eq!(exec("print 1 < 1.5;"), ("true".to_string(), Ok(())));
    assert_eq!(exec("print 2 >= 2;"), ("true".to_string(), Ok(())));
    assert_eq!(exec("print 2.0 == 2;"), ("true".to_string(), Ok(())));
    assert_eq!(exec("print 3 != 3;"), ("false".to_string(), Ok(())));
}

#[test]
fn floating_point_arithmetic() {
    assert_eq!(exec("print 0.1 + 0.2;"), ("0.30000000000000004".to_string(), Ok(())));
    assert_eq!(exec("print 1.5 * 2;"), ("3".to_string(), Ok(())));
    assert_eq!(exec("print 1 - 0.5;"), ("0.5".to_string(), Ok(())));
}

#[test]
fn variables_are_bound_but_not_resolved() {
    let mut scanner = Scanner::new(b"var x = 1; var y;");
    let tokens = scanner.scan_tokens(&unit).ok().unwrap();
    let mut parser = Parser::new(tokens);
    let statements = parser.parse().ok().unwrap();
    let mut interpreter = Interpreter::new();
    assert_eq!(interpreter.interpret(statements, &unit), (String::new(), Ok(())));
    assert_eq!(
        exec("var x = 1; print x;"),
        (String::new(), Err("UNDEFINED VARIABLE : x, at line 1\n".to_string()))
    );
}

#[test]
fn lines_are_counted() {
    assert_eq!(exec("\n\n\"a\nb\" + 1;"), (String::new(), Err("OPERATION PLUS is not defined for operands of type a\nb, 1.".to_string())));
    assert_eq!(exec("\n\n1 / 0;"), (String::new(), Err("ZERO DIVISION ERROR at line 3".to_string())));
}
