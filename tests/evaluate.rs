use lox_front::{
    run, run_tokens, AstPrinter, Evaluator, Expr, LoxError, LoxType, NumberDomain, Parser, Scanner,
    Token, TokenType,
};

#[derive(Clone, Copy, Debug, PartialEq)]
struct Double(f64);

impl NumberDomain for Double {
    fn spec_from_numeral(text: String) -> Self {
        // Only numerals reach this, and every numeral parses.
        Double(text.parse::<f64>().expect("numeral"))
    }

    fn spec_negation(a: Self) -> Self {
        Double(-a.0)
    }

    fn spec_sum(a: Self, b: Self) -> Self {
        Double(a.0 + b.0)
    }

    fn spec_difference(a: Self, b: Self) -> Self {
        Double(a.0 - b.0)
    }

    fn spec_product(a: Self, b: Self) -> Self {
        Double(a.0 * b.0)
    }

    fn spec_quotient(a: Self, b: Self) -> Self {
        Double(a.0 / b.0)
    }

    fn spec_less(a: Self, b: Self) -> bool {
        a.0 < b.0
    }

    fn spec_less_equal(a: Self, b: Self) -> bool {
        a.0 <= b.0
    }

    fn spec_greater(a: Self, b: Self) -> bool {
        a.0 > b.0
    }

    fn spec_greater_equal(a: Self, b: Self) -> bool {
        a.0 >= b.0
    }

    fn spec_equal(a: Self, b: Self) -> bool {
        a.0 == b.0
    }

    fn spec_render(a: Self) -> String {
        format!("{}", a.0)
    }

    fn from_numeral(text: &String) -> Self {
        Self::spec_from_numeral(text.clone())
    }

    fn negation(&self) -> Self {
        Self::spec_negation(*self)
    }

    fn sum(&self, other: &Self) -> Self {
        Self::spec_sum(*self, *other)
    }

    fn difference(&self, other: &Self) -> Self {
        Self::spec_difference(*self, *other)
    }

    fn product(&self, other: &Self) -> Self {
        Self::spec_product(*self, *other)
    }

    fn quotient(&self, other: &Self) -> Self {
        Self::spec_quotient(*self, *other)
    }

    fn less(&self, other: &Self) -> bool {
        Self::spec_less(*self, *other)
    }

    fn less_equal(&self, other: &Self) -> bool {
        Self::spec_less_equal(*self, *other)
    }

    fn greater(&self, other: &Self) -> bool {
        Self::spec_greater(*self, *other)
    }

    fn greater_equal(&self, other: &Self) -> bool {
        Self::spec_greater_equal(*self, *other)
    }

    fn equal(&self, other: &Self) -> bool {
        Self::spec_equal(*self, *other)
    }

    fn render(&self) -> String {
        Self::spec_render(*self)
    }
}

fn tok(tt: TokenType, lexeme: &str) -> Token {
    Token::new(&tt, &lexeme.to_string(), 1)
}

fn eof() -> Token {
    tok(TokenType::Eof, "")
}

fn scan(src: &str) -> Vec<Token> {
    let program = src.to_string();
    let mut scanner = Scanner::new(&program).unwrap();
    scanner.scan_tokens();
    assert_eq!(scanner.get_errors().len(), 0);
    scanner.get_tokens().clone()
}

fn parse(tokens: Vec<Token>) -> Expr {
    let mut parser = Parser::new(tokens);
    let tree = parser.parse();
    assert_eq!(parser.get_errors().len(), 0);
    tree.unwrap()
}

fn render(src: &str) -> String {
    AstPrinter {}.pretty_print_value(&parse(scan(src)))
}

fn eval_tokens(tokens: Vec<Token>) -> Result<LoxType<Double>, LoxError> {
    let tree = parse(tokens);
    assert!(tree.is_evaluable());
    Evaluator {}.evaluate::<Double>(&tree)
}

fn eval(src: &str) -> Result<LoxType<Double>, LoxError> {
    eval_tokens(scan(src))
}

fn number(r: Result<LoxType<Double>, LoxError>) -> f64 {
    match r {
        Ok(LoxType::Number(Double(n))) => n,
        other => panic!("not a number: {:?}", other),
    }
}

fn boolean(r: Result<LoxType<Double>, LoxError>) -> bool {
    match r {
        Ok(LoxType::Bool(b)) => b,
        other => panic!("not a bool: {:?}", other),
    }
}

fn error_message(r: Result<LoxType<Double>, LoxError>) -> String {
    match r {
        Err(e) => e.report_msg(),
        Ok(v) => panic!("no error: {:?}", v),
    }
}

#[test]
fn parse_and_render_each_production() {
    assert_eq!(render("-1 * (2)"), "(* (- 1) (group 2))");
    assert_eq!(render("1 == 2 != 3"), "(!= (== 1 2) 3)");
    assert_eq!(render("1 < 2 <= 3 > 4 >= 5"), "(>= (> (<= (< 1 2) 3) 4) 5)");
    assert_eq!(render("1 + 2 - 3"), "(- (+ 1 2) 3)");
    assert_eq!(render("6 / 3 * 2"), "(* (/ 6 3) 2)");
    assert_eq!(render("1 + 2 * 3"), "(+ 1 (* 2 3))");
    assert_eq!(render("--4"), "(- (- 4))");
    assert_eq!(render("\"a\" + \"b\""), "(+ \"a\" \"b\")");
    assert_eq!(render("((1))"), "(group (group 1))");
    assert_eq!(render("1 < 2 == 3 > 4"), "(== (< 1 2) (> 3 4))");
    let tokens = vec![tok(TokenType::Bang, "!"), tok(TokenType::True, "true"), eof()];
    assert_eq!(AstPrinter {}.pretty_print_value(&parse(tokens)), "(! true)");
    let tokens = vec![
        tok(TokenType::Nil, "nil"),
        tok(TokenType::EqualEqual, "=="),
        tok(TokenType::False, "false"),
        eof(),
    ];
    assert_eq!(AstPrinter {}.pretty_print_value(&parse(tokens)), "(== nil false)");
}

#[test]
fn printer_is_stable_across_runs() {
    let tree = parse(scan("(1 + 2.50) * -3"));
    let first = AstPrinter {}.pretty_print_value(&tree);
    for _ in 0..5 {
        assert_eq!(AstPrinter {}.pretty_print_value(&tree), first);
    }
    assert_eq!(first, "(* (group (+ 1 2.5)) (- 3))");
}

#[test]
fn one_plus_two_is_three() {
    assert_eq!(number(eval("1 + 2")), 3.0);
}

#[test]
fn strings_concatenate() {
    match eval("\"a\" + \"b\"") {
        Ok(LoxType::String(s)) => assert_eq!(s, "ab"),
        other => panic!("{:?}", other),
    }
}

#[test]
fn number_plus_string_is_mismatched() {
    assert_eq!(error_message(eval("1 + \"a\"")), "1: at '+' - Mismatched types");
}

#[test]
fn equality_across_types_never_fails() {
    let tokens = vec![
        tok(TokenType::Nil, "nil"),
        tok(TokenType::EqualEqual, "=="),
        tok(TokenType::Nil, "nil"),
        eof(),
    ];
    assert!(boolean(eval_tokens(tokens)));
    assert!(!boolean(eval("1 == \"1\"")));
    assert!(boolean(eval("1 != \"1\"")));
    assert!(boolean(eval("\"x\" == \"x\"")));
    assert!(!boolean(eval("\"x\" == \"y\"")));
    let tokens = vec![
        tok(TokenType::True, "true"),
        tok(TokenType::BangEqual, "!="),
        tok(TokenType::False, "false"),
        eof(),
    ];
    assert!(boolean(eval_tokens(tokens)));
}

#[test]
fn zero_over_zero_is_nan_and_unequal_to_itself() {
    assert!(number(eval("0 / 0")).is_nan());
    assert!(!boolean(eval("0 / 0 == 0 / 0")));
    assert!(boolean(eval("0 / 0 != 0 / 0")));
    assert_eq!(number(eval("1 / 0")), f64::INFINITY);
}

#[test]
fn subtraction_associates_left() {
    assert_eq!(number(eval("1 - 2 - 3")), -4.0);
}

#[test]
fn double_negation_of_true() {
    let tokens = vec![
        tok(TokenType::Bang, "!"),
        tok(TokenType::Bang, "!"),
        tok(TokenType::True, "true"),
        eof(),
    ];
    assert!(boolean(eval_tokens(tokens)));
}

#[test]
fn arithmetic_and_comparisons() {
    assert_eq!(number(eval("2 * 3 - 4 / 2")), 4.0);
    assert_eq!(number(eval("-(1.5 + 1)")), -2.5);
    assert!(boolean(eval("1 < 2")));
    assert!(!boolean(eval("2 < 1")));
    assert!(boolean(eval("2 <= 2")));
    assert!(boolean(eval("3 > 2")));
    assert!(boolean(eval("2 >= 3 == 1 > 2")));
}

#[test]
fn type_errors_name_the_type_found() {
    assert_eq!(error_message(eval("-\"a\"")), "1: at '-' - Expected number but found string");
    assert_eq!(error_message(eval("!1")), "1: at '!' - Expected bool but found number");
    assert_eq!(error_message(eval("\"a\" * 2")), "1: at '*' - Expected number but found string");
    assert_eq!(error_message(eval("2 < \"a\"")), "1: at '<' - Expected number but found string");
    let tokens = vec![
        tok(TokenType::Nil, "nil"),
        tok(TokenType::Minus, "-"),
        tok(TokenType::True, "true"),
        eof(),
    ];
    assert_eq!(
        error_message(eval_tokens(tokens)),
        "1: at '-' - Expected number but found nil"
    );
}

#[test]
fn first_error_in_evaluation_order_wins() {
    assert_eq!(
        error_message(eval("(1 + \"a\") * -\"b\"")),
        "1: at '+' - Mismatched types"
    );
}

#[test]
fn unclosed_group_is_one_diagnostic_and_no_tree() {
    let mut parser = Parser::new(scan("(1 + 2"));
    assert!(parser.parse().is_none());
    assert_eq!(parser.get_errors().len(), 1);
    assert_eq!(
        parser.get_errors().report(),
        vec!["1: at end - Expect ')' after expression.".to_string()]
    );
}

#[test]
fn two_unclosed_groups_are_both_reported() {
    let mut parser = Parser::new(scan("(1 + (2"));
    assert!(parser.parse().is_none());
    assert_eq!(parser.get_errors().len(), 2);
    let mut parser = Parser::new(scan("((1"));
    assert!(parser.parse().is_none());
    assert_eq!(parser.get_errors().len(), 2);
}

#[test]
fn invalid_operand_is_reported_at_its_token() {
    let mut parser = Parser::new(scan("1 + )"));
    assert!(parser.parse().is_none());
    assert_eq!(parser.get_errors().report(), vec!["1: at ')' - Invalid Token".to_string()]);
    let mut parser = Parser::new(scan("1 +"));
    assert!(parser.parse().is_none());
    assert_eq!(parser.get_errors().report(), vec!["1: at end - Invalid Token".to_string()]);
}

#[test]
fn synchronize_stops_after_semicolon_or_before_statement() {
    let tokens = vec![
        tok(TokenType::Plus, "+"),
        tok(TokenType::Number("1".to_string()), "1"),
        tok(TokenType::Semicolon, ";"),
        tok(TokenType::Number("2".to_string()), "2"),
        eof(),
    ];
    let mut parser = Parser::new(tokens);
    parser.synchronize();
    assert_eq!(parser.peek().lexeme, "2");
    let tokens = vec![
        tok(TokenType::Plus, "+"),
        tok(TokenType::Number("1".to_string()), "1"),
        tok(TokenType::Var, "var"),
        eof(),
    ];
    let mut parser = Parser::new(tokens);
    parser.synchronize();
    assert_eq!(parser.peek().lexeme, "var");
    let mut parser = Parser::new(vec![tok(TokenType::Plus, "+"), eof()]);
    parser.synchronize();
    assert!(parser.is_at_end());
}

#[test]
fn values_print_as_text() {
    assert_eq!(LoxType::<Double>::Nil.to_string(), "nil");
    assert_eq!(LoxType::<Double>::Bool(true).to_string(), "true");
    assert_eq!(LoxType::<Double>::Number(Double(2.5)).to_string(), "2.5");
    assert_eq!(LoxType::<Double>::String("s".to_string()).to_string(), "s");
}

#[test]
fn interpret_reports_value_or_error() {
    let tree = parse(scan("1 + 2"));
    let (text, errors) = Evaluator {}.interpret::<Double>(&tree);
    assert_eq!(text, Some("3".to_string()));
    assert_eq!(errors.len(), 0);
    let tree = parse(scan("1 + \"a\""));
    let (text, errors) = Evaluator {}.interpret::<Double>(&tree);
    assert_eq!(text, None);
    assert_eq!(errors.report(), vec!["1: at '+' - Mismatched types".to_string()]);
}

#[test]
fn run_gives_tree_then_value() {
    assert_eq!(run::<Double>(&"1 + 2".to_string()), vec!["(+ 1 2)", "3"]);
    assert_eq!(
        run::<Double>(&"\"a\" - 1".to_string()),
        vec!["(- \"a\" 1)", "1: at '-' - Expected number but found string"]
    );
    assert_eq!(
        run::<Double>(&"(1".to_string()),
        vec!["1: at end - Expect ')' after expression."]
    );
    assert_eq!(run::<Double>(&"1 @".to_string()), vec!["1: Unexpected character."]);
    assert_eq!(run::<Double>(&"é".to_string()), vec!["Program should be in ascii"]);
    assert_eq!(
        run_tokens::<Double>(vec![tok(TokenType::True, "true"), eof()]),
        vec!["true", "true"]
    );
}

#[test]
fn evaluable_check_rejects_foreign_trees() {
    let bad = Expr::Unary(tok(TokenType::Plus, "+"), Box::new(Expr::Literal(TokenType::Nil)));
    assert!(!bad.is_evaluable());
    let bad = Expr::Literal(TokenType::Number("1e5".to_string()));
    assert!(!bad.is_evaluable());
    let good = Expr::Literal(TokenType::Number("1.5".to_string()));
    assert!(good.is_evaluable());
}

#[test]
fn value_accessors_report_the_type_found() {
    use_accessors();
}

fn use_accessors() {
    let plus = tok(TokenType::Plus, "+");
    let n = LoxType::Number(Double(1.0));
    let s = LoxType::<Double>::String("x".to_string());
    let err = lox_front::evaluate::get_string(&n, &plus).err().unwrap();
    assert_eq!(err.report_msg(), "1: at '+' - Expected string but found number");
    assert_eq!(lox_front::evaluate::get_string(&s, &plus).ok(), Some("x".to_string()));
    let err = lox_front::evaluate::get_bool(&s, &plus).err().unwrap();
    assert_eq!(err.report_msg(), "1: at '+' - Expected bool but found string");
    assert!(lox_front::evaluate::is_nil(&LoxType::<Double>::Nil));
    assert!(!lox_front::evaluate::is_equal(&n, &s, &plus));
    assert!(lox_front::evaluate::is_equal(&LoxType::<Double>::Nil, &LoxType::Nil, &plus));
}
