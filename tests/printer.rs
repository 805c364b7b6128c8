use lox_front::{AstPrinter, Expr, Token, TokenType};

#[test]
fn pretty_print_pretty_print_test() {
    let num1_lit = Expr::Literal(TokenType::Number("123".to_string()));
    let num2_lit = Expr::Literal(TokenType::Number("45.67".to_string()));
    let grouping_expr = Expr::Grouping(Box::new(num2_lit));
    let unary_expr = Expr::Unary(
        Token::new(&TokenType::Minus, &"-".to_string(), 1),
        Box::new(num1_lit),
    );
    let expr = Expr::Binary(
        Box::new(unary_expr),
        Token::new(&TokenType::Star, &"*".to_string(), 1),
        Box::new(grouping_expr),
    );

    assert_eq!(
        "(* (- 123) (group 45.67))".to_string(),
        AstPrinter {}.pretty_print_value(&expr)
    );
}

#[test]
fn numerals_print_in_natural_decimal_form() {
    let cases = [
        ("0", "0"),
        ("007", "7"),
        ("1.50", "1.5"),
        ("2.00", "2"),
        ("00.5", "0.5"),
        ("10", "10"),
        ("100.010", "100.01"),
    ];
    for (numeral, shown) in cases {
        let e = Expr::Literal(TokenType::Number(numeral.to_string()));
        assert_eq!(AstPrinter {}.pretty_print_value(&e), shown);
    }
}

#[test]
fn other_literals_print_as_themselves() {
    let p = AstPrinter {};
    assert_eq!(p.pretty_print_value(&Expr::Literal(TokenType::String("hi".to_string()))), "\"hi\"");
    assert_eq!(p.pretty_print_value(&Expr::Literal(TokenType::True)), "true");
    assert_eq!(p.pretty_print_value(&Expr::Literal(TokenType::False)), "false");
    assert_eq!(p.pretty_print_value(&Expr::Literal(TokenType::Nil)), "nil");
}

#[test]
fn printing_twice_gives_the_same_text() {
    let e = Expr::Unary(
        Token::new(&TokenType::Bang, &"!".to_string(), 1),
        Box::new(Expr::Grouping(Box::new(Expr::Literal(TokenType::True)))),
    );
    let p = AstPrinter {};
    let first = p.pretty_print_value(&e);
    let second = p.pretty_print_value(&e);
    assert_eq!(first, "(! (group true))");
    assert_eq!(first, second);
}
