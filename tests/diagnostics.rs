use lox_front::{LoxError, LoxErrorList, Token, TokenType};

#[test]
fn error_test() {
    let token = Token::new(&TokenType::And, &"&".to_string(), 10);
    let err = LoxError::new(token, "Test with normal token".to_string());
    let text = err.report_msg();

    assert_eq!("10: at '&' - Test with normal token", text);

    let token = Token::new(&TokenType::Eof, &"".to_string(), 20);
    let err = LoxError::new(token, "Test with EOF token".to_string());
    let text = err.report_msg();

    assert_eq!("20: at end - Test with EOF token", text);

    let err = LoxError::new_text_only(None, "Test with only this text");
    let text = err.report_msg();

    assert_eq!("Test with only this text", text);

    let err = LoxError::new_text_only(Some(30), "Test with only text and line number");
    let text = err.report_msg();

    assert_eq!("30: Test with only text and line number", text);
}

#[test]
fn line_numbers_render_in_decimal() {
    let err = LoxError::new_text_only(Some(0), "zero");
    assert_eq!("0: zero", err.report_msg());
    let err = LoxError::new_text_only(Some(1234567), "big");
    assert_eq!("1234567: big", err.report_msg());
    assert_eq!(lox_front::lox_error::decimal_text(usize::MAX), usize::MAX.to_string());
}

#[test]
fn list_push_append_and_report_keep_order() {
    let mut list = LoxErrorList::new();
    assert_eq!(list.len(), 0);
    list.push(LoxError::new_text_only(Some(1), "first"));
    let mut other = LoxErrorList::single(LoxError::new_text_only(None, "second"));
    other.push(LoxError::new_text_only(Some(3), "third"));
    list.append(other);
    assert_eq!(list.len(), 3);
    assert_eq!(
        list.report(),
        vec!["1: first".to_string(), "second".to_string(), "3: third".to_string()]
    );
    let copy = list.clone();
    assert_eq!(copy.report(), list.report());
}
