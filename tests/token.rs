use parse_math::token::{OperationPrecedence, Token, Tokenizer};

fn value(token: Option<Token>) -> Option<f64> {
    match token {
        Some(Token::Number(text)) => Some(text.parse::<f64>().unwrap()),
        _ => None,
    }
}

#[test]
fn parse_single_number() {
    let mut tokenizer = Tokenizer::new("1");
    assert_eq!(value(tokenizer.peek()), Some(1.));
    assert_eq!(value(tokenizer.next()), Some(1.));
    assert_eq!(tokenizer.peek(), Some(Token::EOF));
    assert_eq!(tokenizer.next(), Some(Token::EOF));
    assert_eq!(tokenizer.peek(), None);
    assert_eq!(tokenizer.next(), None);
}

#[test]
fn parse_int_number() {
    let mut tokenizer = Tokenizer::new("1234567890");

    assert_eq!(value(tokenizer.peek()), Some(1234567890.));
    assert_eq!(value(tokenizer.next()), Some(1234567890.));
    assert_eq!(tokenizer.next(), Some(Token::EOF));
    assert_eq!(tokenizer.next(), None);
}

#[test]
fn parse_float_number() {
    let mut tokenizer = Tokenizer::new("1234567890.1234567890");

    assert_eq!(value(tokenizer.next()), Some(1234567890.123456789));
    assert_eq!(tokenizer.next(), Some(Token::EOF));
    assert_eq!(tokenizer.next(), None);
}

#[test]
fn numeral_keeps_its_text() {
    let mut tokenizer = Tokenizer::new("12.50+3");
    assert_eq!(tokenizer.next(), Some(Token::Number("12.50".to_string())));
    assert_eq!(tokenizer.next(), Some(Token::Plus));
    assert_eq!(tokenizer.next(), Some(Token::Number("3".to_string())));
    assert_eq!(tokenizer.next(), Some(Token::EOF));
}

#[test]
fn symbols_and_spaces() {
    let mut tokenizer = Tokenizer::new(" ( - * / ^ ) ");
    assert_eq!(tokenizer.next(), Some(Token::LeftParenthesis));
    assert_eq!(tokenizer.next(), Some(Token::Minus));
    assert_eq!(tokenizer.next(), Some(Token::Asterisk));
    assert_eq!(tokenizer.next(), Some(Token::Slash));
    assert_eq!(tokenizer.next(), Some(Token::Caret));
    assert_eq!(tokenizer.next(), Some(Token::RightParenthesis));
    assert_eq!(tokenizer.next(), Some(Token::EOF));
    assert_eq!(tokenizer.next(), None);
}

#[test]
fn spaces_inside_a_numeral_are_dropped() {
    let mut tokenizer = Tokenizer::new("1 2");
    assert_eq!(tokenizer.next(), Some(Token::Number("12".to_string())));
}

#[test]
fn second_decimal_point_ends_the_numeral() {
    let mut tokenizer = Tokenizer::new("1.2.3");
    assert_eq!(tokenizer.next(), Some(Token::Number("1.2".to_string())));
    assert_eq!(tokenizer.next(), None);
    assert_eq!(tokenizer.next(), None);
}

#[test]
fn unknown_character_ends_the_tokens() {
    let mut tokenizer = Tokenizer::new("1$2");
    assert_eq!(tokenizer.next(), Some(Token::Number("1".to_string())));
    assert_eq!(tokenizer.next(), None);
    assert_eq!(tokenizer.next(), None);
}

#[test]
fn precedence_levels() {
    assert_eq!(Token::Plus.operation_precedence(), OperationPrecedence::AddSub);
    assert_eq!(Token::Minus.operation_precedence(), OperationPrecedence::AddSub);
    assert_eq!(Token::Asterisk.operation_precedence(), OperationPrecedence::MulDiv);
    assert_eq!(Token::Slash.operation_precedence(), OperationPrecedence::MulDiv);
    assert_eq!(Token::LeftParenthesis.operation_precedence(), OperationPrecedence::MulDiv);
    assert_eq!(Token::Caret.operation_precedence(), OperationPrecedence::Power);
    assert_eq!(Token::EOF.operation_precedence(), OperationPrecedence::Default);
    assert_eq!(Token::RightParenthesis.operation_precedence(), OperationPrecedence::Default);
    assert!(OperationPrecedence::Default.level() < OperationPrecedence::AddSub.level());
    assert!(OperationPrecedence::AddSub.level() < OperationPrecedence::MulDiv.level());
    assert!(OperationPrecedence::MulDiv.level() < OperationPrecedence::Power.level());
}

#[test]
fn token_names() {
    assert_eq!(Token::Number("2.5".to_string()).describe(), "Number(2.5)");
    assert_eq!(Token::EOF.describe(), "EOF");
    assert_eq!(Token::LeftParenthesis.describe(), "LeftParenthesis");
}
