use parse_math::ast::Node;
use parse_math::errors::ParseError;
use parse_math::parser::Parser;

fn element(value: f64) -> Node {
    Node::Element(format!("{}", value))
}

fn pair(left: Node, right: Node) -> (Box<Node>, Box<Node>) {
    (Box::new(left), Box::new(right))
}

fn sum(left: Node, right: Node) -> Node {
    let (l, r) = pair(left, right);
    Node::Sum(l, r)
}

fn subtract(left: Node, right: Node) -> Node {
    let (l, r) = pair(left, right);
    Node::Subtract(l, r)
}

fn multiply(left: Node, right: Node) -> Node {
    let (l, r) = pair(left, right);
    Node::Multiply(l, r)
}

fn divide(left: Node, right: Node) -> Node {
    let (l, r) = pair(left, right);
    Node::Divide(l, r)
}

fn power(left: Node, right: Node) -> Node {
    let (l, r) = pair(left, right);
    Node::Power(l, r)
}

fn parse(text: &str) -> Result<Node, ParseError> {
    let mut parser = Parser::new(text);
    parser.parse()
}

#[test]
fn negative_test() {
    let ast = parse("-1");
    let expected = Node::Negative(Box::new(element(1.)));
    assert_eq!(ast, Ok(expected))
}

#[test]
fn trim_plus() {
    let ast = parse("+1");
    let expected = element(1.);
    assert_eq!(ast, Ok(expected))
}

#[test]
fn sum_two() {
    let ast = parse("1+2");
    let expected = sum(element(1.), element(2.));
    assert_eq!(ast, Ok(expected))
}

#[test]
fn sum_many() {
    let ast = parse("10+20+30");
    let left = sum(element(10.), element(20.));
    let expected = sum(left, element(30.));
    assert_eq!(ast, Ok(expected))
}

#[test]
fn multiply_two() {
    let ast = parse("1*2");
    let expected = multiply(element(1.), element(2.));
    assert_eq!(ast, Ok(expected))
}

#[test]
fn multiply_many() {
    let ast = parse("10*20*30");
    let left = multiply(element(10.), element(20.));
    let expected = multiply(left, element(30.));
    assert_eq!(ast, Ok(expected))
}

#[test]
fn divide_two() {
    let ast = parse("1/2");
    let expected = divide(element(1.), element(2.));
    assert_eq!(ast, Ok(expected))
}

#[test]
fn divide_many() {
    let ast = parse("10/20/30");
    let left = divide(element(10.), element(20.));
    let expected = divide(left, element(30.));
    assert_eq!(ast, Ok(expected))
}

#[test]
fn subtract_two() {
    let ast = parse("1-2");
    let expected = subtract(element(1.), element(2.));
    assert_eq!(ast, Ok(expected))
}

#[test]
fn subtract_many() {
    let ast = parse("10-20-30");
    let left = subtract(element(10.), element(20.));
    let expected = subtract(left, element(30.));
    assert_eq!(ast, Ok(expected))
}

#[test]
fn power_two() {
    let ast = parse("1^2");
    let expected = power(element(1.), element(2.));
    assert_eq!(ast, Ok(expected))
}

#[test]
fn pow_many() {
    let ast = parse("10^20^30");
    let left = power(element(10.), element(20.));
    let expected = power(left, element(30.));
    assert_eq!(ast, Ok(expected))
}

#[test]
fn combine_pow() {
    let ast = parse("3^2*2");
    let left = power(element(3.), element(2.));
    let expected = multiply(left, element(2.));
    assert_eq!(ast, Ok(expected))
}

#[test]
fn combine_1() {
    let ast = parse("10+20*30");
    let right = multiply(element(20.), element(30.));
    let expected = sum(element(10.), right);
    assert_eq!(ast, Ok(expected))
}

#[test]
fn combine_2() {
    let ast = parse("10*20+30");
    let left = multiply(element(10.), element(20.));
    let expected = sum(left, element(30.));
    assert_eq!(ast, Ok(expected))
}

#[test]
fn parenthesis() {
    let ast = parse("(20+30)");
    let expected = sum(element(20.), element(30.));
    assert_eq!(ast, Ok(expected))
}

#[test]
fn combine_parenthesis() {
    let ast = parse("10*(20+30)");
    let right = sum(element(20.), element(30.));
    let expected = multiply(element(10.), right);
    assert_eq!(ast, Ok(expected))
}

#[test]
fn combine_parenthesis_multiply_1() {
    let ast = parse("(10)(20)");
    let expected = multiply(element(10.), element(20.));
    assert_eq!(ast, Ok(expected))
}

#[test]
fn combine_parenthesis_multiply_2() {
    let ast = parse("(10+20)(30+40)");
    let left = sum(element(10.), element(20.));
    let right = sum(element(30.), element(40.));
    let expected = multiply(left, right);
    assert_eq!(ast, Ok(expected))
}

#[test]
fn single_number_is_a_leaf() {
    assert_eq!(parse("42"), Ok(Node::Element("42".to_string())));
    assert_eq!(parse("3.25"), Ok(Node::Element("3.25".to_string())));
}

#[test]
fn double_negation() {
    let expected = Node::Negative(Box::new(Node::Negative(Box::new(element(7.)))));
    assert_eq!(parse("--7"), Ok(expected));
}

#[test]
fn parentheses_change_nothing() {
    assert_eq!(parse("(1+2*3)"), parse("1+2*3"));
    assert_eq!(parse("((4))"), parse("4"));
}

#[test]
fn adjacency_multiplies() {
    assert_eq!(parse("(1+2)(3-4)"), parse("(1+2)*(3-4)"));
    assert_eq!(parse("2(3)"), Ok(multiply(element(2.), element(3.))));
}

#[test]
fn unary_plus_changes_nothing() {
    assert_eq!(parse("+5"), parse("5"));
}

#[test]
fn division_by_zero_parses() {
    assert_eq!(parse("1/0"), Ok(divide(element(1.), element(0.))));
}

#[test]
fn whitespace_is_skipped() {
    assert_eq!(parse(" 1 +\t2 "), Ok(sum(element(1.), element(2.))));
}

#[test]
fn unary_minus_binds_to_its_operand() {
    let left = Node::Negative(Box::new(element(2.)));
    assert_eq!(parse("-2^2"), Ok(power(left, element(2.))));
}

#[test]
fn unbalanced_parenthesis() {
    assert_eq!(parse("(1+2"), Err(ParseError::ParenthesisNotBalanced));
    assert_eq!(parse("2(3"), Err(ParseError::ParenthesisNotBalanced));
}

#[test]
fn trailing_token_is_an_invalid_operator() {
    assert_eq!(
        parse("1+2)"),
        Err(ParseError::InvalidOperator("RightParenthesis".to_string()))
    );
    assert_eq!(
        parse("(1)2"),
        Err(ParseError::InvalidOperator("Number(2)".to_string()))
    );
}

#[test]
fn missing_operand_is_an_invalid_number() {
    assert_eq!(parse("1+"), Err(ParseError::InvalidNumber("EOF".to_string())));
    assert_eq!(parse(""), Err(ParseError::InvalidNumber("EOF".to_string())));
    assert_eq!(parse("*3"), Err(ParseError::InvalidNumber("Asterisk".to_string())));
}

#[test]
fn unknown_character_is_unable_to_parse() {
    assert_eq!(
        parse("1+2$"),
        Err(ParseError::UnableToParse("Unknown char".to_string()))
    );
    assert_eq!(
        parse("$"),
        Err(ParseError::UnableToParse("Number parse error".to_string()))
    );
    assert_eq!(
        parse("1.2.3"),
        Err(ParseError::UnableToParse("Unknown char".to_string()))
    );
}

#[test]
fn error_messages() {
    assert_eq!(
        ParseError::UnableToParse("Unknown char".to_string()).message(),
        "Error in evaluating Unknown char"
    );
    assert_eq!(ParseError::ParenthesisNotBalanced.message(), "Balance parenthesis error");
    assert_eq!(
        ParseError::InvalidOperator("RightParenthesis".to_string()).message(),
        "Invalid operator: RightParenthesis"
    );
    assert_eq!(
        ParseError::InvalidNumber("EOF".to_string()).message(),
        "Invalid number: EOF"
    );
}
