use vstd::prelude::*;

verus! {

/// Why an expression could not be parsed.
#[derive(Debug)]
pub enum ParseError {
    UnableToParse(String),
    ParenthesisNotBalanced,
    InvalidOperator(String),
    InvalidNumber(String),
}

/// The mathematical value of a parse error.
pub enum ParseErrorView {
    UnableToParse(Seq<char>),
    ParenthesisNotBalanced,
    InvalidOperator(Seq<char>),
    InvalidNumber(Seq<char>),
}

impl View for ParseError {
    type V = ParseErrorView;

    open spec fn view(&self) -> ParseErrorView {
        match self {
            ParseError::UnableToParse(s) => ParseErrorView::UnableToParse(s@),
            ParseError::ParenthesisNotBalanced => ParseErrorView::ParenthesisNotBalanced,
            ParseError::InvalidOperator(s) => ParseErrorView::InvalidOperator(s@),
            ParseError::InvalidNumber(s) => ParseErrorView::InvalidNumber(s@),
        }
    }
}

impl PartialEq for ParseError {
    fn eq(&self, other: &ParseError) -> (r: bool) {
        match (self, other) {
            (ParseError::UnableToParse(a), ParseError::UnableToParse(b)) => *a == *b,
            (ParseError::ParenthesisNotBalanced, ParseError::ParenthesisNotBalanced) => true,
            (ParseError::InvalidOperator(a), ParseError::InvalidOperator(b)) => *a == *b,
            (ParseError::InvalidNumber(a), ParseError::InvalidNumber(b)) => *a == *b,
            _ => false,
        }
    }
}

impl vstd::std_specs::cmp::PartialEqSpecImpl for ParseError {
    open spec fn obeys_eq_spec() -> bool {
        true
    }

    open spec fn eq_spec(&self, other: &ParseError) -> bool {
        self@ == other@
    }
}

/// The text that reports an error.
pub open spec fn error_message(e: ParseErrorView) -> Seq<char> {
    match e {
        ParseErrorView::UnableToParse(s) => "Error in evaluating "@ + s,
        ParseErrorView::ParenthesisNotBalanced => "Balance parenthesis error"@,
        ParseErrorView::InvalidOperator(s) => "Invalid operator: "@ + s,
        ParseErrorView::InvalidNumber(s) => "Invalid number: "@ + s,
    }
}

impl ParseError {
    /// The message that reports this error to a user.
    pub fn message(&self) -> (r: String)
        ensures
            r@ == error_message(self@),
    {
        match self {
            ParseError::UnableToParse(s) => {
                let mut r = "Error in evaluating ".to_string();
                r.append(s.as_str());
                r
            },
            ParseError::ParenthesisNotBalanced => "Balance parenthesis error".to_string(),
            ParseError::InvalidOperator(s) => {
                let mut r = "Invalid operator: ".to_string();
                r.append(s.as_str());
                r
            },
            ParseError::InvalidNumber(s) => {
                let mut r = "Invalid number: ".to_string();
                r.append(s.as_str());
                r
            },
        }
    }
}

} // verus!
