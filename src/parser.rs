use vstd::prelude::*;

use crate::ast::{Expr, Node};
use crate::errors::{ParseError, ParseErrorView};
use crate::token::{tok_name, tok_precedence, tokens_of, OperationPrecedence, Tok, Token, Tokenizer};

verus! {

/// What a parsing step yields: a tree and the tokens left after it, or an error.
pub type Step = Result<(Expr, Seq<Tok>), ParseErrorView>;

/// The tree that a binary operator token builds from its two operands.
pub open spec fn combine(t: Tok, left: Expr, right: Expr) -> Expr {
    match t {
        Tok::Plus => Expr::Sum(Box::new(left), Box::new(right)),
        Tok::Minus => Expr::Subtract(Box::new(left), Box::new(right)),
        Tok::Asterisk => Expr::Multiply(Box::new(left), Box::new(right)),
        Tok::Slash => Expr::Divide(Box::new(left), Box::new(right)),
        _ => Expr::Power(Box::new(left), Box::new(right)),
    }
}

pub open spec fn is_binary_operator(t: Tok) -> bool {
    t is Plus || t is Minus || t is Asterisk || t is Slash || t is Caret
}

/// An expression: an operand, then every operator that binds more tightly
/// than `min`, each with its right-hand side.
pub open spec fn spec_ast(ts: Seq<Tok>, min: OperationPrecedence) -> Step
    decreases ts.len(), 2int,
{
    match spec_primary(ts) {
        Err(e) => Err(e),
        Ok((left, rest)) => if rest.len() < ts.len() {
            spec_loop(left, rest, min)
        } else {
            Err(ParseErrorView::UnableToParse(seq![]))
        },
    }
}

/// The operator loop of an expression, with `left` parsed so far.
pub open spec fn spec_loop(left: Expr, ts: Seq<Tok>, min: OperationPrecedence) -> Step
    decreases ts.len(), 1int,
{
    if ts.len() == 0 {
        Err(ParseErrorView::UnableToParse("Unknown char"@))
    } else if ts[0] is EOF || min.rank() >= tok_precedence(ts[0]).rank() {
        Ok((left, ts))
    } else {
        match spec_operation(left, ts) {
            Err(e) => Err(e),
            Ok((e, rest)) => if rest.len() < ts.len() {
                spec_loop(e, rest, min)
            } else {
                Err(ParseErrorView::UnableToParse(seq![]))
            },
        }
    }
}

/// An operand: a numeral, a parenthesised expression, or an operand under
/// a unary plus (which changes nothing) or minus (which negates).
pub open spec fn spec_primary(ts: Seq<Tok>) -> Step
    decreases ts.len(), 0int,
{
    if ts.len() == 0 {
        Err(ParseErrorView::UnableToParse("Number parse error"@))
    } else {
        let rest = ts.drop_first();
        match ts[0] {
            Tok::Plus => spec_primary(rest),
            Tok::Minus => match spec_primary(rest) {
                Err(e) => Err(e),
                Ok((e, r)) => Ok((Expr::Negative(Box::new(e)), r)),
            },
            Tok::Number(s) => Ok((Expr::Element(s), rest)),
            Tok::LeftParenthesis => match spec_ast(rest, OperationPrecedence::Default) {
                Err(e) => Err(e),
                Ok((e, r)) => if r.len() > 0 && r[0] is RightParenthesis {
                    Ok((e, r.drop_first()))
                } else {
                    Err(ParseErrorView::ParenthesisNotBalanced)
                },
            },
            t => Err(ParseErrorView::InvalidNumber(tok_name(t))),
        }
    }
}

/// An operator and its right-hand side, combined with `left`. An opening
/// parenthesis in operator position multiplies `left` by what it encloses.
pub open spec fn spec_operation(left: Expr, ts: Seq<Tok>) -> Step
    decreases ts.len(), 0int,
{
    if ts.len() == 0 {
        Err(ParseErrorView::UnableToParse("Operator parse error"@))
    } else {
        let t = ts[0];
        let rest = ts.drop_first();
        if is_binary_operator(t) {
            match spec_ast(rest, tok_precedence(t)) {
                Err(e) => Err(e),
                Ok((r, rr)) => Ok((combine(t, left, r), rr)),
            }
        } else if t is LeftParenthesis {
            match spec_ast(rest, OperationPrecedence::Default) {
                Err(e) => Err(e),
                Ok((e, r)) => if r.len() > 0 && r[0] is RightParenthesis {
                    Ok((Expr::Multiply(Box::new(left), Box::new(e)), r.drop_first()))
                } else {
                    Err(ParseErrorView::ParenthesisNotBalanced)
                },
            }
        } else {
            Err(ParseErrorView::InvalidOperator(tok_name(t)))
        }
    }
}

/// A whole expression: one that leaves a token other than EOF unread fails
/// on that token.
pub open spec fn spec_parse(ts: Seq<Tok>) -> Result<Expr, ParseErrorView> {
    match spec_ast(ts, OperationPrecedence::Default) {
        Err(e) => Err(e),
        Ok((e, r)) => if r.len() > 0 && !(r[0] is EOF) {
            Err(ParseErrorView::InvalidOperator(tok_name(r[0])))
        } else {
            Ok(e)
        },
    }
}

/// The tree of an input text, or why it has none.
pub open spec fn parse_text(s: Seq<char>) -> Result<Expr, ParseErrorView> {
    spec_parse(tokens_of(s))
}

/// A precedence-climbing parser that reads the tokens of its input with one
/// token of lookahead.
pub struct Parser {
    tokenizer: Tokenizer,
    lookahead: Option<Token>,
}

impl View for Parser {
    type V = Seq<Tok>;

    /// The tokens not yet consumed.
    closed spec fn view(&self) -> Seq<Tok> {
        match self.lookahead {
            Some(t) => seq![t@] + self.tokenizer@,
            None => seq![],
        }
    }
}

impl Parser {
    pub closed spec fn wf(&self) -> bool {
        &&& self.tokenizer.wf()
        &&& self.lookahead is None ==> self.tokenizer@.len() == 0
    }

    pub fn new(value: &str) -> (r: Parser)
        ensures
            r.wf(),
            r@ == tokens_of(value@),
    {
        let mut tokenizer = Tokenizer::new(value);
        let lookahead = tokenizer.next();
        let r = Parser { tokenizer, lookahead };
        proof {
            if lookahead is Some {
                assert(r@ =~= tokens_of(value@));
            }
        }
        r
    }

    /// Consumes the lookahead token and reads the next one.
    fn next_token(&mut self) -> (r: Option<Token>)
        requires
            old(self).wf(),
        ensures
            final(self).wf(),
            old(self)@.len() == 0 ==> r.is_none() && final(self)@ == old(self)@,
            old(self)@.len() > 0 ==> r.is_some() && r.unwrap()@ == old(self)@[0] && final(self)@
                == old(self)@.drop_first(),
    {
        let t = self.lookahead.take();
        self.lookahead = self.tokenizer.next();
        proof {
            if t is Some && self.lookahead is Some {
                assert(self@ =~= old(self)@.drop_first());
            }
        }
        t
    }

    /// Parses one whole expression from the tokens not yet consumed.
    pub fn parse(&mut self) -> (r: Result<Node, ParseError>)
        requires
            old(self).wf(),
        ensures
            final(self).wf(),
            match r {
                Ok(n) => spec_parse(old(self)@) == Ok::<Expr, ParseErrorView>(n@),
                Err(e) => spec_parse(old(self)@) == Err::<Expr, ParseErrorView>(e@),
            },
    {
        let n = match self.ast(OperationPrecedence::Default) {
            Ok(n) => n,
            Err(e) => return Err(e),
        };
        match &self.lookahead {
            Some(Token::EOF) => Ok(n),
            None => Ok(n),
            Some(t) => Err(ParseError::InvalidOperator(t.describe())),
        }
    }

    fn ast(&mut self, min: OperationPrecedence) -> (r: Result<Node, ParseError>)
        requires
            old(self).wf(),
        ensures
            final(self).wf(),
            final(self)@.len() <= old(self)@.len(),
            match r {
                Ok(n) => spec_ast(old(self)@, min) == Ok::<(Expr, Seq<Tok>), ParseErrorView>((n@, final(self)@)),
                Err(e) => spec_ast(old(self)@, min) == Err::<(Expr, Seq<Tok>), ParseErrorView>(e@),
            },
        decreases old(self)@.len(), 2int,
    {
        let mut left = match self.number() {
            Ok(n) => n,
            Err(e) => return Err(e),
        };
        loop
            invariant
                self.wf(),
                self@.len() < old(self)@.len(),
                spec_ast(old(self)@, min) == spec_loop(left@, self@, min),
            decreases self@.len(),
        {
            let stop = match &self.lookahead {
                Some(Token::EOF) => true,
                Some(t) => min.level() >= t.operation_precedence().level(),
                None => return Err(ParseError::UnableToParse("Unknown char".to_string())),
            };
            if stop {
                return Ok(left);
            }
            left = match self.operation(left) {
                Ok(n) => n,
                Err(e) => return Err(e),
            };
        }
    }

    fn number(&mut self) -> (r: Result<Node, ParseError>)
        requires
            old(self).wf(),
        ensures
            final(self).wf(),
            final(self)@.len() <= old(self)@.len(),
            r is Ok ==> final(self)@.len() < old(self)@.len(),
            match r {
                Ok(n) => spec_primary(old(self)@) == Ok::<(Expr, Seq<Tok>), ParseErrorView>((n@, final(self)@)),
                Err(e) => spec_primary(old(self)@) == Err::<(Expr, Seq<Tok>), ParseErrorView>(e@),
            },
        decreases old(self)@.len(), 0int,
    {
        let tok = match self.next_token() {
            Some(t) => t,
            None => return Err(ParseError::UnableToParse("Number parse error".to_string())),
        };
        match tok {
            Token::Plus => self.number(),
            Token::Minus => match self.number() {
                Ok(n) => Ok(Node::Negative(Box::new(n))),
                Err(e) => Err(e),
            },
            Token::Number(s) => Ok(Node::Element(s)),
            Token::LeftParenthesis => {
                let inner = match self.ast(OperationPrecedence::Default) {
                    Ok(n) => n,
                    Err(e) => return Err(e),
                };
                match self.next_token() {
                    Some(Token::RightParenthesis) => Ok(inner),
                    _ => Err(ParseError::ParenthesisNotBalanced),
                }
            },
            t => Err(ParseError::InvalidNumber(t.describe())),
        }
    }

    fn operation(&mut self, left: Node) -> (r: Result<Node, ParseError>)
        requires
            old(self).wf(),
        ensures
            final(self).wf(),
            final(self)@.len() <= old(self)@.len(),
            r is Ok ==> final(self)@.len() < old(self)@.len(),
            match r {
                Ok(n) => spec_operation(left@, old(self)@) == Ok::<(Expr, Seq<Tok>), ParseErrorView>((n@, final(self)@)),
                Err(e) => spec_operation(left@, old(self)@) == Err::<(Expr, Seq<Tok>), ParseErrorView>(e@),
            },
        decreases old(self)@.len(), 0int,
    {
        let tok = match self.next_token() {
            Some(t) => t,
            None => return Err(ParseError::UnableToParse("Operator parse error".to_string())),
        };
        let precedence = tok.operation_precedence();
        match tok {
            Token::Plus => match self.ast(precedence) {
                Ok(right) => Ok(Node::Sum(Box::new(left), Box::new(right))),
                Err(e) => Err(e),
            },
            Token::Minus => match self.ast(precedence) {
                Ok(right) => Ok(Node::Subtract(Box::new(left), Box::new(right))),
                Err(e) => Err(e),
            },
            Token::Asterisk => match self.ast(precedence) {
                Ok(right) => Ok(Node::Multiply(Box::new(left), Box::new(right))),
                Err(e) => Err(e),
            },
            Token::Slash => match self.ast(precedence) {
                Ok(right) => Ok(Node::Divide(Box::new(left), Box::new(right))),
                Err(e) => Err(e),
            },
            Token::Caret => match self.ast(precedence) {
                Ok(right) => Ok(Node::Power(Box::new(left), Box::new(right))),
                Err(e) => Err(e),
            },
            Token::LeftParenthesis => {
                let right = match self.ast(OperationPrecedence::Default) {
                    Ok(n) => n,
                    Err(e) => return Err(e),
                };
                match self.next_token() {
                    Some(Token::RightParenthesis) => Ok(Node::Multiply(Box::new(left), Box::new(right))),
                    _ => Err(ParseError::ParenthesisNotBalanced),
                }
            },
            t => Err(ParseError::InvalidOperator(t.describe())),
        }
    }
}

} // verus!
