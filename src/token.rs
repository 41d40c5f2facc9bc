use vstd::prelude::*;

verus! {

/// Binding strength of an operator token, weakest first.
#[derive(PartialEq, Eq, Structural, Debug, Clone, Copy)]
pub enum OperationPrecedence {
    Default,
    AddSub,
    MulDiv,
    Power,
}

impl OperationPrecedence {
    /// The position of a precedence level in the order Default < AddSub < MulDiv < Power.
    pub open spec fn rank(self) -> nat {
        match self {
            OperationPrecedence::Default => 0,
            OperationPrecedence::AddSub => 1,
            OperationPrecedence::MulDiv => 2,
            OperationPrecedence::Power => 3,
        }
    }

    pub fn level(&self) -> (r: u8)
        ensures
            r as nat == self.rank(),
    {
        match self {
            OperationPrecedence::Default => 0,
            OperationPrecedence::AddSub => 1,
            OperationPrecedence::MulDiv => 2,
            OperationPrecedence::Power => 3,
        }
    }
}

/// A lexical token. A number keeps the text of its numeral.
#[derive(Debug)]
pub enum Token {
    Number(String),
    Plus,
    Minus,
    Asterisk,
    Slash,
    Caret,
    LeftParenthesis,
    RightParenthesis,
    EOF,
}

/// The mathematical value of a token.
pub enum Tok {
    Number(Seq<char>),
    Plus,
    Minus,
    Asterisk,
    Slash,
    Caret,
    LeftParenthesis,
    RightParenthesis,
    EOF,
}

impl View for Token {
    type V = Tok;

    open spec fn view(&self) -> Tok {
        match self {
            Token::Number(s) => Tok::Number(s@),
            Token::Plus => Tok::Plus,
            Token::Minus => Tok::Minus,
            Token::Asterisk => Tok::Asterisk,
            Token::Slash => Tok::Slash,
            Token::Caret => Tok::Caret,
            Token::LeftParenthesis => Tok::LeftParenthesis,
            Token::RightParenthesis => Tok::RightParenthesis,
            Token::EOF => Tok::EOF,
        }
    }
}

impl PartialEq for Token {
    fn eq(&self, other: &Token) -> (r: bool) {
        match (self, other) {
            (Token::Number(a), Token::Number(b)) => *a == *b,
            (Token::Plus, Token::Plus) => true,
            (Token::Minus, Token::Minus) => true,
            (Token::Asterisk, Token::Asterisk) => true,
            (Token::Slash, Token::Slash) => true,
            (Token::Caret, Token::Caret) => true,
            (Token::LeftParenthesis, Token::LeftParenthesis) => true,
            (Token::RightParenthesis, Token::RightParenthesis) => true,
            (Token::EOF, Token::EOF) => true,
            _ => false,
        }
    }
}

impl vstd::std_specs::cmp::PartialEqSpecImpl for Token {
    open spec fn obeys_eq_spec() -> bool {
        true
    }

    open spec fn eq_spec(&self, other: &Token) -> bool {
        self@ == other@
    }
}

/// The precedence level of a token: operators bind by their level, and an
/// opening parenthesis in operator position binds as a multiplication.
pub open spec fn tok_precedence(t: Tok) -> OperationPrecedence {
    match t {
        Tok::Plus | Tok::Minus => OperationPrecedence::AddSub,
        Tok::Asterisk | Tok::Slash | Tok::LeftParenthesis => OperationPrecedence::MulDiv,
        Tok::Caret => OperationPrecedence::Power,
        _ => OperationPrecedence::Default,
    }
}

/// How a token is named in error messages.
pub open spec fn tok_name(t: Tok) -> Seq<char> {
    match t {
        Tok::Number(s) => "Number("@ + s + ")"@,
        Tok::Plus => "Plus"@,
        Tok::Minus => "Minus"@,
        Tok::Asterisk => "Asterisk"@,
        Tok::Slash => "Slash"@,
        Tok::Caret => "Caret"@,
        Tok::LeftParenthesis => "LeftParenthesis"@,
        Tok::RightParenthesis => "RightParenthesis"@,
        Tok::EOF => "EOF"@,
    }
}

impl Token {
    pub fn operation_precedence(&self) -> (r: OperationPrecedence)
        ensures
            r == tok_precedence(self@),
    {
        match self {
            Token::Plus | Token::Minus => OperationPrecedence::AddSub,
            Token::Asterisk | Token::Slash | Token::LeftParenthesis => OperationPrecedence::MulDiv,
            Token::Caret => OperationPrecedence::Power,
            _ => OperationPrecedence::Default,
        }
    }

    /// The token's name as error messages show it.
    pub fn describe(&self) -> (r: String)
        ensures
            r@ == tok_name(self@),
    {
        match self {
            Token::Number(s) => {
                let mut r = "Number(".to_string();
                r.append(s.as_str());
                r.append(")");
                r
            },
            Token::Plus => "Plus".to_string(),
            Token::Minus => "Minus".to_string(),
            Token::Asterisk => "Asterisk".to_string(),
            Token::Slash => "Slash".to_string(),
            Token::Caret => "Caret".to_string(),
            Token::LeftParenthesis => "LeftParenthesis".to_string(),
            Token::RightParenthesis => "RightParenthesis".to_string(),
            Token::EOF => "EOF".to_string(),
        }
    }
}


/// ASCII whitespace, which the tokenizer drops before it reads the input.
pub open spec fn is_space(c: char) -> bool {
    c == ' ' || c == '\t' || c == '\n' || c == '\x0C' || c == '\r'
}

pub open spec fn is_digit(c: char) -> bool {
    '0' <= c <= '9'
}

/// The input with its whitespace removed.
pub open spec fn strip_spaces(s: Seq<char>) -> Seq<char>
    decreases s.len(),
{
    if s.len() == 0 {
        s
    } else if is_space(s.last()) {
        strip_spaces(s.drop_last())
    } else {
        strip_spaces(s.drop_last()).push(s.last())
    }
}

/// Where a numeral that continues at `j` ends: digits, and at most one
/// decimal point over the whole numeral (`dot` says whether one was seen).
pub open spec fn numeral_end(cs: Seq<char>, j: int, dot: bool) -> int
    decreases cs.len() - j,
{
    if 0 <= j < cs.len() && is_digit(cs[j]) {
        numeral_end(cs, j + 1, dot)
    } else if 0 <= j < cs.len() && cs[j] == '.' && !dot {
        numeral_end(cs, j + 1, true)
    } else {
        j
    }
}

/// The token of a one-character operator or parenthesis.
pub open spec fn symbol_tok(c: char) -> Option<Tok> {
    if c == '+' {
        Some(Tok::Plus)
    } else if c == '-' {
        Some(Tok::Minus)
    } else if c == '*' {
        Some(Tok::Asterisk)
    } else if c == '/' {
        Some(Tok::Slash)
    } else if c == '^' {
        Some(Tok::Caret)
    } else if c == '(' {
        Some(Tok::LeftParenthesis)
    } else if c == ')' {
        Some(Tok::RightParenthesis)
    } else {
        None
    }
}

/// The tokens read from position `i` of whitespace-free text: one EOF at the
/// end, and nothing more from an unrecognised character on.
pub open spec fn lex_from(cs: Seq<char>, i: int) -> Seq<Tok>
    decreases cs.len() - i,
{
    if i < 0 || i >= cs.len() {
        seq![Tok::EOF]
    } else if is_digit(cs[i]) {
        let j = numeral_end(cs, i + 1, false);
        if i < j <= cs.len() {
            seq![Tok::Number(cs.subrange(i, j))] + lex_from(cs, j)
        } else {
            seq![]
        }
    } else {
        match symbol_tok(cs[i]) {
            Some(t) => seq![t] + lex_from(cs, i + 1),
            None => seq![],
        }
    }
}

/// The whole token sequence of an input text.
pub open spec fn tokens_of(s: Seq<char>) -> Seq<Tok> {
    lex_from(strip_spaces(s), 0)
}

/// Relies on String::push: it appends one character to the string.
#[verifier::external_body]
fn push_char(s: &mut String, c: char)
    ensures
        final(s)@ == old(s)@.push(c),
{
    s.push(c)
}

/// A cursor over the characters of an input that yields its tokens one at a
/// time, and nothing after the EOF token or an unrecognised character.
pub struct Tokenizer {
    chars: Vec<char>,
    pos: usize,
    finished: bool,
}

/// The tokens still to come from a tokenizer state.
pub open spec fn pending(cs: Seq<char>, pos: int, finished: bool) -> Seq<Tok> {
    if finished {
        seq![]
    } else {
        lex_from(cs, pos)
    }
}

impl View for Tokenizer {
    type V = Seq<Tok>;

    closed spec fn view(&self) -> Seq<Tok> {
        pending(self.chars@, self.pos as int, self.finished)
    }
}

impl Tokenizer {
    pub closed spec fn wf(&self) -> bool {
        self.pos <= self.chars@.len()
    }

    pub fn new(expression: &str) -> (r: Tokenizer)
        ensures
            r.wf(),
            r@ == tokens_of(expression@),
    {
        let n = expression.unicode_len();
        let mut chars: Vec<char> = Vec::new();
        let mut i: usize = 0;
        while i < n
            invariant
                n == expression@.len(),
                i <= n,
                chars@ == strip_spaces(expression@.subrange(0, i as int)),
            decreases n - i,
        {
            let c = expression.get_char(i);
            proof {
                let pre = expression@.subrange(0, i as int + 1);
                assert(pre.drop_last() =~= expression@.subrange(0, i as int));
            }
            if !(c == ' ' || c == '\t' || c == '\n' || c == '\x0C' || c == '\r') {
                chars.push(c);
            }
            i = i + 1;
        }
        proof {
            assert(expression@.subrange(0, n as int) =~= expression@);
        }
        Tokenizer { chars, pos: 0, finished: false }
    }

    /// Reads the next token without moving: the token, and the position and
    /// finished flag that follow it.
    fn scan(&self) -> (r: (Option<Token>, usize, bool))
        requires
            self.wf(),
        ensures
            r.1 <= self.chars@.len(),
            self@.len() == 0 ==> r.0.is_none() && pending(self.chars@, r.1 as int, r.2) == self@,
            self@.len() > 0 ==> r.0.is_some() && r.0.unwrap()@ == self@[0] && pending(
                self.chars@,
                r.1 as int,
                r.2,
            ) == self@.drop_first(),
    {
        let len = self.chars.len();
        let pos = self.pos;
        if self.finished {
            return (None, pos, true);
        }
        if pos >= len {
            return (Some(Token::EOF), pos, true);
        }
        let ghost cs = self.chars@;
        let c = self.chars[pos];
        if '0' <= c && c <= '9' {
            let mut s = String::new();
            push_char(&mut s, c);
            let mut j: usize = pos + 1;
            let mut dot = false;
            loop
                invariant
                    len == cs.len(),
                    cs == self.chars@,
                    pos < j <= len,
                    s@ == cs.subrange(pos as int, j as int),
                    numeral_end(cs, j as int, dot) == numeral_end(cs, pos + 1, false),
                ensures
                    numeral_end(cs, j as int, dot) == j,
                decreases len - j,
            {
                if j < len && '0' <= self.chars[j] && self.chars[j] <= '9' {
                    push_char(&mut s, self.chars[j]);
                    j = j + 1;
                } else if j < len && self.chars[j] == '.' && !dot {
                    push_char(&mut s, self.chars[j]);
                    j = j + 1;
                    dot = true;
                } else {
                    break;
                }
                assert(s@ =~= cs.subrange(pos as int, j as int));
            }
            proof {
                assert(numeral_end(cs, j as int, dot) == j as int);
                assert(self@ == lex_from(cs, pos as int));
                assert(self@ == seq![Tok::Number(cs.subrange(pos as int, j as int))] + lex_from(cs, j as int));
                assert(self@.drop_first() =~= lex_from(cs, j as int));
            }
            return (Some(Token::Number(s)), j, false);
        }
        let t = if c == '+' {
            Token::Plus
        } else if c == '-' {
            Token::Minus
        } else if c == '*' {
            Token::Asterisk
        } else if c == '/' {
            Token::Slash
        } else if c == '^' {
            Token::Caret
        } else if c == '(' {
            Token::LeftParenthesis
        } else if c == ')' {
            Token::RightParenthesis
        } else {
            return (None, pos, true);
        };
        proof {
            assert(self@.drop_first() =~= lex_from(cs, pos + 1));
        }
        (Some(t), pos + 1, false)
    }

    /// The next token, without consuming it.
    pub fn peek(&self) -> (r: Option<Token>)
        requires
            self.wf(),
        ensures
            self@.len() == 0 ==> r.is_none(),
            self@.len() > 0 ==> r.is_some() && r.unwrap()@ == self@[0],
    {
        self.scan().0
    }

    /// Consumes and returns the next token.
    pub fn next(&mut self) -> (r: Option<Token>)
        requires
            old(self).wf(),
        ensures
            final(self).wf(),
            old(self)@.len() == 0 ==> r.is_none() && final(self)@ == old(self)@,
            old(self)@.len() > 0 ==> r.is_some() && r.unwrap()@ == old(self)@[0] && final(self)@
                == old(self)@.drop_first(),
    {
        let (t, p, f) = self.scan();
        self.pos = p;
        self.finished = f;
        t
    }
}

} // verus!
