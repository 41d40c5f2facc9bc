use vstd::prelude::*;

use crate::ast::Expr;
use crate::lexer_lemmas::{
    is_numeral, lemma_lex_close, lemma_lex_shape, lemma_lex_shift, lemma_strip_concat,
    lemma_strip_symbol, lemma_tokens_after_symbols, no_eof,
};
use crate::parser::{parse_text, spec_ast, spec_loop, spec_operation, spec_parse, spec_primary};
use crate::parser_lemmas::{lemma_closed, lemma_parse_needs_eof, lemma_primary_consumes};
use crate::token::{lex_from, strip_spaces, tokens_of, OperationPrecedence, Tok};

verus! {

/// A numeral on its own parses to a leaf that holds exactly that numeral.
pub proof fn lemma_single_number(n: Seq<char>)
    requires
        is_numeral(n),
    ensures
        parse_text(n) == Ok::<Expr, crate::errors::ParseErrorView>(Expr::Element(n)),
{
    lemma_tokens_after_symbols(seq![], n, seq![]);
    assert(seq![] + n =~= n);
    let ts = seq![Tok::Number(n), Tok::EOF];
    assert(ts.drop_first() =~= seq![Tok::EOF]);
    assert(spec_primary(ts) == Ok::<(Expr, Seq<Tok>), crate::errors::ParseErrorView>((Expr::Element(n), seq![Tok::EOF])));
}

/// Two unary minus signs before a numeral parse to the negation of its
/// negation.
pub proof fn lemma_double_negation(n: Seq<char>)
    requires
        is_numeral(n),
    ensures
        parse_text(seq!['-', '-'] + n) == Ok::<Expr, crate::errors::ParseErrorView>(
            Expr::Negative(Box::new(Expr::Negative(Box::new(Expr::Element(n))))),
        ),
{
    let toks = seq![Tok::Minus, Tok::Minus];
    lemma_tokens_after_symbols(seq!['-', '-'], n, toks);
    let ts = toks + seq![Tok::Number(n), Tok::EOF];
    let t1 = ts.drop_first();
    let t2 = t1.drop_first();
    let t3 = t2.drop_first();
    assert(t3 =~= seq![Tok::EOF]);
    assert(spec_primary(t2) == Ok::<(Expr, Seq<Tok>), crate::errors::ParseErrorView>((Expr::Element(n), t3)));
    assert(spec_primary(t1) == Ok::<(Expr, Seq<Tok>), crate::errors::ParseErrorView>((
        Expr::Negative(Box::new(Expr::Element(n))),
        t3,
    )));
}

/// A unary plus changes nothing: the text `+E` parses as `E` does, to the
/// same tree or the same error.
pub proof fn lemma_unary_plus(e: Seq<char>)
    ensures
        parse_text(seq!['+'] + e) == parse_text(e),
{
    let c = strip_spaces(e);
    lemma_strip_concat(seq!['+'], e);
    lemma_strip_symbol('+');
    let x = seq!['+'] + c;
    lemma_lex_shift(seq!['+'], c, 0);
    assert(x[0] == '+');
    let ts = lex_from(c, 0);
    let us = lex_from(x, 0);
    assert(us == seq![Tok::Plus] + ts);
    assert(us.drop_first() =~= ts);
    assert(spec_primary(us) == spec_primary(ts));
    lemma_primary_consumes(ts);
    assert(spec_ast(us, OperationPrecedence::Default) == spec_ast(ts, OperationPrecedence::Default));
}

/// Parentheses round an expression that parses change nothing: `(E)` parses
/// to the tree of `E`.
pub proof fn lemma_parenthesis_transparent(p: Seq<Tok>)
    requires
        no_eof(p),
        spec_parse(p.push(Tok::EOF)) is Ok,
    ensures
        spec_parse(seq![Tok::LeftParenthesis] + p + seq![Tok::RightParenthesis, Tok::EOF])
            == spec_parse(p.push(Tok::EOF)),
{
    let e = spec_parse(p.push(Tok::EOF))->Ok_0;
    let end = seq![Tok::EOF];
    lemma_closed(p, end);
    let ts = seq![Tok::LeftParenthesis] + p + seq![Tok::RightParenthesis, Tok::EOF];
    assert(ts.drop_first() =~= p + seq![Tok::RightParenthesis] + end);
    assert((seq![Tok::RightParenthesis] + end).drop_first() =~= end);
    assert(spec_primary(ts) == Ok::<(Expr, Seq<Tok>), crate::errors::ParseErrorView>((e, end)));
}

/// Parentheses round an expression that parses change nothing: the text
/// `(E)` parses to the tree of `E`.
pub proof fn lemma_parenthesis_transparent_text(e: Seq<char>)
    requires
        parse_text(e) is Ok,
    ensures
        parse_text(seq!['('] + e + seq![')']) == parse_text(e),
{
    let d = Seq::<char>::empty();
    lemma_parenthesised_tokens(e, d);
    let p = tokens_of(e).drop_last();
    lemma_parenthesis_transparent(p);
    lemma_strip_concat(seq!['('], e);
    lemma_strip_concat(seq!['('] + e, seq![')']);
    lemma_strip_symbol('(');
    lemma_strip_symbol(')');
    assert(seq!['('] + strip_spaces(e) + seq![')'] + d =~= seq!['('] + strip_spaces(e) + seq![')']);
    assert(lex_from(d, 0) == seq![Tok::EOF]);
    assert(seq![Tok::LeftParenthesis] + p + seq![Tok::RightParenthesis] + seq![Tok::EOF] =~= seq![
        Tok::LeftParenthesis,
    ] + p + seq![Tok::RightParenthesis, Tok::EOF]);
}

/// Two parenthesised expressions side by side multiply: `(A)(B)` parses to
/// the same tree as `(A)*(B)`, the product of the trees of `A` and `B`.
pub proof fn lemma_adjacent_multiplication(a: Seq<Tok>, b: Seq<Tok>)
    requires
        no_eof(a),
        no_eof(b),
        spec_parse(a.push(Tok::EOF)) is Ok,
        spec_parse(b.push(Tok::EOF)) is Ok,
    ensures
        spec_parse(
            seq![Tok::LeftParenthesis] + a + seq![Tok::RightParenthesis, Tok::LeftParenthesis] + b
                + seq![Tok::RightParenthesis, Tok::EOF],
        ) == Ok::<Expr, crate::errors::ParseErrorView>(
            Expr::Multiply(
                Box::new(spec_parse(a.push(Tok::EOF))->Ok_0),
                Box::new(spec_parse(b.push(Tok::EOF))->Ok_0),
            ),
        ),
        spec_parse(
            seq![Tok::LeftParenthesis] + a + seq![
                Tok::RightParenthesis,
                Tok::Asterisk,
                Tok::LeftParenthesis,
            ] + b + seq![Tok::RightParenthesis, Tok::EOF],
        ) == Ok::<Expr, crate::errors::ParseErrorView>(
            Expr::Multiply(
                Box::new(spec_parse(a.push(Tok::EOF))->Ok_0),
                Box::new(spec_parse(b.push(Tok::EOF))->Ok_0),
            ),
        ),
{
    let ea = spec_parse(a.push(Tok::EOF))->Ok_0;
    let eb = spec_parse(b.push(Tok::EOF))->Ok_0;
    let m = Expr::Multiply(Box::new(ea), Box::new(eb));
    let end = seq![Tok::EOF];
    lemma_closed(b, end);
    assert((seq![Tok::RightParenthesis] + end).drop_first() =~= end);
    assert(spec_loop(m, end, OperationPrecedence::Default) == Ok::<
        (Expr, Seq<Tok>),
        crate::errors::ParseErrorView,
    >((m, end)));
    // (A)(B)
    let y = seq![Tok::LeftParenthesis] + b + seq![Tok::RightParenthesis, Tok::EOF];
    lemma_closed(a, y);
    let ts = seq![Tok::LeftParenthesis] + a + seq![Tok::RightParenthesis, Tok::LeftParenthesis] + b
        + seq![Tok::RightParenthesis, Tok::EOF];
    assert(ts.drop_first() =~= a + seq![Tok::RightParenthesis] + y);
    assert((seq![Tok::RightParenthesis] + y).drop_first() =~= y);
    assert(y.drop_first() =~= b + seq![Tok::RightParenthesis] + end);
    assert(spec_primary(ts) == Ok::<(Expr, Seq<Tok>), crate::errors::ParseErrorView>((ea, y)));
    assert(spec_operation(ea, y) == Ok::<(Expr, Seq<Tok>), crate::errors::ParseErrorView>((m, end)));
    assert(spec_loop(ea, y, OperationPrecedence::Default) == Ok::<
        (Expr, Seq<Tok>),
        crate::errors::ParseErrorView,
    >((m, end)));
    // (A)*(B)
    let z = seq![Tok::Asterisk, Tok::LeftParenthesis] + b + seq![Tok::RightParenthesis, Tok::EOF];
    lemma_closed(a, z);
    let us = seq![Tok::LeftParenthesis] + a + seq![
        Tok::RightParenthesis,
        Tok::Asterisk,
        Tok::LeftParenthesis,
    ] + b + seq![Tok::RightParenthesis, Tok::EOF];
    assert(us.drop_first() =~= a + seq![Tok::RightParenthesis] + z);
    assert((seq![Tok::RightParenthesis] + z).drop_first() =~= z);
    let w = z.drop_first();
    assert(w =~= seq![Tok::LeftParenthesis] + b + seq![Tok::RightParenthesis, Tok::EOF]);
    assert(w.drop_first() =~= b + seq![Tok::RightParenthesis] + end);
    assert(spec_primary(w) == Ok::<(Expr, Seq<Tok>), crate::errors::ParseErrorView>((eb, end)));
    assert(spec_loop(eb, end, OperationPrecedence::MulDiv) == Ok::<
        (Expr, Seq<Tok>),
        crate::errors::ParseErrorView,
    >((eb, end)));
    assert(spec_ast(w, OperationPrecedence::MulDiv) == Ok::<
        (Expr, Seq<Tok>),
        crate::errors::ParseErrorView,
    >((eb, end)));
    assert(spec_operation(ea, z) == Ok::<(Expr, Seq<Tok>), crate::errors::ParseErrorView>((m, end)));
    assert(spec_primary(us) == Ok::<(Expr, Seq<Tok>), crate::errors::ParseErrorView>((ea, z)));
}

/// Two parenthesised expressions side by side multiply: the text `(A)(B)`
/// parses to the same tree as `(A)*(B)`, the product of the trees of `A`
/// and `B`.
pub proof fn lemma_adjacent_multiplication_text(a: Seq<char>, b: Seq<char>)
    requires
        parse_text(a) is Ok,
        parse_text(b) is Ok,
    ensures
        parse_text(seq!['('] + a + seq![')', '('] + b + seq![')']) == Ok::<
            Expr,
            crate::errors::ParseErrorView,
        >(Expr::Multiply(Box::new(parse_text(a)->Ok_0), Box::new(parse_text(b)->Ok_0))),
        parse_text(seq!['('] + a + seq![')', '*', '('] + b + seq![')']) == parse_text(
            seq!['('] + a + seq![')', '('] + b + seq![')'],
        ),
{
    let ca = strip_spaces(a);
    let cb = strip_spaces(b);
    let empty = Seq::<char>::empty();
    let db = seq!['('] + cb + seq![')'];
    let db2 = seq!['*'] + db;
    lemma_parenthesised_tokens(b, empty);
    assert(db + empty =~= db);
    assert(lex_from(empty, 0) == seq![Tok::EOF]);
    let pa = tokens_of(a).drop_last();
    let pb = tokens_of(b).drop_last();
    let tb = seq![Tok::LeftParenthesis] + pb + seq![Tok::RightParenthesis] + seq![Tok::EOF];
    assert(lex_from(db, 0) == tb);
    lemma_lex_shift(seq!['*'], db, 0);
    assert(db2[0] == '*');
    assert(lex_from(db2, 0) == seq![Tok::Asterisk] + tb);
    lemma_parenthesised_tokens(a, db);
    lemma_parenthesised_tokens(a, db2);
    lemma_adjacent_multiplication(pa, pb);
    lemma_strip_symbol('(');
    lemma_strip_symbol(')');
    lemma_strip_symbol('*');
    // (A)(B)
    let s1 = seq!['('] + a + seq![')', '('] + b + seq![')'];
    lemma_strip_concat(seq!['('], a);
    lemma_strip_concat(seq!['('] + a, seq![')']);
    lemma_strip_concat(seq!['('] + a + seq![')'], seq!['(']);
    lemma_strip_concat(seq!['('] + a + seq![')'] + seq!['('], b);
    lemma_strip_concat(seq!['('] + a + seq![')'] + seq!['('] + b, seq![')']);
    assert(s1 =~= seq!['('] + a + seq![')'] + seq!['('] + b + seq![')']);
    assert(strip_spaces(s1) =~= seq!['('] + ca + seq![')'] + db);
    assert(seq![Tok::LeftParenthesis] + pa + seq![Tok::RightParenthesis] + tb =~= seq![
        Tok::LeftParenthesis,
    ] + pa + seq![Tok::RightParenthesis, Tok::LeftParenthesis] + pb + seq![
        Tok::RightParenthesis,
        Tok::EOF,
    ]);
    // (A)*(B)
    let s2 = seq!['('] + a + seq![')', '*', '('] + b + seq![')'];
    lemma_strip_concat(seq!['('] + a + seq![')'], seq!['*']);
    lemma_strip_concat(seq!['('] + a + seq![')'] + seq!['*'], seq!['(']);
    lemma_strip_concat(seq!['('] + a + seq![')'] + seq!['*'] + seq!['('], b);
    lemma_strip_concat(seq!['('] + a + seq![')'] + seq!['*'] + seq!['('] + b, seq![')']);
    assert(s2 =~= seq!['('] + a + seq![')'] + seq!['*'] + seq!['('] + b + seq![')']);
    assert(strip_spaces(s2) =~= seq!['('] + ca + seq![')'] + db2);
    assert(seq![Tok::LeftParenthesis] + pa + seq![Tok::RightParenthesis] + (seq![Tok::Asterisk] + tb)
        =~= seq![Tok::LeftParenthesis] + pa + seq![
        Tok::RightParenthesis,
        Tok::Asterisk,
        Tok::LeftParenthesis,
    ] + pb + seq![Tok::RightParenthesis, Tok::EOF]);
}

/// The tokens of `(E)` followed by more text, for an expression `E` that parses.
proof fn lemma_parenthesised_tokens(e: Seq<char>, d: Seq<char>)
    requires
        parse_text(e) is Ok,
    ensures
        no_eof(tokens_of(e).drop_last()),
        tokens_of(e) == tokens_of(e).drop_last().push(Tok::EOF),
        spec_parse(tokens_of(e).drop_last().push(Tok::EOF)) is Ok,
        lex_from(seq!['('] + strip_spaces(e) + seq![')'] + d, 0) == seq![Tok::LeftParenthesis]
            + tokens_of(e).drop_last() + seq![Tok::RightParenthesis] + lex_from(d, 0),
{
    let c = strip_spaces(e);
    let l = lex_from(c, 0);
    lemma_parse_needs_eof(l);
    lemma_lex_shape(c, 0);
    assert(l =~= l.drop_last().push(Tok::EOF));
    let x = seq!['('] + c + seq![')'] + d;
    assert(x =~= seq!['('] + (c + seq![')'] + d));
    lemma_lex_shift(seq!['('], c + seq![')'] + d, 0);
    lemma_lex_close(c, d, 0);
    assert(x[0] == '(');
    assert(lex_from(x, 0) == seq![Tok::LeftParenthesis] + lex_from(x, 1));
    assert(lex_from(x, 0) =~= seq![Tok::LeftParenthesis] + l.drop_last() + seq![
        Tok::RightParenthesis,
    ] + lex_from(d, 0));
}

} // verus!
