use vstd::prelude::*;

use crate::token::{
    is_digit, is_space, lex_from, numeral_end, strip_spaces, symbol_tok, tokens_of, Tok,
};

verus! {

pub(crate) proof fn lemma_strip_no_spaces(s: Seq<char>)
    requires
        forall|i: int| 0 <= i < s.len() ==> !is_space(#[trigger] s[i]),
    ensures
        strip_spaces(s) == s,
    decreases s.len(),
{
    if s.len() > 0 {
        lemma_strip_no_spaces(s.drop_last());
        assert(s.drop_last().push(s.last()) =~= s);
    }
}

pub(crate) proof fn lemma_numeral_end(cs: Seq<char>, j: int, dot: bool)
    requires
        0 <= j <= cs.len(),
        forall|i: int| j <= i < cs.len() ==> is_digit(#[trigger] cs[i]) || cs[i] == '.',
        forall|i: int, k: int| j <= i < k < cs.len() && #[trigger] cs[i] == '.' ==> #[trigger] cs[k] != '.',
        dot ==> forall|i: int| j <= i < cs.len() ==> #[trigger] cs[i] != '.',
    ensures
        numeral_end(cs, j, dot) == cs.len(),
    decreases cs.len() - j,
{
    if j < cs.len() {
        if is_digit(cs[j]) {
            lemma_numeral_end(cs, j + 1, dot);
        } else {
            assert forall|i: int| j + 1 <= i < cs.len() implies #[trigger] cs[i] != '.' by {
                assert(cs[j] == '.');
            }
            lemma_numeral_end(cs, j + 1, true);
        }
    }
}

/// The tokens of a numeral that follows `pre`, a run of one-character
/// operators.
pub(crate) proof fn lemma_tokens_after_symbols(pre: Seq<char>, n: Seq<char>, toks: Seq<Tok>)
    requires
        is_numeral(n),
        pre.len() <= 2,
        forall|i: int| 0 <= i < pre.len() ==> pre[i] == '+' || pre[i] == '-',
        toks.len() == pre.len(),
        forall|i: int| 0 <= i < pre.len() ==> #[trigger] toks[i] == (if pre[i] == '+' {
            Tok::Plus
        } else {
            Tok::Minus
        }),
    ensures
        tokens_of(pre + n) == toks + seq![Tok::Number(n), Tok::EOF],
{
    let cs = pre + n;
    assert forall|i: int| 0 <= i < cs.len() implies !is_space(#[trigger] cs[i]) by {
        if i >= pre.len() {
            assert(cs[i] == n[i - pre.len()]);
        }
    }
    lemma_strip_no_spaces(cs);
    let p = pre.len() as int;
    assert forall|i: int| p + 1 <= i < cs.len() implies is_digit(#[trigger] cs[i]) || cs[i] == '.' by {
        assert(cs[i] == n[i - p]);
    }
    assert forall|i: int, k: int| p + 1 <= i < k < cs.len() && #[trigger] cs[i] == '.' implies #[trigger] cs[k]
        != '.' by {
        assert(cs[i] == n[i - p]);
        assert(cs[k] == n[k - p]);
    }
    lemma_numeral_end(cs, p + 1, false);
    assert(cs[p] == n[0]);
    assert(cs.subrange(p, cs.len() as int) =~= n);
    assert(is_digit(cs[p]));
    assert(lex_from(cs, cs.len() as int) == seq![Tok::EOF]);
    assert(lex_from(cs, p) == seq![Tok::Number(cs.subrange(p, cs.len() as int))] + lex_from(
        cs,
        cs.len() as int,
    ));
    assert(lex_from(cs, p) =~= seq![Tok::Number(n), Tok::EOF]);
    if pre.len() == 0 {
        assert(toks =~= seq![]);
        assert(toks + seq![Tok::Number(n), Tok::EOF] =~= seq![Tok::Number(n), Tok::EOF]);
    } else if pre.len() == 1 {
        assert(lex_from(cs, 0) == seq![toks[0]] + lex_from(cs, 1));
        assert(lex_from(cs, 0) =~= toks + seq![Tok::Number(n), Tok::EOF]);
    } else {
        assert(lex_from(cs, 1) == seq![toks[1]] + lex_from(cs, 2));
        assert(lex_from(cs, 0) == seq![toks[0]] + lex_from(cs, 1));
        assert(lex_from(cs, 0) =~= toks + seq![Tok::Number(n), Tok::EOF]);
    }
}

pub(crate) proof fn lemma_strip_concat(a: Seq<char>, b: Seq<char>)
    ensures
        strip_spaces(a + b) == strip_spaces(a) + strip_spaces(b),
    decreases b.len(),
{
    if b.len() == 0 {
        assert(a + b =~= a);
        assert(strip_spaces(a) + strip_spaces(b) =~= strip_spaces(a));
    } else {
        lemma_strip_concat(a, b.drop_last());
        assert((a + b).drop_last() =~= a + b.drop_last());
        assert((a + b).last() == b.last());
        if !is_space(b.last()) {
            assert(strip_spaces(a) + strip_spaces(b.drop_last()).push(b.last()) =~= (strip_spaces(a)
                + strip_spaces(b.drop_last())).push(b.last()));
        }
    }
}

pub(crate) proof fn lemma_strip_symbol(c: char)
    requires
        !is_space(c),
    ensures
        strip_spaces(seq![c]) == seq![c],
{
    assert(seq![c].drop_last() =~= Seq::<char>::empty());
    assert(seq![c].last() == c);
    assert(strip_spaces(Seq::<char>::empty()) == Seq::<char>::empty());
    assert(Seq::<char>::empty().push(c) =~= seq![c]);
}

/// The tokens of any text: all but EOF, or all but one final EOF.
pub(crate) proof fn lemma_lex_shape(cs: Seq<char>, i: int)
    ensures
        no_eof(lex_from(cs, i)) || (lex_from(cs, i).len() > 0 && lex_from(cs, i).last() == Tok::EOF
            && no_eof(lex_from(cs, i).drop_last())),
    decreases cs.len() - i,
{
    let l = lex_from(cs, i);
    if i < 0 || i >= cs.len() {
        assert(l.drop_last() =~= Seq::<Tok>::empty());
    } else if is_digit(cs[i]) {
        let j = numeral_end(cs, i + 1, false);
        if i < j <= cs.len() {
            lemma_lex_shape(cs, j);
            let t = lex_from(cs, j);
            if t.len() > 0 {
                assert(l.drop_last() =~= seq![l[0]] + t.drop_last());
            }
        }
    } else if symbol_tok(cs[i]) is Some {
        lemma_lex_shape(cs, i + 1);
        let t = lex_from(cs, i + 1);
        if t.len() > 0 {
            assert(l.drop_last() =~= seq![l[0]] + t.drop_last());
        }
    }
}

pub(crate) proof fn lemma_numeral_shift(pre: Seq<char>, d: Seq<char>, j: int, dot: bool)
    requires
        0 <= j,
    ensures
        numeral_end(pre + d, pre.len() + j, dot) == pre.len() + numeral_end(d, j, dot),
    decreases d.len() - j,
{
    if j < d.len() {
        assert((pre + d)[pre.len() + j] == d[j]);
        lemma_numeral_shift(pre, d, j + 1, dot);
        lemma_numeral_shift(pre, d, j + 1, true);
    }
}

pub(crate) proof fn lemma_lex_shift(pre: Seq<char>, d: Seq<char>, i: int)
    requires
        0 <= i,
    ensures
        lex_from(pre + d, pre.len() + i) == lex_from(d, i),
    decreases d.len() - i,
{
    let x = pre + d;
    let k = pre.len() + i;
    if i < d.len() {
        assert(x[k] == d[i]);
        if is_digit(d[i]) {
            lemma_numeral_shift(pre, d, i + 1, false);
            let j = numeral_end(d, i + 1, false);
            if i < j <= d.len() {
                assert(x.subrange(k, pre.len() + j) =~= d.subrange(i, j));
                lemma_lex_shift(pre, d, j);
            }
        } else {
            lemma_lex_shift(pre, d, i + 1);
        }
    }
}

pub(crate) proof fn lemma_numeral_before_close(cs: Seq<char>, d: Seq<char>, j: int, dot: bool)
    requires
        0 <= j <= cs.len(),
    ensures
        numeral_end(cs + seq![')'] + d, j, dot) == numeral_end(cs, j, dot),
    decreases cs.len() - j,
{
    let x = cs + seq![')'] + d;
    if j < cs.len() {
        assert(x[j] == cs[j]);
        lemma_numeral_before_close(cs, d, j + 1, dot);
        lemma_numeral_before_close(cs, d, j + 1, true);
    } else {
        assert(x[j] == ')');
    }
}

/// A closing parenthesis after text whose tokens end in EOF takes the place
/// of that EOF, and the tokens of what follows come after it.
pub(crate) proof fn lemma_lex_close(cs: Seq<char>, d: Seq<char>, i: int)
    requires
        0 <= i <= cs.len(),
        lex_from(cs, i).len() > 0,
        lex_from(cs, i).last() == Tok::EOF,
    ensures
        lex_from(cs + seq![')'] + d, i) == lex_from(cs, i).drop_last() + seq![Tok::RightParenthesis]
            + lex_from(d, 0),
    decreases cs.len() - i,
{
    let x = cs + seq![')'] + d;
    let l = lex_from(cs, i);
    if i == cs.len() {
        assert(x[i] == ')');
        assert(x =~= (cs + seq![')']) + d);
        lemma_lex_shift(cs + seq![')'], d, 0);
        assert(l.drop_last() =~= Seq::<Tok>::empty());
        assert(lex_from(x, i) == seq![Tok::RightParenthesis] + lex_from(x, i + 1));
        assert(lex_from(x, i) =~= l.drop_last() + seq![Tok::RightParenthesis] + lex_from(d, 0));
    } else {
        assert(x[i] == cs[i]);
        if is_digit(cs[i]) {
            lemma_numeral_before_close(cs, d, i + 1, false);
            let j = numeral_end(cs, i + 1, false);
            assert(i < j <= cs.len());
            assert(x.subrange(i, j) =~= cs.subrange(i, j));
            lemma_lex_close(cs, d, j);
            assert(lex_from(x, i) =~= l.drop_last() + seq![Tok::RightParenthesis] + lex_from(d, 0));
        } else {
            assert(symbol_tok(cs[i]) is Some);
            lemma_lex_close(cs, d, i + 1);
            assert(lex_from(x, i) =~= l.drop_last() + seq![Tok::RightParenthesis] + lex_from(d, 0));
        }
    }
}

/// A token sequence without EOF: the tokens of an expression's text before
/// its final EOF.
pub open spec fn no_eof(p: Seq<Tok>) -> bool {
    forall|i: int| 0 <= i < p.len() ==> !(#[trigger] p[i] is EOF)
}

/// A numeral as the tokenizer reads it: a digit, then digits and at most one
/// decimal point.
pub open spec fn is_numeral(n: Seq<char>) -> bool {
    &&& n.len() > 0
    &&& is_digit(n[0])
    &&& forall|i: int| 0 <= i < n.len() ==> is_digit(#[trigger] n[i]) || n[i] == '.'
    &&& forall|i: int, j: int| 0 <= i < j < n.len() && #[trigger] n[i] == '.' ==> #[trigger] n[j] != '.'
}

} // verus!
