use vstd::prelude::*;

use crate::ast::Expr;
use crate::lexer_lemmas::no_eof;
use crate::parser::{
    is_binary_operator, spec_ast, spec_loop, spec_operation, spec_parse, spec_primary, Step,
};
use crate::token::{tok_precedence, OperationPrecedence, Tok};

verus! {

/// Where the step on `q` followed by EOF succeeds, the step on `q` followed
/// by a closing parenthesis and `y` succeeds with the same tree, and stops at
/// the same place of `q`.
pub open spec fn is_suffix(r: Seq<Tok>, s: Seq<Tok>) -> bool {
    r.len() <= s.len() && r == s.subrange(s.len() - r.len(), s.len() as int)
}

pub(crate) proof fn lemma_suffix_trans(a: Seq<Tok>, b: Seq<Tok>, c: Seq<Tok>)
    requires
        is_suffix(a, b),
        is_suffix(b, c),
    ensures
        is_suffix(a, c),
{
    assert(a =~= c.subrange(c.len() - a.len(), c.len() as int));
}

pub(crate) proof fn lemma_suffix_drop_first(s: Seq<Tok>)
    requires
        s.len() > 0,
    ensures
        is_suffix(s.drop_first(), s),
{
    assert(s.drop_first() =~= s.subrange(1, s.len() as int));
}

pub(crate) proof fn lemma_suffix_refl(s: Seq<Tok>)
    ensures
        is_suffix(s, s),
{
    assert(s.subrange(0, s.len() as int) =~= s);
}

pub open spec fn stops_alike(q: Seq<Tok>, a: Step, b: Step, y: Seq<Tok>) -> bool {
    a is Ok ==> {
        let r = a->Ok_0.1;
        &&& is_suffix(r, q.push(Tok::EOF))
        &&& r.len() >= 1
        &&& r.last() == Tok::EOF
        &&& b == Ok::<(Expr, Seq<Tok>), crate::errors::ParseErrorView>((
            a->Ok_0.0,
            r.drop_last() + seq![Tok::RightParenthesis] + y,
        ))
    }
}

pub(crate) proof fn lemma_primary_stop(q: Seq<Tok>, y: Seq<Tok>)
    ensures
        stops_alike(
            q,
            spec_primary(q.push(Tok::EOF)),
            spec_primary(q + seq![Tok::RightParenthesis] + y),
            y,
        ),
    decreases q.len(), 0int,
{
    let ts1 = q.push(Tok::EOF);
    let ts2 = q + seq![Tok::RightParenthesis] + y;
    if q.len() > 0 {
        let q1 = q.drop_first();
        assert(ts1.drop_first() =~= q1.push(Tok::EOF));
        assert(ts2.drop_first() =~= q1 + seq![Tok::RightParenthesis] + y);
        assert(ts1[0] == ts2[0]);
        lemma_suffix_drop_first(ts1);
        match q[0] {
            Tok::Plus => {
                lemma_primary_stop(q1, y);
                let a = spec_primary(q1.push(Tok::EOF));
                if a is Ok {
                    lemma_suffix_trans(a->Ok_0.1, q1.push(Tok::EOF), ts1);
                }
            },
            Tok::Minus => {
                lemma_primary_stop(q1, y);
                let a = spec_primary(q1.push(Tok::EOF));
                if a is Ok {
                    lemma_suffix_trans(a->Ok_0.1, q1.push(Tok::EOF), ts1);
                }
            },
            Tok::Number(_) => {
                assert(q1.push(Tok::EOF).drop_last() =~= q1);
            },
            Tok::LeftParenthesis => {
                lemma_ast_stop(q1, y, OperationPrecedence::Default);
                let a = spec_ast(q1.push(Tok::EOF), OperationPrecedence::Default);
                if a is Ok {
                    let r = a->Ok_0.1;
                    let r2 = r.drop_last() + seq![Tok::RightParenthesis] + y;
                    if r.len() > 1 {
                        assert(r2[0] == r[0]);
                        assert(r2.drop_first() =~= r.drop_first().drop_last() + seq![
                            Tok::RightParenthesis,
                        ] + y);
                        lemma_suffix_drop_first(r);
                        lemma_suffix_trans(r.drop_first(), r, q1.push(Tok::EOF));
                        lemma_suffix_trans(r.drop_first(), q1.push(Tok::EOF), ts1);
                    }
                }
            },
            _ => {},
        }
    }
}

pub(crate) proof fn lemma_operation_stop(left: Expr, q: Seq<Tok>, y: Seq<Tok>)
    ensures
        stops_alike(
            q,
            spec_operation(left, q.push(Tok::EOF)),
            spec_operation(left, q + seq![Tok::RightParenthesis] + y),
            y,
        ),
    decreases q.len(), 0int,
{
    let ts1 = q.push(Tok::EOF);
    let ts2 = q + seq![Tok::RightParenthesis] + y;
    if q.len() > 0 {
        let q1 = q.drop_first();
        let t = q[0];
        assert(ts1.drop_first() =~= q1.push(Tok::EOF));
        assert(ts2.drop_first() =~= q1 + seq![Tok::RightParenthesis] + y);
        assert(ts1[0] == ts2[0]);
        lemma_suffix_drop_first(ts1);
        if is_binary_operator(t) {
            lemma_ast_stop(q1, y, tok_precedence(t));
            let a = spec_ast(q1.push(Tok::EOF), tok_precedence(t));
            if a is Ok {
                lemma_suffix_trans(a->Ok_0.1, q1.push(Tok::EOF), ts1);
            }
        } else if t is LeftParenthesis {
            lemma_ast_stop(q1, y, OperationPrecedence::Default);
            let a = spec_ast(q1.push(Tok::EOF), OperationPrecedence::Default);
            if a is Ok {
                let r = a->Ok_0.1;
                let r2 = r.drop_last() + seq![Tok::RightParenthesis] + y;
                if r.len() > 1 {
                    assert(r2[0] == r[0]);
                    assert(r2.drop_first() =~= r.drop_first().drop_last() + seq![
                        Tok::RightParenthesis,
                    ] + y);
                    lemma_suffix_drop_first(r);
                    lemma_suffix_trans(r.drop_first(), r, q1.push(Tok::EOF));
                    lemma_suffix_trans(r.drop_first(), q1.push(Tok::EOF), ts1);
                }
            }
        }
    }
}

pub(crate) proof fn lemma_loop_stop(left: Expr, q: Seq<Tok>, y: Seq<Tok>, min: OperationPrecedence)
    ensures
        stops_alike(
            q,
            spec_loop(left, q.push(Tok::EOF), min),
            spec_loop(left, q + seq![Tok::RightParenthesis] + y, min),
            y,
        ),
    decreases q.len(), 1int,
{
    let ts1 = q.push(Tok::EOF);
    let ts2 = q + seq![Tok::RightParenthesis] + y;
    assert(ts1.drop_last() =~= q);
    assert(ts1.subrange(0, ts1.len() as int) =~= ts1);
    if q.len() == 0 {
        assert(ts2 =~= seq![Tok::RightParenthesis] + y);
        assert(ts2[0] == Tok::RightParenthesis);
    } else {
        assert(ts1[0] == ts2[0]);
        if !(ts1[0] is EOF || min.rank() >= tok_precedence(ts1[0]).rank()) {
            lemma_operation_stop(left, q, y);
            let o = spec_operation(left, ts1);
            if o is Ok {
                let e = o->Ok_0.0;
                let r = o->Ok_0.1;
                let q2 = r.drop_last();
                assert(r =~= q2.push(Tok::EOF));
                if r.len() < ts1.len() {
                    lemma_loop_stop(e, q2, y, min);
                    let l = spec_loop(e, r, min);
                    if l is Ok {
                        lemma_suffix_trans(l->Ok_0.1, r, ts1);
                    }
                }
            }
        }
    }
}

pub(crate) proof fn lemma_ast_stop(q: Seq<Tok>, y: Seq<Tok>, min: OperationPrecedence)
    ensures
        stops_alike(
            q,
            spec_ast(q.push(Tok::EOF), min),
            spec_ast(q + seq![Tok::RightParenthesis] + y, min),
            y,
        ),
    decreases q.len(), 2int,
{
    let ts1 = q.push(Tok::EOF);
    lemma_primary_stop(q, y);
    let p = spec_primary(ts1);
    if p is Ok {
        let l = p->Ok_0.0;
        let r = p->Ok_0.1;
        let q2 = r.drop_last();
        assert(r =~= q2.push(Tok::EOF));
        if r.len() < ts1.len() {
            lemma_loop_stop(l, q2, y, min);
            let a = spec_loop(l, r, min);
            if a is Ok {
                lemma_suffix_trans(a->Ok_0.1, r, ts1);
            }
        }
    }
}

/// Where a step succeeds, what is left is a suffix of its input; an operand
/// or an operator consumes at least one token.
pub open spec fn consumes(ts: Seq<Tok>, a: Step, strict: bool) -> bool {
    a is Ok ==> {
        let r = a->Ok_0.1;
        &&& is_suffix(r, ts)
        &&& strict ==> r.len() < ts.len()
        &&& !strict ==> r.len() > 0
    }
}

pub(crate) proof fn lemma_primary_consumes(ts: Seq<Tok>)
    ensures
        consumes(ts, spec_primary(ts), true),
    decreases ts.len(), 0int,
{
    if ts.len() > 0 {
        let rest = ts.drop_first();
        lemma_suffix_drop_first(ts);
        match ts[0] {
            Tok::Plus => {
                lemma_primary_consumes(rest);
                let a = spec_primary(rest);
                if a is Ok {
                    lemma_suffix_trans(a->Ok_0.1, rest, ts);
                }
            },
            Tok::Minus => {
                lemma_primary_consumes(rest);
                let a = spec_primary(rest);
                if a is Ok {
                    lemma_suffix_trans(a->Ok_0.1, rest, ts);
                }
            },
            Tok::LeftParenthesis => {
                lemma_ast_consumes(rest, OperationPrecedence::Default);
                let a = spec_ast(rest, OperationPrecedence::Default);
                if a is Ok {
                    let r = a->Ok_0.1;
                    lemma_suffix_trans(r, rest, ts);
                    lemma_suffix_drop_first(r);
                    lemma_suffix_trans(r.drop_first(), r, ts);
                }
            },
            _ => {},
        }
    }
}

pub(crate) proof fn lemma_operation_consumes(left: Expr, ts: Seq<Tok>)
    ensures
        consumes(ts, spec_operation(left, ts), true),
    decreases ts.len(), 0int,
{
    if ts.len() > 0 {
        let t = ts[0];
        let rest = ts.drop_first();
        lemma_suffix_drop_first(ts);
        if is_binary_operator(t) {
            lemma_ast_consumes(rest, tok_precedence(t));
            let a = spec_ast(rest, tok_precedence(t));
            if a is Ok {
                lemma_suffix_trans(a->Ok_0.1, rest, ts);
            }
        } else if t is LeftParenthesis {
            lemma_ast_consumes(rest, OperationPrecedence::Default);
            let a = spec_ast(rest, OperationPrecedence::Default);
            if a is Ok {
                let r = a->Ok_0.1;
                lemma_suffix_trans(r, rest, ts);
                lemma_suffix_drop_first(r);
                lemma_suffix_trans(r.drop_first(), r, ts);
            }
        }
    }
}

pub(crate) proof fn lemma_loop_consumes(left: Expr, ts: Seq<Tok>, min: OperationPrecedence)
    ensures
        consumes(ts, spec_loop(left, ts, min), false),
    decreases ts.len(), 1int,
{
    lemma_suffix_refl(ts);
    if ts.len() > 0 && !(ts[0] is EOF || min.rank() >= tok_precedence(ts[0]).rank()) {
        lemma_operation_consumes(left, ts);
        let o = spec_operation(left, ts);
        if o is Ok {
            let r = o->Ok_0.1;
            if r.len() < ts.len() {
                lemma_loop_consumes(o->Ok_0.0, r, min);
                let l = spec_loop(o->Ok_0.0, r, min);
                if l is Ok {
                    lemma_suffix_trans(l->Ok_0.1, r, ts);
                }
            }
        }
    }
}

pub(crate) proof fn lemma_ast_consumes(ts: Seq<Tok>, min: OperationPrecedence)
    ensures
        consumes(ts, spec_ast(ts, min), false),
    decreases ts.len(), 2int,
{
    lemma_primary_consumes(ts);
    let p = spec_primary(ts);
    if p is Ok {
        let r = p->Ok_0.1;
        if r.len() < ts.len() {
            lemma_loop_consumes(p->Ok_0.0, r, min);
            let l = spec_loop(p->Ok_0.0, r, min);
            if l is Ok {
                lemma_suffix_trans(l->Ok_0.1, r, ts);
            }
        }
    }
}

/// A token sequence without EOF never parses.
pub(crate) proof fn lemma_parse_needs_eof(ts: Seq<Tok>)
    requires
        spec_parse(ts) is Ok,
    ensures
        !no_eof(ts),
{
    lemma_ast_consumes(ts, OperationPrecedence::Default);
    let r = spec_ast(ts, OperationPrecedence::Default)->Ok_0.1;
    assert(r[0] == ts[ts.len() - r.len()]);
}

/// An expression that parses on its own parses to the same tree where a
/// closing parenthesis stands after it, and stops at that parenthesis.
pub(crate) proof fn lemma_closed(p: Seq<Tok>, y: Seq<Tok>)
    requires
        no_eof(p),
        spec_parse(p.push(Tok::EOF)) is Ok,
    ensures
        spec_ast(p + seq![Tok::RightParenthesis] + y, OperationPrecedence::Default) == Ok::<
            (Expr, Seq<Tok>),
            crate::errors::ParseErrorView,
        >((spec_parse(p.push(Tok::EOF))->Ok_0, seq![Tok::RightParenthesis] + y)),
{
    let ts1 = p.push(Tok::EOF);
    lemma_ast_stop(p, y, OperationPrecedence::Default);
    let a = spec_ast(ts1, OperationPrecedence::Default);
    let r = a->Ok_0.1;
    if r.len() > 1 {
        let k = ts1.len() - r.len();
        assert(r[0] == ts1[k]);
        assert(ts1[k] == p[k]);
    }
    assert(r.drop_last() =~= seq![]);
    assert(seq![] + seq![Tok::RightParenthesis] + y =~= seq![Tok::RightParenthesis] + y);
}

} // verus!
