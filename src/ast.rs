use vstd::prelude::*;

verus! {

/// An expression tree. A leaf keeps the text of its numeral; each inner node
/// owns its operands.
#[derive(Debug)]
pub enum Node {
    Element(String),
    Negative(Box<Node>),
    Sum(Box<Node>, Box<Node>),
    Subtract(Box<Node>, Box<Node>),
    Multiply(Box<Node>, Box<Node>),
    Divide(Box<Node>, Box<Node>),
    Power(Box<Node>, Box<Node>),
}

/// The mathematical value of an expression tree.
pub enum Expr {
    Element(Seq<char>),
    Negative(Box<Expr>),
    Sum(Box<Expr>, Box<Expr>),
    Subtract(Box<Expr>, Box<Expr>),
    Multiply(Box<Expr>, Box<Expr>),
    Divide(Box<Expr>, Box<Expr>),
    Power(Box<Expr>, Box<Expr>),
}

impl View for Node {
    type V = Expr;

    open spec fn view(&self) -> Expr
        decreases self,
    {
        match self {
            Node::Element(s) => Expr::Element(s@),
            Node::Negative(a) => Expr::Negative(Box::new((**a).view())),
            Node::Sum(a, b) => Expr::Sum(Box::new((**a).view()), Box::new((**b).view())),
            Node::Subtract(a, b) => Expr::Subtract(Box::new((**a).view()), Box::new((**b).view())),
            Node::Multiply(a, b) => Expr::Multiply(Box::new((**a).view()), Box::new((**b).view())),
            Node::Divide(a, b) => Expr::Divide(Box::new((**a).view()), Box::new((**b).view())),
            Node::Power(a, b) => Expr::Power(Box::new((**a).view()), Box::new((**b).view())),
        }
    }
}

impl PartialEq for Node {
    fn eq(&self, other: &Node) -> (r: bool)
        decreases self,
    {
        match (self, other) {
            (Node::Element(a), Node::Element(b)) => *a == *b,
            (Node::Negative(a), Node::Negative(b)) => (**a).eq(&**b),
            (Node::Sum(a, c), Node::Sum(b, d)) => (**a).eq(&**b) && (**c).eq(&**d),
            (Node::Subtract(a, c), Node::Subtract(b, d)) => (**a).eq(&**b) && (**c).eq(&**d),
            (Node::Multiply(a, c), Node::Multiply(b, d)) => (**a).eq(&**b) && (**c).eq(&**d),
            (Node::Divide(a, c), Node::Divide(b, d)) => (**a).eq(&**b) && (**c).eq(&**d),
            (Node::Power(a, c), Node::Power(b, d)) => (**a).eq(&**b) && (**c).eq(&**d),
            _ => false,
        }
    }
}

impl vstd::std_specs::cmp::PartialEqSpecImpl for Node {
    open spec fn obeys_eq_spec() -> bool {
        true
    }

    open spec fn eq_spec(&self, other: &Node) -> bool {
        self@ == other@
    }
}

} // verus!
