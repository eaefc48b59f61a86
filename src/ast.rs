use vstd::prelude::*;

verus! {

/// A node of the syntax tree. Each inner node owns its operands.
#[derive(Debug, PartialEq)]
pub enum Node {
    Add(Box<Node>, Box<Node>),
    Subtract(Box<Node>, Box<Node>),
    Multiply(Box<Node>, Box<Node>),
    Divide(Box<Node>, Box<Node>),
    Caret(Box<Node>, Box<Node>),
    Negative(Box<Node>),
    /// A number literal, as it was written.
    Number(String),
}

/// The mathematical model of a syntax tree.
pub ghost enum Expr {
    Add(Box<Expr>, Box<Expr>),
    Subtract(Box<Expr>, Box<Expr>),
    Multiply(Box<Expr>, Box<Expr>),
    Divide(Box<Expr>, Box<Expr>),
    Caret(Box<Expr>, Box<Expr>),
    Negative(Box<Expr>),
    Number(Seq<char>),
}

impl Node {
    /// The tree as a mathematical value.
    pub open spec fn model(&self) -> Expr
        decreases self,
    {
        match self {
            Node::Add(l, r) => Expr::Add(Box::new(l.model()), Box::new(r.model())),
            Node::Subtract(l, r) => Expr::Subtract(Box::new(l.model()), Box::new(r.model())),
            Node::Multiply(l, r) => Expr::Multiply(Box::new(l.model()), Box::new(r.model())),
            Node::Divide(l, r) => Expr::Divide(Box::new(l.model()), Box::new(r.model())),
            Node::Caret(l, r) => Expr::Caret(Box::new(l.model()), Box::new(r.model())),
            Node::Negative(e) => Expr::Negative(Box::new(e.model())),
            Node::Number(s) => Expr::Number(s@),
        }
    }
}

impl View for Node {
    type V = Expr;

    open spec fn view(&self) -> Expr {
        self.model()
    }
}

} // verus!
