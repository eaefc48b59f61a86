use vstd::prelude::*;

verus! {

/// A lexical unit of an expression. A number keeps the text of its literal.
#[derive(Debug, Clone, PartialEq)]
pub enum Token {
    Add,
    Subtract,
    Multiply,
    Divide,
    Caret,
    LeftParen,
    RightParen,
    Num(String),
    EOF,
}

/// The mathematical model of a token.
pub ghost enum Tok {
    Add,
    Subtract,
    Multiply,
    Divide,
    Caret,
    LeftParen,
    RightParen,
    Num(Seq<char>),
    Eof,
}

impl View for Token {
    type V = Tok;

    open spec fn view(&self) -> Tok {
        match self {
            Token::Add => Tok::Add,
            Token::Subtract => Tok::Subtract,
            Token::Multiply => Tok::Multiply,
            Token::Divide => Tok::Divide,
            Token::Caret => Tok::Caret,
            Token::LeftParen => Tok::LeftParen,
            Token::RightParen => Tok::RightParen,
            Token::Num(s) => Tok::Num(s@),
            Token::EOF => Tok::Eof,
        }
    }
}

/// Binding strength of an operator, from the weakest to the strongest.
#[derive(Debug, Clone, Copy, PartialEq, Eq)]
pub enum OperPrec {
    DefaultZero,
    AddSub,
    MulDiv,
    Power,
    Negative,
}

impl OperPrec {
    pub open spec fn spec_rank(self) -> nat {
        match self {
            OperPrec::DefaultZero => 0,
            OperPrec::AddSub => 1,
            OperPrec::MulDiv => 2,
            OperPrec::Power => 3,
            OperPrec::Negative => 4,
        }
    }

    /// The position of this level in the order of binding strength.
    pub fn rank(self) -> (r: u8)
        ensures
            r as nat == self.spec_rank(),
    {
        match self {
            OperPrec::DefaultZero => 0,
            OperPrec::AddSub => 1,
            OperPrec::MulDiv => 2,
            OperPrec::Power => 3,
            OperPrec::Negative => 4,
        }
    }
}

/// The precedence of a token as an infix operator; tokens that are no
/// infix operator have the lowest level.
pub open spec fn tok_prec(t: Tok) -> OperPrec {
    match t {
        Tok::Add | Tok::Subtract => OperPrec::AddSub,
        Tok::Multiply | Tok::Divide => OperPrec::MulDiv,
        Tok::Caret => OperPrec::Power,
        _ => OperPrec::DefaultZero,
    }
}

/// The description of a token in error messages.
pub open spec fn token_name(t: Tok) -> Seq<char> {
    match t {
        Tok::Add => seq!['A', 'd', 'd'],
        Tok::Subtract => seq!['S', 'u', 'b', 't', 'r', 'a', 'c', 't'],
        Tok::Multiply => seq!['M', 'u', 'l', 't', 'i', 'p', 'l', 'y'],
        Tok::Divide => seq!['D', 'i', 'v', 'i', 'd', 'e'],
        Tok::Caret => seq!['C', 'a', 'r', 'e', 't'],
        Tok::LeftParen => seq!['L', 'e', 'f', 't', 'P', 'a', 'r', 'e', 'n'],
        Tok::RightParen => seq!['R', 'i', 'g', 'h', 't', 'P', 'a', 'r', 'e', 'n'],
        Tok::Num(d) => seq!['N', 'u', 'm', '('] + d + seq![')'],
        Tok::Eof => seq!['E', 'O', 'F'],
    }
}

impl Token {
    pub fn get_oper_prec(&self) -> (r: OperPrec)
        ensures
            r == tok_prec(self@),
    {
        match self {
            Token::Add | Token::Subtract => OperPrec::AddSub,
            Token::Multiply | Token::Divide => OperPrec::MulDiv,
            Token::Caret => OperPrec::Power,
            _ => OperPrec::DefaultZero,
        }
    }

    /// A short human-readable description of the token, for error messages.
    pub fn describe(&self) -> (r: String)
        ensures
            r@ == token_name(self@),
    {
        match self {
            Token::Add => {
                proof {
                    reveal_strlit("Add");
                }
                String::from_str("Add")
            },
            Token::Subtract => {
                proof {
                    reveal_strlit("Subtract");
                }
                String::from_str("Subtract")
            },
            Token::Multiply => {
                proof {
                    reveal_strlit("Multiply");
                }
                String::from_str("Multiply")
            },
            Token::Divide => {
                proof {
                    reveal_strlit("Divide");
                }
                String::from_str("Divide")
            },
            Token::Caret => {
                proof {
                    reveal_strlit("Caret");
                }
                String::from_str("Caret")
            },
            Token::LeftParen => {
                proof {
                    reveal_strlit("LeftParen");
                }
                String::from_str("LeftParen")
            },
            Token::RightParen => {
                proof {
                    reveal_strlit("RightParen");
                }
                String::from_str("RightParen")
            },
            Token::Num(s) => {
                let r = String::from_str("Num(").concat(s.as_str()).concat(")");
                proof {
                    reveal_strlit("Num(");
                    reveal_strlit(")");
                }
                r
            },
            Token::EOF => {
                proof {
                    reveal_strlit("EOF");
                }
                String::from_str("EOF")
            },
        }
    }
}

} // verus!
