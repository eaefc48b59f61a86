use vstd::prelude::*;
use crate::ast::{Expr, Node};
use crate::token::{OperPrec, Tok, Token, tok_prec, token_name};
use crate::tokenizer::{Tokenizer, lex};

verus! {

/// Why a parse failed.
#[derive(Debug)]
pub enum ParseError {
    /// The current token cannot begin an operand.
    UnableToParse(String),
    /// A token is missing or out of place, or the text holds a character
    /// that begins no token.
    InvalidOperator(String),
}

/// A parse failure with its message, as a mathematical value.
pub ghost enum Failure {
    UnableToParse(Seq<char>),
    InvalidOperator(Seq<char>),
}

/// The failure of a text with a character that begins no token.
pub open spec fn invalid_character() -> Failure {
    Failure::InvalidOperator("Invalid character"@)
}

/// The failure of a token that cannot begin an operand.
pub open spec fn unable_to_parse() -> Failure {
    Failure::UnableToParse("Unable to parse"@)
}

impl ParseError {
    pub open spec fn failure(&self) -> Failure {
        match self {
            ParseError::UnableToParse(m) => Failure::UnableToParse(m@),
            ParseError::InvalidOperator(m) => Failure::InvalidOperator(m@),
        }
    }
}

/// What a parsing step yields: a tree and the tokens after it, or a failure.
pub type Parsed = Result<(Expr, Seq<Tok>), Failure>;

pub open spec fn is_binary(t: Tok) -> bool {
    t is Add || t is Subtract || t is Multiply || t is Divide || t is Caret
}

/// The tree that the binary operator `t` builds from its two operands.
pub open spec fn binary_node(t: Tok, l: Expr, r: Expr) -> Expr {
    match t {
        Tok::Add => Expr::Add(Box::new(l), Box::new(r)),
        Tok::Subtract => Expr::Subtract(Box::new(l), Box::new(r)),
        Tok::Multiply => Expr::Multiply(Box::new(l), Box::new(r)),
        Tok::Divide => Expr::Divide(Box::new(l), Box::new(r)),
        _ => Expr::Caret(Box::new(l), Box::new(r)),
    }
}

/// The level at which the right operand of the binary operator `t` is
/// parsed: its own level, but for `^`, whose exponent takes in further
/// powers so that powers group from the right.
pub open spec fn operand_prec(t: Tok) -> OperPrec {
    if t is Caret {
        OperPrec::MulDiv
    } else {
        tok_prec(t)
    }
}

/// An expression at the start of `ts` whose infix operators all bind more
/// strongly than `prec`: an operand, followed by as many such operators as
/// follow, each with its right operand, grouped from the left.
/// The length tests in this and the next functions only make the recursion
/// visibly finite: `lemma_parse_at_consumes` shows that they always hold.
pub open spec fn parse_at(ts: Seq<Tok>, prec: OperPrec) -> Parsed
    decreases ts.len(), 2nat,
{
    match parse_primary(ts) {
        Ok((left, rest)) => if rest.len() <= ts.len() {
            fold_ops(left, rest, prec)
        } else {
            Ok((left, rest))
        },
        Err(f) => Err(f),
    }
}

/// An operand: a number, a negated operand, or a parenthesized expression,
/// which multiplies a directly following parenthesized group.
/// Consuming a token fails where no token follows it.
pub open spec fn parse_primary(ts: Seq<Tok>) -> Parsed
    decreases ts.len(), 0nat,
{
    if ts.len() == 0 || !(ts[0] is Subtract || ts[0] is Num || ts[0] is LeftParen) {
        Err(unable_to_parse())
    } else if ts.len() < 2 {
        Err(invalid_character())
    } else {
        match ts[0] {
            Tok::Num(d) => Ok((Expr::Number(d), ts.drop_first())),
            Tok::Subtract => match parse_at(ts.drop_first(), OperPrec::Negative) {
                Ok((e, r)) => Ok((Expr::Negative(Box::new(e)), r)),
                Err(f) => Err(f),
            },
            _ => match parse_at(ts.drop_first(), OperPrec::DefaultZero) {
                Ok((inner, r)) => if r.len() == 0 || !(r[0] is RightParen) {
                    Err(Failure::InvalidOperator("Expected RightParen, got "@ + token_name(r[0])))
                } else if r.len() < 2 {
                    Err(invalid_character())
                } else {
                    let r2 = r.drop_first();
                    if r2[0] is LeftParen && r2.len() < ts.len() {
                        match parse_at(r2, OperPrec::MulDiv) {
                            Ok((right, r3)) => Ok(
                                (Expr::Multiply(Box::new(inner), Box::new(right)), r3),
                            ),
                            Err(f) => Err(f),
                        }
                    } else {
                        Ok((inner, r2))
                    }
                },
                Err(f) => Err(f),
            },
        }
    }
}

/// Folds into `left` each infix operator at the start of `ts` that binds
/// more strongly than `prec`, with its right operand.
pub open spec fn fold_ops(left: Expr, ts: Seq<Tok>, prec: OperPrec) -> Parsed
    decreases ts.len(), 1nat,
{
    if ts.len() > 0 && prec.spec_rank() < tok_prec(ts[0]).spec_rank() {
        match combine(left, ts) {
            Ok((e, r)) => if r.len() < ts.len() {
                fold_ops(e, r, prec)
            } else {
                Ok((e, r))
            },
            Err(f) => Err(f),
        }
    } else {
        Ok((left, ts))
    }
}

/// Applies the binary operator at the start of `ts` to `left` and to the
/// operand that follows it, parsed at `operand_prec` of the operator.
pub open spec fn combine(left: Expr, ts: Seq<Tok>) -> Parsed
    decreases ts.len(), 0nat,
{
    if ts.len() == 0 || !is_binary(ts[0]) {
        Err(Failure::InvalidOperator("Please enter valid operator "@ + token_name(ts[0])))
    } else if ts.len() < 2 {
        Err(invalid_character())
    } else {
        match parse_at(ts.drop_first(), operand_prec(ts[0])) {
            Ok((right, r)) => Ok((binary_node(ts[0], left, right), r)),
            Err(f) => Err(f),
        }
    }
}

/// The tree of a whole text, or why there is none.
pub open spec fn parse_text(s: Seq<char>) -> Result<Expr, Failure> {
    if lex(s).len() == 0 {
        Err(invalid_character())
    } else {
        match parse_at(lex(s), OperPrec::DefaultZero) {
            Ok((e, _)) => Ok(e),
            Err(f) => Err(f),
        }
    }
}

/// `r` is the outcome `p`, and `after` the tokens left after it.
pub open spec fn agrees(r: Result<Node, ParseError>, p: Parsed, after: Seq<Tok>) -> bool {
    match p {
        Ok((e, rest)) => r is Ok && r->Ok_0@ == e && after == rest,
        Err(f) => r is Err && r->Err_0.failure() == f,
    }
}

/// A parser that pulls tokens one at a time and builds the tree by
/// precedence climbing.
pub struct Parser<'a> {
    tokenizer: Tokenizer<'a>,
    current_token: Token,
}

impl<'a> Parser<'a> {
    pub closed spec fn wf(&self) -> bool {
        self.tokenizer.wf()
    }

    /// The current token, followed by those still to come.
    pub closed spec fn stream(&self) -> Seq<Tok> {
        seq![self.current_token@] + self.tokenizer.remaining()
    }

    /// A parser positioned on the first token of `expr`; fails where the
    /// first character begins no token.
    pub fn new(expr: &'a str) -> (r: Result<Self, ParseError>)
        ensures
            match r {
                Ok(p) => lex(expr@).len() > 0 && p.wf() && p.stream() == lex(expr@),
                Err(e) => lex(expr@).len() == 0 && e.failure() == invalid_character(),
            },
    {
        let mut lexer = Tokenizer::new(expr);
        let cur_token = match lexer.next() {
            Some(token) => token,
            None => return Err(ParseError::InvalidOperator(String::from_str("Invalid character"))),
        };
        let p = Parser { tokenizer: lexer, current_token: cur_token };
        assert(p.stream() =~= lex(expr@));
        Ok(p)
    }

    /// Parses an expression from the current token on; tokens after it
    /// are left unread.
    pub fn parse(&mut self) -> (r: Result<Node, ParseError>)
        requires
            old(self).wf(),
        ensures
            final(self).wf(),
            agrees(r, parse_at(old(self).stream(), OperPrec::DefaultZero), final(self).stream()),
    {
        let ast = self.generate_ast(OperPrec::DefaultZero);
        match ast {
            Ok(ast) => Ok(ast),
            Err(e) => Err(e),
        }
    }

    fn get_next_token(&mut self) -> (r: Result<(), ParseError>)
        requires
            old(self).wf(),
        ensures
            final(self).wf(),
            old(self).stream().len() > 1 ==> r is Ok && final(self).stream()
                == old(self).stream().drop_first(),
            old(self).stream().len() <= 1 ==> r is Err && r->Err_0.failure()
                == invalid_character() && final(self).stream() == old(self).stream(),
    {
        let next_token = match self.tokenizer.next() {
            Some(token) => token,
            None => {
                assert(self.stream() =~= old(self).stream());
                return Err(ParseError::InvalidOperator(String::from_str("Invalid character")));
            },
        };
        self.current_token = next_token;
        assert(self.stream() =~= old(self).stream().drop_first());
        Ok(())
    }

    fn generate_ast(&mut self, oper_prec: OperPrec) -> (r: Result<Node, ParseError>)
        requires
            old(self).wf(),
        ensures
            final(self).wf(),
            agrees(r, parse_at(old(self).stream(), oper_prec), final(self).stream()),
            r is Ok ==> final(self).stream().len() < old(self).stream().len(),
        decreases old(self).stream().len(), 2nat,
    {
        let ghost ts = self.stream();
        let mut left_expr = self.parse_number()?;
        let ghost target = parse_at(ts, oper_prec);
        assert(target == fold_ops(left_expr@, self.stream(), oper_prec));
        loop
            invariant
                self.wf(),
                ts == old(self).stream(),
                self.stream().len() < ts.len(),
                target == parse_at(ts, oper_prec),
                target == fold_ops(left_expr@, self.stream(), oper_prec),
            ensures
                self.wf(),
                self.stream().len() < ts.len(),
                target == Ok::<(Expr, Seq<Tok>), Failure>((left_expr@, self.stream())),
            decreases self.stream().len(),
        {
            assert(self.stream()[0] == self.current_token@);
            if !(oper_prec.rank() < self.current_token.get_oper_prec().rank()) {
                break;
            }
            if matches!(self.current_token, Token::EOF) {
                break;
            }
            left_expr = self.convert_token_to_node(left_expr)?;
        }
        Ok(left_expr)
    }

    fn parse_number(&mut self) -> (r: Result<Node, ParseError>)
        requires
            old(self).wf(),
        ensures
            final(self).wf(),
            agrees(r, parse_primary(old(self).stream()), final(self).stream()),
            r is Ok ==> final(self).stream().len() < old(self).stream().len(),
            !(old(self).stream()[0] is Subtract || old(self).stream()[0] is Num
                || old(self).stream()[0] is LeftParen) ==> final(self).stream() == old(
                self,
            ).stream(),
        decreases old(self).stream().len(), 0nat,
    {
        match &self.current_token {
            Token::Subtract => {
                self.get_next_token()?;
                let expr = self.generate_ast(OperPrec::Negative)?;
                Ok(Node::Negative(Box::new(expr)))
            },
            Token::Num(i) => {
                let literal = i.clone();
                self.get_next_token()?;
                Ok(Node::Number(literal))
            },
            Token::LeftParen => {
                self.get_next_token()?;
                let expr = self.generate_ast(OperPrec::DefaultZero)?;
                self.check_paren()?;
                if matches!(self.current_token, Token::LeftParen) {
                    let right = self.generate_ast(OperPrec::MulDiv)?;
                    return Ok(Node::Multiply(Box::new(expr), Box::new(right)));
                }
                Ok(expr)
            },
            _ => Err(ParseError::UnableToParse(String::from_str("Unable to parse"))),
        }
    }

    fn convert_token_to_node(&mut self, left_expr: Node) -> (r: Result<Node, ParseError>)
        requires
            old(self).wf(),
        ensures
            final(self).wf(),
            agrees(r, combine(left_expr@, old(self).stream()), final(self).stream()),
            r is Ok ==> final(self).stream().len() < old(self).stream().len(),
            !is_binary(old(self).stream()[0]) ==> final(self).stream() == old(self).stream(),
        decreases old(self).stream().len(), 2nat,
    {
        match self.current_token {
            Token::Add => {
                let right_expr = self.operand_after_operator(OperPrec::AddSub)?;
                Ok(Node::Add(Box::new(left_expr), Box::new(right_expr)))
            },
            Token::Subtract => {
                let right_expr = self.operand_after_operator(OperPrec::AddSub)?;
                Ok(Node::Subtract(Box::new(left_expr), Box::new(right_expr)))
            },
            Token::Multiply => {
                let right_expr = self.operand_after_operator(OperPrec::MulDiv)?;
                Ok(Node::Multiply(Box::new(left_expr), Box::new(right_expr)))
            },
            Token::Divide => {
                let right_expr = self.operand_after_operator(OperPrec::MulDiv)?;
                Ok(Node::Divide(Box::new(left_expr), Box::new(right_expr)))
            },
            Token::Caret => {
                let right_expr = self.operand_after_operator(OperPrec::MulDiv)?;
                Ok(Node::Caret(Box::new(left_expr), Box::new(right_expr)))
            },
            _ => {
                let mut message = String::from_str("Please enter valid operator ");
                message.append(self.current_token.describe().as_str());
                Err(ParseError::InvalidOperator(message))
            },
        }
    }

    /// Consumes the current operator and parses its right operand at `prec`.
    fn operand_after_operator(&mut self, prec: OperPrec) -> (r: Result<Node, ParseError>)
        requires
            old(self).wf(),
        ensures
            final(self).wf(),
            old(self).stream().len() < 2 ==> r is Err && r->Err_0.failure() == invalid_character(),
            old(self).stream().len() >= 2 ==> agrees(
                r,
                parse_at(old(self).stream().drop_first(), prec),
                final(self).stream(),
            ),
            r is Ok ==> final(self).stream().len() < old(self).stream().len(),
        decreases old(self).stream().len(), 1nat,
    {
        self.get_next_token()?;
        self.generate_ast(prec)
    }

    fn check_paren(&mut self) -> (r: Result<(), ParseError>)
        requires
            old(self).wf(),
        ensures
            final(self).wf(),
            old(self).stream()[0] is RightParen && old(self).stream().len() > 1 ==> r is Ok
                && final(self).stream() == old(self).stream().drop_first(),
            !(old(self).stream()[0] is RightParen) ==> r is Err && r->Err_0.failure()
                == Failure::InvalidOperator("Expected RightParen, got "@ + token_name(
                old(self).stream()[0],
            )),
            !(old(self).stream()[0] is RightParen) ==> final(self).stream() == old(
                self,
            ).stream(),
            old(self).stream()[0] is RightParen && old(self).stream().len() <= 1 ==> r is Err
                && r->Err_0.failure() == invalid_character() && final(self).stream() == old(
                self,
            ).stream(),
    {
        if matches!(self.current_token, Token::RightParen) {
            self.get_next_token()
        } else {
            let mut message = String::from_str("Expected RightParen, got ");
            message.append(self.current_token.describe().as_str());
            Err(ParseError::InvalidOperator(message))
        }
    }
}

} // verus!
