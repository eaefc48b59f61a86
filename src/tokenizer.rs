use vstd::prelude::*;
use vstd::string::*;
use vstd::std_specs::iter::IteratorSpec;
use crate::token::{Tok, Token};

verus! {

broadcast use {axiom_spec_iter, next_postcondition};

pub open spec fn is_digit(c: char) -> bool {
    '0' <= c && c <= '9'
}

/// A character that continues a number literal.
pub open spec fn is_num_char(c: char) -> bool {
    is_digit(c) || c == '.'
}

/// The end of the run of number characters that starts at `p`.
pub open spec fn num_end(s: Seq<char>, p: int) -> int
    decreases s.len() - p,
{
    if 0 <= p < s.len() && is_num_char(s[p]) {
        num_end(s, p + 1)
    } else {
        p
    }
}

/// The token that starts at position `p` and the position after it;
/// `None` where the character there begins no token.
pub open spec fn scan(s: Seq<char>, p: int) -> Option<(Tok, int)> {
    if p >= s.len() {
        Some((Tok::Eof, p))
    } else {
        let c = s[p];
        if is_digit(c) {
            let e = num_end(s, p + 1);
            Some((Tok::Num(s.subrange(p, e)), e))
        } else if c == '+' {
            Some((Tok::Add, p + 1))
        } else if c == '-' {
            Some((Tok::Subtract, p + 1))
        } else if c == '*' {
            Some((Tok::Multiply, p + 1))
        } else if c == '/' {
            Some((Tok::Divide, p + 1))
        } else if c == '^' {
            Some((Tok::Caret, p + 1))
        } else if c == '(' {
            Some((Tok::LeftParen, p + 1))
        } else if c == ')' {
            Some((Tok::RightParen, p + 1))
        } else {
            None
        }
    }
}

pub proof fn lemma_num_end_bounds(s: Seq<char>, p: int)
    requires
        0 <= p <= s.len(),
    ensures
        p <= num_end(s, p) <= s.len(),
    decreases s.len() - p,
{
    if p < s.len() && is_num_char(s[p]) {
        lemma_num_end_bounds(s, p + 1);
    }
}

/// The tokens produced from position `p` on: they end with `Eof` when the
/// rest of the text is well formed, and stop before the first character
/// that begins no token otherwise.
pub open spec fn tokens_from(s: Seq<char>, p: int) -> Seq<Tok>
    decreases s.len() - p,
    via tokens_from_decreases
{
    if p < 0 || p >= s.len() {
        seq![Tok::Eof]
    } else {
        match scan(s, p) {
            Some((t, q)) => seq![t] + tokens_from(s, q),
            None => seq![],
        }
    }
}

#[via_fn]
proof fn tokens_from_decreases(s: Seq<char>, p: int) {
    if 0 <= p < s.len() {
        lemma_num_end_bounds(s, p + 1);
    }
}

/// The whole token sequence of a text.
pub open spec fn lex(s: Seq<char>) -> Seq<Tok> {
    tokens_from(s, 0)
}

/// A forward-only producer of the tokens of a text.
pub struct Tokenizer<'a> {
    expr: &'a str,
    chars: Vec<char>,
    pos: usize,
    done: bool,
}

impl<'a> Tokenizer<'a> {
    pub closed spec fn wf(&self) -> bool {
        &&& self.chars@ == self.expr@
        &&& self.pos <= self.chars@.len()
    }

    /// The tokens that are still to come.
    pub closed spec fn remaining(&self) -> Seq<Tok> {
        if self.done {
            seq![]
        } else {
            tokens_from(self.chars@, self.pos as int)
        }
    }

    /// A tokenizer positioned at the start of `new_expr`.
    pub fn new(new_expr: &'a str) -> (r: Self)
        ensures
            r.wf(),
            r.remaining() == lex(new_expr@),
    {
        let mut chars: Vec<char> = Vec::new();
        let mut it = new_expr.chars();
        loop
            invariant
                it.obeys_prophetic_iter_laws(),
                it.decrease() is Some,
                chars@ + it.remaining() == new_expr@,
            ensures
                chars@ == new_expr@,
            decreases it.decrease()->0,
        {
            match it.next() {
                Some(c) => {
                    chars.push(c);
                    assert(chars@ + it.remaining() == new_expr@);
                },
                None => {
                    assert(chars@ == new_expr@);
                    break;
                },
            }
        }
        Tokenizer { expr: new_expr, chars, pos: 0, done: false }
    }

    /// Produces the next token, or `None` once the end of the text has been
    /// reported or a character that begins no token has been met.
    pub fn next(&mut self) -> (r: Option<Token>)
        requires
            old(self).wf(),
        ensures
            final(self).wf(),
            old(self).remaining().len() == 0 ==> r is None && final(self).remaining().len() == 0,
            old(self).remaining().len() > 0 ==> r is Some && r->0@ == old(self).remaining()[0]
                && final(self).remaining() == old(self).remaining().drop_first(),
    {
        if self.done {
            return None;
        }
        let ghost s = self.chars@;
        let p = self.pos;
        if p == self.chars.len() {
            self.done = true;
            assert(old(self).remaining() == seq![Tok::Eof]);
            return Some(Token::EOF);
        }
        let c = self.chars[p];
        let (tok, q) = if '0' <= c && c <= '9' {
            let mut e: usize = p + 1;
            while e < self.chars.len() && (('0' <= self.chars[e] && self.chars[e] <= '9')
                || self.chars[e] == '.')
                invariant
                    p < e <= self.chars@.len(),
                    self.chars@ == s,
                    num_end(s, p + 1) == num_end(s, e as int),
                decreases self.chars@.len() - e,
            {
                e = e + 1;
            }
            let text = self.expr.substring_char(p, e);
            (Token::Num(text.to_owned()), e)
        } else if c == '+' {
            (Token::Add, p + 1)
        } else if c == '-' {
            (Token::Subtract, p + 1)
        } else if c == '*' {
            (Token::Multiply, p + 1)
        } else if c == '/' {
            (Token::Divide, p + 1)
        } else if c == '^' {
            (Token::Caret, p + 1)
        } else if c == '(' {
            (Token::LeftParen, p + 1)
        } else if c == ')' {
            (Token::RightParen, p + 1)
        } else {
            self.done = true;
            return None;
        };
        proof {
            lemma_num_end_bounds(s, p + 1);
        }
        self.pos = q;
        Some(tok)
    }
}

} // verus!
