use vstd::prelude::*;
use crate::ast::Expr;
use crate::parser::{Failure, binary_node, is_binary, combine, fold_ops, parse_at, operand_prec, parse_primary, parse_text, unable_to_parse};
use crate::token::{OperPrec, Tok, tok_prec, token_name};
use crate::tokenizer::{is_digit, is_num_char, lex, num_end, scan, tokens_from};

verus! {

/// A number literal: a digit, then digits and decimal points.
pub open spec fn is_literal(a: Seq<char>) -> bool {
    &&& a.len() > 0
    &&& is_digit(a[0])
    &&& forall|i: int| 0 <= i < a.len() ==> is_num_char(#[trigger] a[i])
}

/// The token of a binary operator character.
pub open spec fn binary_op(c: char) -> Option<Tok> {
    if c == '+' {
        Some(Tok::Add)
    } else if c == '-' {
        Some(Tok::Subtract)
    } else if c == '*' {
        Some(Tok::Multiply)
    } else if c == '/' {
        Some(Tok::Divide)
    } else if c == '^' {
        Some(Tok::Caret)
    } else {
        None
    }
}

proof fn lemma_num_end_at(s: Seq<char>, p: int, e: int)
    requires
        0 <= p <= e <= s.len(),
        forall|i: int| p <= i < e ==> is_num_char(#[trigger] s[i]),
        e == s.len() || !is_num_char(s[e]),
    ensures
        num_end(s, p) == e,
    decreases e - p,
{
    if p < e {
        lemma_num_end_at(s, p + 1, e);
    }
}

/// A number literal, a binary operator and a number literal parse as that
/// operator applied to the two numbers, in that order.
pub proof fn lemma_single_operator(a: Seq<char>, op: char, b: Seq<char>)
    requires
        is_literal(a),
        is_literal(b),
        binary_op(op) is Some,
    ensures
        parse_text(a + seq![op] + b) == Ok::<Expr, Failure>(
            binary_node(binary_op(op)->0, Expr::Number(a), Expr::Number(b)),
        ),
{
    let s = a + seq![op] + b;
    let t = binary_op(op)->0;
    let n = a.len() as int;
    assert(s.subrange(0, n) =~= a);
    assert(s.subrange(n + 1, s.len() as int) =~= b);
    assert(forall|i: int| 0 <= i < n ==> s[i] == a[i]);
    assert(forall|i: int| n + 1 <= i < s.len() ==> s[i] == b[i - n - 1]);
    lemma_num_end_at(s, 1, n);
    lemma_num_end_at(s, n + 2, s.len() as int);
    assert(scan(s, 0) == Some((Tok::Num(a), n)));
    assert(scan(s, n) == Some((t, n + 1)));
    assert(scan(s, n + 1) == Some((Tok::Num(b), s.len() as int)));
    let ts = seq![Tok::Num(a), t, Tok::Num(b), Tok::Eof];
    assert(tokens_from(s, s.len() as int) == seq![Tok::Eof]);
    assert(tokens_from(s, n + 1) =~= ts.subrange(2, 4));
    assert(tokens_from(s, n) =~= ts.subrange(1, 4));
    assert(lex(s) =~= ts);
    let ts1 = ts.drop_first();
    let ts2 = ts1.drop_first();
    let ts3 = ts2.drop_first();
    assert(ts1 =~= seq![t, Tok::Num(b), Tok::Eof]);
    assert(ts2 =~= seq![Tok::Num(b), Tok::Eof]);
    assert(ts3 =~= seq![Tok::Eof]);
    let na = Expr::Number(a);
    let nb = Expr::Number(b);
    let node = binary_node(t, na, nb);
    assert(parse_primary(ts2) == Ok::<(Expr, Seq<Tok>), Failure>((nb, ts3)));
    assert(fold_ops(nb, ts3, operand_prec(t)) == Ok::<(Expr, Seq<Tok>), Failure>((nb, ts3)));
    assert(parse_at(ts2, operand_prec(t)) == Ok::<(Expr, Seq<Tok>), Failure>((nb, ts3)));
    assert(combine(na, ts1) == Ok::<(Expr, Seq<Tok>), Failure>((node, ts3)));
    assert(fold_ops(node, ts3, OperPrec::DefaultZero) == Ok::<(Expr, Seq<Tok>), Failure>(
        (node, ts3),
    ));
    assert(fold_ops(na, ts1, OperPrec::DefaultZero) == Ok::<(Expr, Seq<Tok>), Failure>(
        (node, ts3),
    ));
    assert(parse_primary(ts) == Ok::<(Expr, Seq<Tok>), Failure>((na, ts1)));
    assert(parse_at(ts, OperPrec::DefaultZero) == Ok::<(Expr, Seq<Tok>), Failure>((node, ts3)));
}

/// A text that starts with a token that cannot begin an operand (an
/// operator other than minus, a closing parenthesis, or the end of an empty
/// text) fails with `UnableToParse`.
pub proof fn lemma_no_leading_operand(s: Seq<char>)
    requires
        s.len() == 0 || s[0] == '+' || s[0] == '*' || s[0] == '/' || s[0] == '^' || s[0] == ')',
    ensures
        parse_text(s) == Err::<Expr, Failure>(unable_to_parse()),
{
    assert(lex(s).len() > 0);
    assert(!(lex(s)[0] is Subtract || lex(s)[0] is Num || lex(s)[0] is LeftParen));
    assert(parse_primary(lex(s)) == Err::<(Expr, Seq<Tok>), Failure>(unable_to_parse()));
}

/// `rest` is what is left of `ts` once a nonempty prefix has been consumed.
pub open spec fn consumed(ts: Seq<Tok>, rest: Seq<Tok>) -> bool {
    rest.len() < ts.len() && rest == ts.subrange(ts.len() - rest.len(), ts.len() as int)
}

proof fn lemma_suffix_trans(a: Seq<Tok>, b: Seq<Tok>, c: Seq<Tok>)
    requires
        b.len() <= a.len(),
        b == a.subrange(a.len() - b.len(), a.len() as int),
        c.len() <= b.len(),
        c == b.subrange(b.len() - c.len(), b.len() as int),
    ensures
        c == a.subrange(a.len() - c.len(), a.len() as int),
{
    assert(c =~= a.subrange(a.len() - c.len(), a.len() as int));
}

/// Each step that succeeds consumes at least one token, and leaves the
/// tokens after those it consumed.
pub proof fn lemma_parse_at_consumes(ts: Seq<Tok>, prec: OperPrec)
    ensures
        parse_at(ts, prec) is Ok ==> consumed(ts, parse_at(ts, prec)->Ok_0.1),
    decreases ts.len(), 2nat,
{
    lemma_primary_consumes(ts);
    if let Ok((left, rest)) = parse_primary(ts) {
        lemma_fold_consumes(left, rest, prec);
        if let Ok((_, r)) = fold_ops(left, rest, prec) {
            lemma_suffix_trans(ts, rest, r);
        }
    }
}

/// An operand that parses consumes at least one token.
pub proof fn lemma_primary_consumes(ts: Seq<Tok>)
    ensures
        parse_primary(ts) is Ok ==> consumed(ts, parse_primary(ts)->Ok_0.1),
    decreases ts.len(), 0nat,
{
    if ts.len() >= 2 {
        let t1 = ts.drop_first();
        assert(t1 == ts.subrange(1, ts.len() as int));
        if ts[0] is Subtract {
            lemma_parse_at_consumes(t1, OperPrec::Negative);
            if let Ok((_, r)) = parse_at(t1, OperPrec::Negative) {
                lemma_suffix_trans(ts, t1, r);
            }
        } else if ts[0] is LeftParen {
            lemma_parse_at_consumes(t1, OperPrec::DefaultZero);
            if let Ok((_, r)) = parse_at(t1, OperPrec::DefaultZero) {
                lemma_suffix_trans(ts, t1, r);
                if r.len() >= 2 {
                    let r2 = r.drop_first();
                    assert(r2 == r.subrange(1, r.len() as int));
                    lemma_suffix_trans(ts, r, r2);
                    lemma_parse_at_consumes(r2, OperPrec::MulDiv);
                    if let Ok((_, r3)) = parse_at(r2, OperPrec::MulDiv) {
                        lemma_suffix_trans(ts, r2, r3);
                    }
                }
            }
        }
    }
}

/// Folding operators leaves a suffix of the tokens it was given.
pub proof fn lemma_fold_consumes(left: Expr, ts: Seq<Tok>, prec: OperPrec)
    ensures
        fold_ops(left, ts, prec) is Ok ==> ({
            let rest = fold_ops(left, ts, prec)->Ok_0.1;
            rest.len() <= ts.len() && rest == ts.subrange(ts.len() - rest.len(), ts.len() as int)
        }),
    decreases ts.len(), 1nat,
{
    if ts.len() > 0 && prec.spec_rank() < tok_prec(ts[0]).spec_rank() {
        lemma_combine_consumes(left, ts);
        if let Ok((e, r)) = combine(left, ts) {
            lemma_fold_consumes(e, r, prec);
            if let Ok((_, r2)) = fold_ops(e, r, prec) {
                lemma_suffix_trans(ts, r, r2);
            }
        }
    } else {
        assert(ts == ts.subrange(0, ts.len() as int));
    }
}

/// Applying an operator consumes at least the operator.
pub proof fn lemma_combine_consumes(left: Expr, ts: Seq<Tok>)
    ensures
        combine(left, ts) is Ok ==> consumed(ts, combine(left, ts)->Ok_0.1),
    decreases ts.len(), 0nat,
{
    if ts.len() >= 2 {
        let t1 = ts.drop_first();
        assert(t1 == ts.subrange(1, ts.len() as int));
        lemma_parse_at_consumes(t1, operand_prec(ts[0]));
        if let Ok((_, r)) = parse_at(t1, operand_prec(ts[0])) {
            lemma_suffix_trans(ts, t1, r);
        }
    }
}

/// A minus negates the operand right after it and nothing more: no
/// operator after that operand is folded under the negation.
pub proof fn lemma_negation_takes_operand(ts: Seq<Tok>)
    requires
        ts.len() >= 2,
        ts[0] is Subtract,
        parse_primary(ts.drop_first()) is Ok,
    ensures
        ({
            let (e, r) = parse_primary(ts.drop_first())->Ok_0;
            parse_primary(ts) == Ok::<(Expr, Seq<Tok>), Failure>((Expr::Negative(Box::new(e)), r))
        }),
{
    let t1 = ts.drop_first();
    lemma_primary_consumes(t1);
    let (e, r) = parse_primary(t1)->Ok_0;
    assert(fold_ops(e, r, OperPrec::Negative) == Ok::<(Expr, Seq<Tok>), Failure>((e, r)));
}

/// A parenthesized expression not followed by another group is that
/// expression itself, and parsing goes on after the closing parenthesis.
pub proof fn lemma_group(ts: Seq<Tok>)
    requires
        ts.len() >= 2,
        ts[0] is LeftParen,
        parse_at(ts.drop_first(), OperPrec::DefaultZero) is Ok,
        ({
            let r = parse_at(ts.drop_first(), OperPrec::DefaultZero)->Ok_0.1;
            r.len() >= 2 && r[0] is RightParen && !(r[1] is LeftParen)
        }),
    ensures
        ({
            let (e, r) = parse_at(ts.drop_first(), OperPrec::DefaultZero)->Ok_0;
            parse_primary(ts) == Ok::<(Expr, Seq<Tok>), Failure>((e, r.drop_first()))
        }),
{
}

/// Two adjacent parenthesized groups multiply: the second is parsed from
/// its opening parenthesis at the level of multiplication.
pub proof fn lemma_adjacent_groups(ts: Seq<Tok>)
    requires
        ts.len() >= 2,
        ts[0] is LeftParen,
        parse_at(ts.drop_first(), OperPrec::DefaultZero) is Ok,
        ({
            let r = parse_at(ts.drop_first(), OperPrec::DefaultZero)->Ok_0.1;
            &&& r.len() >= 2
            &&& r[0] is RightParen
            &&& r[1] is LeftParen
            &&& parse_at(r.drop_first(), OperPrec::MulDiv) is Ok
        }),
    ensures
        ({
            let (e, r) = parse_at(ts.drop_first(), OperPrec::DefaultZero)->Ok_0;
            let (e2, r3) = parse_at(r.drop_first(), OperPrec::MulDiv)->Ok_0;
            parse_primary(ts) == Ok::<(Expr, Seq<Tok>), Failure>(
                (Expr::Multiply(Box::new(e), Box::new(e2)), r3),
            )
        }),
{
    lemma_parse_at_consumes(ts.drop_first(), OperPrec::DefaultZero);
}

/// A group whose expression is followed by anything but a closing
/// parenthesis fails with `InvalidOperator`, naming the token found.
pub proof fn lemma_unclosed_group(ts: Seq<Tok>)
    requires
        ts.len() >= 2,
        ts[0] is LeftParen,
        parse_at(ts.drop_first(), OperPrec::DefaultZero) is Ok,
        ({
            let r = parse_at(ts.drop_first(), OperPrec::DefaultZero)->Ok_0.1;
            r.len() > 0 && !(r[0] is RightParen)
        }),
    ensures
        ({
            let r = parse_at(ts.drop_first(), OperPrec::DefaultZero)->Ok_0.1;
            parse_primary(ts) == Err::<(Expr, Seq<Tok>), Failure>(
                Failure::InvalidOperator("Expected RightParen, got "@ + token_name(r[0])),
            )
        }),
{
}

/// An operator whose right operand is a number followed by a token that
/// binds no more strongly than that operand's level is applied at once, and
/// folding goes on with the result as left operand: operators of one level
/// group from the left, and a looser operator after the number is left for
/// later.
pub proof fn lemma_operator_closes(left: Expr, op: Tok, b: Seq<char>, rest: Seq<Tok>, prec: OperPrec)
    requires
        is_binary(op),
        prec.spec_rank() < tok_prec(op).spec_rank(),
        rest.len() > 0,
        tok_prec(rest[0]).spec_rank() <= operand_prec(op).spec_rank(),
    ensures
        fold_ops(left, seq![op, Tok::Num(b)] + rest, prec) == fold_ops(
            binary_node(op, left, Expr::Number(b)),
            rest,
            prec,
        ),
{
    let ts = seq![op, Tok::Num(b)] + rest;
    let t1 = ts.drop_first();
    assert(t1 =~= seq![Tok::Num(b)] + rest);
    assert(t1.drop_first() =~= rest);
    let nb = Expr::Number(b);
    assert(parse_primary(t1) == Ok::<(Expr, Seq<Tok>), Failure>((nb, rest)));
    assert(fold_ops(nb, rest, operand_prec(op)) == Ok::<(Expr, Seq<Tok>), Failure>((nb, rest)));
    assert(parse_at(t1, operand_prec(op)) == Ok::<(Expr, Seq<Tok>), Failure>((nb, rest)));
    assert(combine(left, ts) == Ok::<(Expr, Seq<Tok>), Failure>(
        (binary_node(op, left, nb), rest),
    ));
}

/// An operator that binds more strongly than the right operand's level of
/// the operator before it is folded into that right operand: `*` and `/`
/// before `+` and `-`, and `^` before all, a second `^` included, so that
/// powers group from the right.
pub proof fn lemma_tighter_operator_binds_right(
    left: Expr,
    op: Tok,
    b: Seq<char>,
    x: Tok,
    c: Seq<char>,
    rest: Seq<Tok>,
)
    requires
        is_binary(op),
        is_binary(x),
        operand_prec(op).spec_rank() < tok_prec(x).spec_rank(),
        rest.len() > 0,
        tok_prec(rest[0]).spec_rank() <= operand_prec(op).spec_rank(),
    ensures
        combine(left, seq![op, Tok::Num(b), x, Tok::Num(c)] + rest) == Ok::<
            (Expr, Seq<Tok>),
            Failure,
        >(
            (
                binary_node(op, left, binary_node(x, Expr::Number(b), Expr::Number(c))),
                rest,
            ),
        ),
{
    let ts = seq![op, Tok::Num(b), x, Tok::Num(c)] + rest;
    let t1 = ts.drop_first();
    let t2 = t1.drop_first();
    let t3 = t2.drop_first();
    assert(t1 =~= seq![Tok::Num(b), x, Tok::Num(c)] + rest);
    assert(t2 =~= seq![x, Tok::Num(c)] + rest);
    assert(t3 =~= seq![Tok::Num(c)] + rest);
    assert(t3.drop_first() =~= rest);
    let nb = Expr::Number(b);
    let nc = Expr::Number(c);
    let bx = binary_node(x, nb, nc);
    let p = operand_prec(op);
    assert(parse_primary(t3) == Ok::<(Expr, Seq<Tok>), Failure>((nc, rest)));
    assert(fold_ops(nc, rest, operand_prec(x)) == Ok::<(Expr, Seq<Tok>), Failure>((nc, rest)));
    assert(parse_at(t3, operand_prec(x)) == Ok::<(Expr, Seq<Tok>), Failure>((nc, rest)));
    assert(combine(nb, t2) == Ok::<(Expr, Seq<Tok>), Failure>((bx, rest)));
    assert(fold_ops(bx, rest, p) == Ok::<(Expr, Seq<Tok>), Failure>((bx, rest)));
    assert(fold_ops(nb, t2, p) == Ok::<(Expr, Seq<Tok>), Failure>((bx, rest)));
    assert(parse_primary(t1) == Ok::<(Expr, Seq<Tok>), Failure>((nb, t2)));
    assert(parse_at(t1, p) == Ok::<(Expr, Seq<Tok>), Failure>((bx, rest)));
}

} // verus!
