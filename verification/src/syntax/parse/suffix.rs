//! What a parse reads: the result of each grammar function, and how far it
//! moves, depend only on the tokens from where it starts, and a successful
//! statement depends on the tokens past its end only through whether the
//! next one is a binary operator or `else`. From these follow the laws on
//! dropping comments between top-level statements.
use vstd::prelude::*;

use super::grammar::{
    binary_op_of, expect, is_binary_op, p_annotated_param, p_annotated_params, p_assignment,
    p_binary, p_binary_rest, p_block, p_expr, p_field_list, p_fields, p_for_loop,
    p_function_declare, p_if_stmt,
    p_local_declare, p_program, p_return, p_return_type, p_stmt, p_struct_declare, p_type,
    p_value, p_while_loop, precedence, Step,
};
use crate::syntax::ast::Expr;
use crate::syntax::lexer::{Token, TokenKind};
use crate::syntax::span::Spanned;

verus! {

/// The tokens of `a` from `i` on are those of `b` from `j` on.
pub open spec fn agree_from(a: Seq<Token>, i: int, b: Seq<Token>, j: int) -> bool {
    &&& 0 <= i
    &&& 0 <= j
    &&& a.len() - i == b.len() - j
    &&& forall|x: int| i <= x < a.len() ==> #[trigger] a[x] == b[x - i + j]
}

/// Two steps, started at `i` and at `j`, give the same result and move as
/// far; the first does not move back.
pub open spec fn same_step<T>(s: Step<T>, t: Step<T>, i: int, j: int) -> bool {
    &&& s.0 == t.0
    &&& s.1 - i == t.1 - j
    &&& s.1 >= i
}

pub proof fn lemma_agree_later(a: Seq<Token>, i: int, b: Seq<Token>, j: int, p: int)
    requires
        agree_from(a, i, b, j),
        p >= i,
    ensures
        agree_from(a, p, b, p - i + j),
{
    assert forall|x: int| p <= x < a.len() implies #[trigger] a[x] == b[x - p + (p - i + j)] by {
        assert(a[x] == b[x - i + j]);
    }
}

proof fn shift_expect(a: Seq<Token>, i: int, b: Seq<Token>, j: int, kind: TokenKind)
    requires
        agree_from(a, i, b, j),
    ensures
        same_step(expect(a, i, kind), expect(b, j, kind), i, j),
{
    if i < a.len() {
        assert(a[i] == b[i - i + j]);
    }
}

proof fn shift_type(a: Seq<Token>, i: int, b: Seq<Token>, j: int)
    requires
        agree_from(a, i, b, j),
    ensures
        same_step(p_type(a, i), p_type(b, j), i, j),
    decreases a.len() - i,
{
    if i < a.len() {
        assert(a[i] == b[i - i + j]);
        let k = a[i].kind;
        if k == TokenKind::Star {
            lemma_agree_later(a, i, b, j, i + 1);
            shift_type(a, i + 1, b, j + 1);
        } else if k == TokenKind::LSquare {
            lemma_agree_later(a, i, b, j, i + 1);
            shift_expect(a, i + 1, b, j + 1, TokenKind::RSquare);
            if i + 1 < a.len() {
                lemma_agree_later(a, i, b, j, i + 2);
                shift_type(a, i + 2, b, j + 2);
            }
        }
    }
}

proof fn shift_annotated_param(a: Seq<Token>, i: int, b: Seq<Token>, j: int)
    requires
        agree_from(a, i, b, j),
    ensures
        same_step(p_annotated_param(a, i), p_annotated_param(b, j), i, j),
{
    shift_expect(a, i, b, j, TokenKind::Ident);
    let i1 = expect(a, i, TokenKind::Ident).1;
    lemma_agree_later(a, i, b, j, i1);
    shift_expect(a, i1, b, i1 - i + j, TokenKind::Colon);
    let i2 = expect(a, i1, TokenKind::Colon).1;
    lemma_agree_later(a, i, b, j, i2);
    shift_type(a, i2, b, i2 - i + j);
}

proof fn shift_annotated_params(a: Seq<Token>, i: int, b: Seq<Token>, j: int)
    requires
        agree_from(a, i, b, j),
    ensures
        same_step(p_annotated_params(a, i), p_annotated_params(b, j), i, j),
    decreases a.len() - i,
{
    if i < a.len() {
        assert(a[i] == b[i - i + j]);
        shift_annotated_param(a, i, b, j);
        let k = p_annotated_param(a, i).1;
        lemma_agree_later(a, i, b, j, k);
        if k < a.len() {
            assert(a[k] == b[k - i + j]);
        }
        if i < k + 1 <= a.len() {
            lemma_agree_later(a, i, b, j, k + 1);
            shift_annotated_params(a, k + 1, b, k + 1 - i + j);
        }
    }
}

proof fn shift_fields(a: Seq<Token>, i: int, b: Seq<Token>, j: int)
    requires
        agree_from(a, i, b, j),
    ensures
        same_step(p_fields(a, i), p_fields(b, j), i, j),
    decreases a.len() - i,
{
    if i < a.len() {
        assert(a[i] == b[i - i + j]);
        shift_annotated_param(a, i, b, j);
        let k = p_annotated_param(a, i).1;
        lemma_agree_later(a, i, b, j, k);
        if k < a.len() {
            assert(a[k] == b[k - i + j]);
        }
        if i < k + 1 <= a.len() {
            lemma_agree_later(a, i, b, j, k + 1);
            shift_fields(a, k + 1, b, k + 1 - i + j);
        }
    }
}

proof fn shift_field_list(a: Seq<Token>, i: int, b: Seq<Token>, j: int)
    requires
        agree_from(a, i, b, j),
    ensures
        same_step(p_field_list(a, i), p_field_list(b, j), i, j),
{
    if i < a.len() {
        assert(a[i] == b[i - i + j]);
    }
    shift_fields(a, i, b, j);
}

proof fn shift_value(a: Seq<Token>, i: int, b: Seq<Token>, j: int)
    requires
        agree_from(a, i, b, j),
    ensures
        same_step(p_value(a, i), p_value(b, j), i, j),
    decreases a.len() - i, 0int,
{
    if i < a.len() {
        assert(a[i] == b[i - i + j]);
        lemma_agree_later(a, i, b, j, i + 1);
        shift_value(a, i + 1, b, j + 1);
        shift_expr(a, i + 1, b, j + 1);
        let k = p_expr(a, i + 1).1;
        lemma_agree_later(a, i, b, j, k);
        shift_expect(a, k, b, k - i + j, TokenKind::RParen);
    }
}

proof fn shift_expr(a: Seq<Token>, i: int, b: Seq<Token>, j: int)
    requires
        agree_from(a, i, b, j),
    ensures
        same_step(p_expr(a, i), p_expr(b, j), i, j),
    decreases a.len() - i, 3int,
{
    shift_binary(a, i, b, j, 0);
}

proof fn shift_binary(a: Seq<Token>, i: int, b: Seq<Token>, j: int, min: u8)
    requires
        agree_from(a, i, b, j),
    ensures
        same_step(p_binary(a, i, min), p_binary(b, j, min), i, j),
    decreases a.len() - i, 2int,
{
    shift_value(a, i, b, j);
    match p_value(a, i) {
        (Ok(lhs), k) => {
            if i < k <= a.len() {
                lemma_agree_later(a, i, b, j, k);
                shift_binary_rest(a, k, b, k - i + j, lhs, min);
            }
        },
        (Err(_), _) => {},
    }
}

proof fn shift_binary_rest(
    a: Seq<Token>,
    i: int,
    b: Seq<Token>,
    j: int,
    lhs: Spanned<Expr>,
    min: u8,
)
    requires
        agree_from(a, i, b, j),
    ensures
        same_step(p_binary_rest(a, i, lhs, min), p_binary_rest(b, j, lhs, min), i, j),
    decreases a.len() - i, 1int,
{
    if i < a.len() {
        assert(a[i] == b[i - i + j]);
        let k = a[i].kind;
        if super::grammar::is_binary_op(k) && super::grammar::precedence(k) > min {
            lemma_agree_later(a, i, b, j, i + 1);
            shift_binary(a, i + 1, b, j + 1, super::grammar::precedence(k));
            match p_binary(a, i + 1, super::grammar::precedence(k)) {
                (Ok(rhs), m) => {
                    if i < m <= a.len() {
                        let combined = Spanned {
                            target: Expr::Binary {
                                op: super::grammar::binary_op_of(k),
                                lhs: Box::new(lhs.target),
                                rhs: Box::new(rhs.target),
                            },
                            location: lhs.location,
                        };
                        lemma_agree_later(a, i, b, j, m);
                        shift_binary_rest(a, m, b, m - i + j, combined, min);
                    }
                },
                (Err(_), _) => {},
            }
        }
    }
}


proof fn shift_local_declare(a: Seq<Token>, i: int, b: Seq<Token>, j: int)
    requires
        agree_from(a, i, b, j),
    ensures
        same_step(p_local_declare(a, i), p_local_declare(b, j), i, j),
{
    lemma_agree_later(a, i, b, j, i);
    shift_expect(a, i, b, i - i + j, TokenKind::KwLocal);
    let i1 = expect(a, i, TokenKind::KwLocal).1;
    lemma_agree_later(a, i, b, j, i1);
    shift_expect(a, i1, b, i1 - i + j, TokenKind::Ident);
    let i2 = expect(a, i1, TokenKind::Ident).1;
    lemma_agree_later(a, i, b, j, i2);
    shift_expect(a, i2, b, i2 - i + j, TokenKind::Colon);
    let i3 = expect(a, i2, TokenKind::Colon).1;
    lemma_agree_later(a, i, b, j, i3);
    shift_type(a, i3, b, i3 - i + j);
    let i4 = p_type(a, i3).1;
    lemma_agree_later(a, i, b, j, i4);
    shift_expect(a, i4, b, i4 - i + j, TokenKind::Equal);
    let i5 = expect(a, i4, TokenKind::Equal).1;
    lemma_agree_later(a, i, b, j, i5);
    shift_expr(a, i5, b, i5 - i + j);
    let i6 = p_expr(a, i5).1;
}

proof fn shift_assignment(a: Seq<Token>, i: int, b: Seq<Token>, j: int)
    requires
        agree_from(a, i, b, j),
    ensures
        same_step(p_assignment(a, i), p_assignment(b, j), i, j),
{
    lemma_agree_later(a, i, b, j, i);
    shift_expect(a, i, b, i - i + j, TokenKind::Ident);
    let i1 = expect(a, i, TokenKind::Ident).1;
    lemma_agree_later(a, i, b, j, i1);
    shift_expect(a, i1, b, i1 - i + j, TokenKind::Equal);
    let i2 = expect(a, i1, TokenKind::Equal).1;
    lemma_agree_later(a, i, b, j, i2);
    shift_expr(a, i2, b, i2 - i + j);
    let i3 = p_expr(a, i2).1;
}

proof fn shift_return(a: Seq<Token>, i: int, b: Seq<Token>, j: int)
    requires
        agree_from(a, i, b, j),
    ensures
        same_step(p_return(a, i), p_return(b, j), i, j),
{
    lemma_agree_later(a, i, b, j, i);
    shift_expect(a, i, b, i - i + j, TokenKind::KwReturn);
    let i1 = expect(a, i, TokenKind::KwReturn).1;
    lemma_agree_later(a, i, b, j, i1);
    if i1 < a.len() {
        assert(a[i1] == b[i1 - i + j]);
    }
    shift_value(a, i1, b, i1 - i + j);
}

proof fn shift_struct_declare(a: Seq<Token>, i: int, b: Seq<Token>, j: int)
    requires
        agree_from(a, i, b, j),
    ensures
        same_step(p_struct_declare(a, i), p_struct_declare(b, j), i, j),
{
    lemma_agree_later(a, i, b, j, i);
    shift_expect(a, i, b, i - i + j, TokenKind::KwStruct);
    let i1 = expect(a, i, TokenKind::KwStruct).1;
    lemma_agree_later(a, i, b, j, i1);
    shift_expect(a, i1, b, i1 - i + j, TokenKind::Ident);
    let i2 = expect(a, i1, TokenKind::Ident).1;
    lemma_agree_later(a, i, b, j, i2);
    shift_expect(a, i2, b, i2 - i + j, TokenKind::Equal);
    let i3 = expect(a, i2, TokenKind::Equal).1;
    lemma_agree_later(a, i, b, j, i3);
    shift_expect(a, i3, b, i3 - i + j, TokenKind::LCurly);
    let i4 = expect(a, i3, TokenKind::LCurly).1;
    lemma_agree_later(a, i, b, j, i4);
    shift_field_list(a, i4, b, i4 - i + j);
    let i5 = p_field_list(a, i4).1;
    lemma_agree_later(a, i, b, j, i5);
    shift_expect(a, i5, b, i5 - i + j, TokenKind::RCurly);
    let i6 = expect(a, i5, TokenKind::RCurly).1;
}

proof fn shift_if_stmt(a: Seq<Token>, i: int, b: Seq<Token>, j: int)
    requires
        agree_from(a, i, b, j),
    ensures
        same_step(p_if_stmt(a, i), p_if_stmt(b, j), i, j),
    decreases a.len() - i, 1int,
{
    lemma_agree_later(a, i, b, j, i);
    shift_expect(a, i, b, i - i + j, TokenKind::KwIf);
    let i1 = expect(a, i, TokenKind::KwIf).1;
    lemma_agree_later(a, i, b, j, i1);
    shift_expr(a, i1, b, i1 - i + j);
    let i2 = p_expr(a, i1).1;
    lemma_agree_later(a, i, b, j, i2);
    shift_expect(a, i2, b, i2 - i + j, TokenKind::KwThen);
    let i3 = expect(a, i2, TokenKind::KwThen).1;
    if i < i3 <= a.len() {
        lemma_agree_later(a, i, b, j, i3);
        shift_block(a, i3, b, i3 - i + j);
    }
    let i4 = p_block(a, i3).1;
    lemma_agree_later(a, i, b, j, i4);
    if i4 < a.len() {
        assert(a[i4] == b[i4 - i + j]);
    }
    if i < i4 + 1 <= a.len() {
        lemma_agree_later(a, i, b, j, i4 + 1);
        shift_block(a, i4 + 1, b, i4 + 1 - i + j);
    }
}

proof fn shift_for_loop(a: Seq<Token>, i: int, b: Seq<Token>, j: int)
    requires
        agree_from(a, i, b, j),
    ensures
        same_step(p_for_loop(a, i), p_for_loop(b, j), i, j),
    decreases a.len() - i, 1int,
{
    lemma_agree_later(a, i, b, j, i);
    shift_expect(a, i, b, i - i + j, TokenKind::KwFor);
    let i1 = expect(a, i, TokenKind::KwFor).1;
    lemma_agree_later(a, i, b, j, i1);
    shift_expect(a, i1, b, i1 - i + j, TokenKind::Ident);
    let i2 = expect(a, i1, TokenKind::Ident).1;
    lemma_agree_later(a, i, b, j, i2);
    shift_expect(a, i2, b, i2 - i + j, TokenKind::Equal);
    let i3 = expect(a, i2, TokenKind::Equal).1;
    lemma_agree_later(a, i, b, j, i3);
    shift_expr(a, i3, b, i3 - i + j);
    let i4 = p_expr(a, i3).1;
    lemma_agree_later(a, i, b, j, i4);
    shift_expect(a, i4, b, i4 - i + j, TokenKind::Comma);
    let i5 = expect(a, i4, TokenKind::Comma).1;
    lemma_agree_later(a, i, b, j, i5);
    shift_expr(a, i5, b, i5 - i + j);
    let i6 = p_expr(a, i5).1;
    lemma_agree_later(a, i, b, j, i6);
    shift_expect(a, i6, b, i6 - i + j, TokenKind::KwDo);
    let i7 = expect(a, i6, TokenKind::KwDo).1;
    if i < i7 <= a.len() {
        lemma_agree_later(a, i, b, j, i7);
        shift_block(a, i7, b, i7 - i + j);
    }
}

proof fn shift_while_loop(a: Seq<Token>, i: int, b: Seq<Token>, j: int)
    requires
        agree_from(a, i, b, j),
    ensures
        same_step(p_while_loop(a, i), p_while_loop(b, j), i, j),
    decreases a.len() - i, 1int,
{
    lemma_agree_later(a, i, b, j, i);
    shift_expect(a, i, b, i - i + j, TokenKind::KwWhile);
    let i1 = expect(a, i, TokenKind::KwWhile).1;
    lemma_agree_later(a, i, b, j, i1);
    shift_expr(a, i1, b, i1 - i + j);
    let i2 = p_expr(a, i1).1;
    lemma_agree_later(a, i, b, j, i2);
    shift_expect(a, i2, b, i2 - i + j, TokenKind::KwDo);
    let i3 = expect(a, i2, TokenKind::KwDo).1;
    if i < i3 <= a.len() {
        lemma_agree_later(a, i, b, j, i3);
        shift_block(a, i3, b, i3 - i + j);
    }
}

proof fn shift_stmt(a: Seq<Token>, i: int, b: Seq<Token>, j: int)
    requires
        agree_from(a, i, b, j),
    ensures
        same_step(p_stmt(a, i), p_stmt(b, j), i, j),
    decreases a.len() - i, 2int,
{
    if i < a.len() {
        assert(a[i] == b[i - i + j]);
        match a[i].kind {
            TokenKind::KwLocal => shift_local_declare(a, i, b, j),
            TokenKind::KwStruct => shift_struct_declare(a, i, b, j),
            TokenKind::Ident => shift_assignment(a, i, b, j),
            TokenKind::KwIf => shift_if_stmt(a, i, b, j),
            TokenKind::KwFor => shift_for_loop(a, i, b, j),
            TokenKind::KwWhile => shift_while_loop(a, i, b, j),
            TokenKind::KwReturn => shift_return(a, i, b, j),
            _ => {},
        }
    }
}

proof fn shift_block(a: Seq<Token>, i: int, b: Seq<Token>, j: int)
    requires
        agree_from(a, i, b, j),
    ensures
        same_step(p_block(a, i), p_block(b, j), i, j),
    decreases a.len() - i, 3int,
{
    if i < a.len() {
        assert(a[i] == b[i - i + j]);
        if a[i].kind != TokenKind::KwEnd {
            shift_stmt(a, i, b, j);
            let k = p_stmt(a, i).1;
            if i < k <= a.len() {
                lemma_agree_later(a, i, b, j, k);
                shift_block(a, k, b, k - i + j);
            }
        }
    }
}

proof fn shift_return_type(a: Seq<Token>, i: int, b: Seq<Token>, j: int)
    requires
        agree_from(a, i, b, j),
    ensures
        same_step(p_return_type(a, i), p_return_type(b, j), i, j),
{
    if i < a.len() {
        assert(a[i] == b[i - i + j]);
        lemma_agree_later(a, i, b, j, i + 1);
        shift_type(a, i + 1, b, j + 1);
    }
}

proof fn shift_function_declare(a: Seq<Token>, i: int, b: Seq<Token>, j: int)
    requires
        agree_from(a, i, b, j),
    ensures
        same_step(p_function_declare(a, i), p_function_declare(b, j), i, j),
{
    lemma_agree_later(a, i, b, j, i);
    shift_expect(a, i, b, i - i + j, TokenKind::KwFunction);
    let i1 = expect(a, i, TokenKind::KwFunction).1;
    lemma_agree_later(a, i, b, j, i1);
    shift_expect(a, i1, b, i1 - i + j, TokenKind::Ident);
    let i2 = expect(a, i1, TokenKind::Ident).1;
    lemma_agree_later(a, i, b, j, i2);
    shift_expect(a, i2, b, i2 - i + j, TokenKind::LParen);
    let i3 = expect(a, i2, TokenKind::LParen).1;
    lemma_agree_later(a, i, b, j, i3);
    shift_annotated_params(a, i3, b, i3 - i + j);
    let i4 = p_annotated_params(a, i3).1;
    lemma_agree_later(a, i, b, j, i4);
    shift_expect(a, i4, b, i4 - i + j, TokenKind::RParen);
    let i5 = expect(a, i4, TokenKind::RParen).1;
    lemma_agree_later(a, i, b, j, i5);
    shift_return_type(a, i5, b, i5 - i + j);
    let i6 = p_return_type(a, i5).1;
    lemma_agree_later(a, i, b, j, i6);
    shift_block(a, i6, b, i6 - i + j);
    let i7 = p_block(a, i6).1;
}

/// The program parser's result from `i` in `a`, and how far it moves, are
/// those from `j` in `b` where the tokens from there on are the same.
#[verifier::rlimit(50)]
pub proof fn law_program_reads_only_what_follows(a: Seq<Token>, i: int, b: Seq<Token>, j: int)
    requires
        agree_from(a, i, b, j),
    ensures
        same_step(p_program(a, i), p_program(b, j), i, j),
    decreases a.len() - i,
{
    if i < a.len() {
        assert(a[i] == b[i - i + j]);
        let k = a[i].kind;
        if k == TokenKind::Comment {
            lemma_agree_later(a, i, b, j, i + 1);
            law_program_reads_only_what_follows(a, i + 1, b, j + 1);
        } else if k == TokenKind::KwFunction {
            shift_function_declare(a, i, b, j);
            let m = p_function_declare(a, i).1;
            if i < m <= a.len() {
                lemma_agree_later(a, i, b, j, m);
                law_program_reads_only_what_follows(a, m, b, m - i + j);
            }
        } else {
            shift_stmt(a, i, b, j);
            let m = p_stmt(a, i).1;
            if i < m <= a.len() {
                lemma_agree_later(a, i, b, j, m);
                law_program_reads_only_what_follows(a, m, b, m - i + j);
            }
        }
    }
}

/// A run of comments where a top-level statement may start is skipped as a
/// whole: the program parser goes on as if the tokens began after the run.
pub proof fn law_program_skips_comment_runs(ts: Seq<Token>, i: int, k: int)
    requires
        0 <= i <= k <= ts.len(),
        forall|x: int| i <= x < k ==> (#[trigger] ts[x]).kind == TokenKind::Comment,
    ensures
        p_program(ts, i) == p_program(ts, k),
    decreases k - i,
{
    if i < k {
        assert(ts[i].kind == TokenKind::Comment);
        law_program_skips_comment_runs(ts, i + 1, k);
    }
}

/// Comments in front of the first top-level statement do not change what
/// the program parser gives: dropping them gives the same result.
pub proof fn law_leading_comments_do_not_matter(ts: Seq<Token>, m: int)
    requires
        0 <= m <= ts.len(),
        forall|x: int| 0 <= x < m ==> (#[trigger] ts[x]).kind == TokenKind::Comment,
    ensures
        p_program(ts, 0).0 == p_program(ts.skip(m), 0).0,
{
    law_program_skips_comment_runs(ts, 0, m);
    let rest = ts.skip(m);
    assert forall|x: int| m <= x < ts.len() implies #[trigger] ts[x] == rest[x - m + 0] by {}
    law_program_reads_only_what_follows(ts, m, rest, 0);
}

/// Where the program parser stands at a comment, dropping that comment from
/// the tokens does not change what it gives from there; it only stops one
/// token earlier.
pub proof fn law_dropping_a_comment_where_a_statement_may_start(ts: Seq<Token>, k: int)
    requires
        0 <= k < ts.len(),
        ts[k].kind == TokenKind::Comment,
    ensures
        p_program(ts, k).0 == p_program(ts.remove(k), k).0,
        p_program(ts, k).1 == p_program(ts.remove(k), k).1 + 1,
{
    let rest = ts.remove(k);
    assert forall|x: int| k + 1 <= x < ts.len() implies #[trigger] ts[x] == rest[x - (k + 1) + k] by {}
    law_program_reads_only_what_follows(ts, k + 1, rest, k);
}

/// The tokens of `b` before `k` are those of `a` from `i` on, `a` has a
/// comment at `k`, and at `k` (where `b` may have run out) `b` has neither
/// a binary operator nor `else`: the two tokens that a statement looks at
/// after its end.
pub open spec fn same_before(a: Seq<Token>, b: Seq<Token>, i: int, k: int) -> bool {
    &&& 0 <= i <= k < a.len()
    &&& k <= b.len()
    &&& a[k].kind == TokenKind::Comment
    &&& (k < b.len() ==> !is_binary_op(b[k].kind) && b[k].kind != TokenKind::KwElse)
    &&& forall|x: int| i <= x < k ==> #[trigger] a[x] == b[x]
}

proof fn keep_later(a: Seq<Token>, i: int, b: Seq<Token>, k: int, p: int)
    requires
        same_before(a, b, i, k),
        i <= p <= k,
    ensures
        same_before(a, b, p, k),
{
}

proof fn keep_expect(a: Seq<Token>, i: int, b: Seq<Token>, k: int, kind: TokenKind)
    requires
        0 <= i,
        i <= k ==> same_before(a, b, i, k),
        expect(a, i, kind).0 is Ok,
        expect(a, i, kind).1 <= k,
    ensures
        expect(b, i, kind) == expect(a, i, kind),
{
    assert(a[i] == b[i]);
}

proof fn keep_type(a: Seq<Token>, i: int, b: Seq<Token>, k: int)
    requires
        same_before(a, b, i, k),
        p_type(a, i).0 is Ok,
        p_type(a, i).1 <= k,
    ensures
        p_type(b, i) == p_type(a, i),
    decreases a.len() - i,
{
    assert(a[i] == b[i]);
    let t = a[i].kind;
    if t == TokenKind::Star {
        keep_type(a, i + 1, b, k);
    } else if t == TokenKind::LSquare {
        assert(a[i + 1] == b[i + 1]);
        keep_type(a, i + 2, b, k);
    }
}

proof fn keep_annotated_param(a: Seq<Token>, i: int, b: Seq<Token>, k: int)
    requires
        same_before(a, b, i, k),
        p_annotated_param(a, i).0 is Ok,
        p_annotated_param(a, i).1 <= k,
    ensures
        p_annotated_param(b, i) == p_annotated_param(a, i),
{
    let i1 = expect(a, i, TokenKind::Ident).1;
    let i2 = expect(a, i1, TokenKind::Colon).1;
    shift_type(a, i2, a, i2);
    let i3 = p_type(a, i2).1;
    keep_expect(a, i, b, k, TokenKind::Ident);
    keep_expect(a, i1, b, k, TokenKind::Colon);
    keep_later(a, i, b, k, i2);
    keep_type(a, i2, b, k);
}

proof fn keep_annotated_params(a: Seq<Token>, i: int, b: Seq<Token>, k: int)
    requires
        same_before(a, b, i, k),
        p_annotated_params(a, i).0 is Ok,
        p_annotated_params(a, i).1 <= k,
    ensures
        p_annotated_params(b, i) == p_annotated_params(a, i),
    decreases a.len() - i, 0int,
{
    assert(a[i] == b[i]);
    if a[i].kind != TokenKind::RParen {
        shift_annotated_param(a, i, a, i);
        let m = p_annotated_param(a, i).1;
        if p_annotated_param(a, i).0 is Ok {
            if m < a.len() && a[m].kind == TokenKind::Comma && i < m + 1 <= a.len() {
                shift_annotated_params(a, m + 1, a, m + 1);
            }
            keep_annotated_param(a, i, b, k);
            if m < k {
                assert(a[m] == b[m]);
            }
            if m < a.len() && a[m].kind == TokenKind::Comma && i < m + 1 <= a.len() {
                keep_later(a, i, b, k, m + 1);
                keep_annotated_params(a, m + 1, b, k);
            }
        }
    }
}

proof fn keep_fields(a: Seq<Token>, i: int, b: Seq<Token>, k: int)
    requires
        same_before(a, b, i, k),
        p_fields(a, i).0 is Ok,
        p_fields(a, i).1 <= k,
    ensures
        p_fields(b, i) == p_fields(a, i),
    decreases a.len() - i, 0int,
{
    assert(a[i] == b[i]);
    {
        shift_annotated_param(a, i, a, i);
        let m = p_annotated_param(a, i).1;
        if p_annotated_param(a, i).0 is Ok {
            if m < a.len() && a[m].kind == TokenKind::Comma && i < m + 1 <= a.len() {
                shift_fields(a, m + 1, a, m + 1);
            }
            keep_annotated_param(a, i, b, k);
            if m < k {
                assert(a[m] == b[m]);
            }
            if m < a.len() && a[m].kind == TokenKind::Comma && i < m + 1 <= a.len() {
                keep_later(a, i, b, k, m + 1);
                keep_fields(a, m + 1, b, k);
            }
        }
    }
}

proof fn keep_field_list(a: Seq<Token>, i: int, b: Seq<Token>, k: int)
    requires
        same_before(a, b, i, k),
        p_field_list(a, i).0 is Ok,
        p_field_list(a, i).1 <= k,
    ensures
        p_field_list(b, i) == p_field_list(a, i),
{
    if i < k {
        assert(a[i] == b[i]);
    }
    if a[i].kind != TokenKind::RCurly {
        keep_fields(a, i, b, k);
    }
}

proof fn keep_value(a: Seq<Token>, i: int, b: Seq<Token>, k: int)
    requires
        same_before(a, b, i, k),
        p_value(a, i).0 is Ok,
        p_value(a, i).1 <= k,
    ensures
        p_value(b, i) == p_value(a, i),
    decreases a.len() - i, 0int,
{
    assert(a[i] == b[i]);
    let t = a[i].kind;
    if super::grammar::is_unary_op(t) {
        keep_value(a, i + 1, b, k);
    } else if t == TokenKind::LParen {
        shift_expr(a, i + 1, a, i + 1);
        let m = p_expr(a, i + 1).1;
        keep_expr(a, i + 1, b, k);
        keep_expect(a, m, b, k, TokenKind::RParen);
    }
}

proof fn keep_expr(a: Seq<Token>, i: int, b: Seq<Token>, k: int)
    requires
        same_before(a, b, i, k),
        p_expr(a, i).0 is Ok,
        p_expr(a, i).1 <= k,
    ensures
        p_expr(b, i) == p_expr(a, i),
    decreases a.len() - i, 3int,
{
    keep_binary(a, i, b, k, 0);
}

proof fn keep_binary(a: Seq<Token>, i: int, b: Seq<Token>, k: int, min: u8)
    requires
        same_before(a, b, i, k),
        p_binary(a, i, min).0 is Ok,
        p_binary(a, i, min).1 <= k,
    ensures
        p_binary(b, i, min) == p_binary(a, i, min),
    decreases a.len() - i, 2int,
{
    shift_value(a, i, a, i);
    match p_value(a, i) {
        (Ok(lhs), m) => {
            if i < m <= a.len() {
                shift_binary_rest(a, m, a, m, lhs, min);
                keep_value(a, i, b, k);
                keep_later(a, i, b, k, m);
                keep_binary_rest(a, m, b, k, lhs, min);
            }
        },
        (Err(_), _) => {},
    }
}

proof fn keep_binary_rest(a: Seq<Token>, i: int, b: Seq<Token>, k: int, lhs: Spanned<Expr>, min: u8)
    requires
        same_before(a, b, i, k),
        p_binary_rest(a, i, lhs, min).0 is Ok,
        p_binary_rest(a, i, lhs, min).1 <= k,
    ensures
        p_binary_rest(b, i, lhs, min) == p_binary_rest(a, i, lhs, min),
    decreases a.len() - i, 1int,
{
    if i < k {
        assert(a[i] == b[i]);
        let t = a[i].kind;
        if is_binary_op(t) && precedence(t) > min {
            shift_binary(a, i + 1, a, i + 1, precedence(t));
            match p_binary(a, i + 1, precedence(t)) {
                (Ok(rhs), m) => {
                    if i < m <= a.len() {
                        let combined = Spanned {
                            target: Expr::Binary {
                                op: binary_op_of(t),
                                lhs: Box::new(lhs.target),
                                rhs: Box::new(rhs.target),
                            },
                            location: lhs.location,
                        };
                        shift_binary_rest(a, m, a, m, combined, min);
                        keep_binary(a, i + 1, b, k, precedence(t));
                        keep_later(a, i, b, k, m);
                        keep_binary_rest(a, m, b, k, combined, min);
                    }
                },
                (Err(_), _) => {},
            }
        }
    }
}

proof fn keep_local_declare(a: Seq<Token>, i: int, b: Seq<Token>, k: int)
    requires
        same_before(a, b, i, k),
        p_local_declare(a, i).0 is Ok,
        p_local_declare(a, i).1 <= k,
    ensures
        p_local_declare(b, i) == p_local_declare(a, i),
{
    let i1 = expect(a, i, TokenKind::KwLocal).1;
    let i2 = expect(a, i1, TokenKind::Ident).1;
    let i3 = expect(a, i2, TokenKind::Colon).1;
    shift_type(a, i3, a, i3);
    let i4 = p_type(a, i3).1;
    let i5 = expect(a, i4, TokenKind::Equal).1;
    shift_expr(a, i5, a, i5);
    let i6 = p_expr(a, i5).1;
    keep_expect(a, i, b, k, TokenKind::KwLocal);
    keep_expect(a, i1, b, k, TokenKind::Ident);
    keep_expect(a, i2, b, k, TokenKind::Colon);
    keep_later(a, i, b, k, i3);
    keep_type(a, i3, b, k);
    keep_expect(a, i4, b, k, TokenKind::Equal);
    keep_later(a, i, b, k, i5);
    keep_expr(a, i5, b, k);
}

proof fn keep_assignment(a: Seq<Token>, i: int, b: Seq<Token>, k: int)
    requires
        same_before(a, b, i, k),
        p_assignment(a, i).0 is Ok,
        p_assignment(a, i).1 <= k,
    ensures
        p_assignment(b, i) == p_assignment(a, i),
{
    let i1 = expect(a, i, TokenKind::Ident).1;
    let i2 = expect(a, i1, TokenKind::Equal).1;
    shift_expr(a, i2, a, i2);
    let i3 = p_expr(a, i2).1;
    keep_expect(a, i, b, k, TokenKind::Ident);
    keep_expect(a, i1, b, k, TokenKind::Equal);
    keep_later(a, i, b, k, i2);
    keep_expr(a, i2, b, k);
}

proof fn keep_struct_declare(a: Seq<Token>, i: int, b: Seq<Token>, k: int)
    requires
        same_before(a, b, i, k),
        p_struct_declare(a, i).0 is Ok,
        p_struct_declare(a, i).1 <= k,
    ensures
        p_struct_declare(b, i) == p_struct_declare(a, i),
{
    let i1 = expect(a, i, TokenKind::KwStruct).1;
    let i2 = expect(a, i1, TokenKind::Ident).1;
    let i3 = expect(a, i2, TokenKind::Equal).1;
    let i4 = expect(a, i3, TokenKind::LCurly).1;
    shift_field_list(a, i4, a, i4);
    let i5 = p_field_list(a, i4).1;
    let i6 = expect(a, i5, TokenKind::RCurly).1;
    keep_expect(a, i, b, k, TokenKind::KwStruct);
    keep_expect(a, i1, b, k, TokenKind::Ident);
    keep_expect(a, i2, b, k, TokenKind::Equal);
    keep_expect(a, i3, b, k, TokenKind::LCurly);
    keep_later(a, i, b, k, i4);
    keep_field_list(a, i4, b, k);
    keep_expect(a, i5, b, k, TokenKind::RCurly);
}

proof fn keep_return(a: Seq<Token>, i: int, b: Seq<Token>, k: int)
    requires
        same_before(a, b, i, k),
        p_return(a, i).0 is Ok,
        p_return(a, i).1 <= k,
    ensures
        p_return(b, i) == p_return(a, i),
{
    let i1 = expect(a, i, TokenKind::KwReturn).1;
    keep_expect(a, i, b, k, TokenKind::KwReturn);
    if i1 < k {
        assert(a[i1] == b[i1]);
        if a[i1].kind != TokenKind::KwEnd {
            shift_value(a, i1, a, i1);
            keep_value(a, i1, b, k);
        }
    }
}

proof fn keep_while_loop(a: Seq<Token>, i: int, b: Seq<Token>, k: int)
    requires
        same_before(a, b, i, k),
        p_while_loop(a, i).0 is Ok,
        p_while_loop(a, i).1 <= k,
    ensures
        p_while_loop(b, i) == p_while_loop(a, i),
    decreases a.len() - i, 1int,
{
    let i1 = expect(a, i, TokenKind::KwWhile).1;
    shift_expr(a, i1, a, i1);
    let i2 = p_expr(a, i1).1;
    let i3 = expect(a, i2, TokenKind::KwDo).1;
    shift_block(a, i3, a, i3);
    keep_expect(a, i, b, k, TokenKind::KwWhile);
    keep_later(a, i, b, k, i1);
    keep_expr(a, i1, b, k);
    keep_expect(a, i2, b, k, TokenKind::KwDo);
    keep_later(a, i, b, k, i3);
    keep_block(a, i3, b, k);
}

#[verifier::rlimit(60)]
proof fn keep_for_loop(a: Seq<Token>, i: int, b: Seq<Token>, k: int)
    requires
        same_before(a, b, i, k),
        p_for_loop(a, i).0 is Ok,
        p_for_loop(a, i).1 <= k,
    ensures
        p_for_loop(b, i) == p_for_loop(a, i),
    decreases a.len() - i, 1int,
{
    let i1 = expect(a, i, TokenKind::KwFor).1;
    let i2 = expect(a, i1, TokenKind::Ident).1;
    let i3 = expect(a, i2, TokenKind::Equal).1;
    shift_expr(a, i3, a, i3);
    let i4 = p_expr(a, i3).1;
    let i5 = expect(a, i4, TokenKind::Comma).1;
    shift_expr(a, i5, a, i5);
    let i6 = p_expr(a, i5).1;
    let i7 = expect(a, i6, TokenKind::KwDo).1;
    shift_block(a, i7, a, i7);
    keep_expect(a, i, b, k, TokenKind::KwFor);
    keep_expect(a, i1, b, k, TokenKind::Ident);
    keep_expect(a, i2, b, k, TokenKind::Equal);
    keep_later(a, i, b, k, i3);
    keep_expr(a, i3, b, k);
    keep_expect(a, i4, b, k, TokenKind::Comma);
    keep_later(a, i, b, k, i5);
    keep_expr(a, i5, b, k);
    keep_expect(a, i6, b, k, TokenKind::KwDo);
    keep_later(a, i, b, k, i7);
    keep_block(a, i7, b, k);
}

#[verifier::rlimit(60)]
proof fn keep_if_stmt(a: Seq<Token>, i: int, b: Seq<Token>, k: int)
    requires
        same_before(a, b, i, k),
        p_if_stmt(a, i).0 is Ok,
        p_if_stmt(a, i).1 <= k,
    ensures
        p_if_stmt(b, i) == p_if_stmt(a, i),
    decreases a.len() - i, 1int,
{
    let i1 = expect(a, i, TokenKind::KwIf).1;
    shift_expr(a, i1, a, i1);
    let i2 = p_expr(a, i1).1;
    let i3 = expect(a, i2, TokenKind::KwThen).1;
    shift_block(a, i3, a, i3);
    let i4 = p_block(a, i3).1;
    shift_block(a, i4 + 1, a, i4 + 1);
    keep_expect(a, i, b, k, TokenKind::KwIf);
    keep_later(a, i, b, k, i1);
    keep_expr(a, i1, b, k);
    keep_expect(a, i2, b, k, TokenKind::KwThen);
    keep_later(a, i, b, k, i3);
    keep_block(a, i3, b, k);
    if i4 < k {
        assert(a[i4] == b[i4]);
        if a[i4].kind == TokenKind::KwElse {
            keep_later(a, i, b, k, i4 + 1);
            keep_block(a, i4 + 1, b, k);
        }
    }
}

proof fn keep_stmt(a: Seq<Token>, i: int, b: Seq<Token>, k: int)
    requires
        same_before(a, b, i, k),
        p_stmt(a, i).0 is Ok,
        p_stmt(a, i).1 <= k,
    ensures
        p_stmt(b, i) == p_stmt(a, i),
    decreases a.len() - i, 2int,
{
    assert(a[i] == b[i]);
    match a[i].kind {
        TokenKind::KwLocal => keep_local_declare(a, i, b, k),
        TokenKind::KwStruct => keep_struct_declare(a, i, b, k),
        TokenKind::Ident => keep_assignment(a, i, b, k),
        TokenKind::KwIf => keep_if_stmt(a, i, b, k),
        TokenKind::KwFor => keep_for_loop(a, i, b, k),
        TokenKind::KwWhile => keep_while_loop(a, i, b, k),
        TokenKind::KwReturn => keep_return(a, i, b, k),
        _ => {},
    }
}

proof fn keep_block(a: Seq<Token>, i: int, b: Seq<Token>, k: int)
    requires
        same_before(a, b, i, k),
        p_block(a, i).0 is Ok,
        p_block(a, i).1 <= k,
    ensures
        p_block(b, i) == p_block(a, i),
    decreases a.len() - i, 3int,
{
    if i == k {
        assert(p_stmt(a, k).0 is Err);
    }
    assert(a[i] == b[i]);
    if a[i].kind != TokenKind::KwEnd {
        shift_stmt(a, i, a, i);
        let m = p_stmt(a, i).1;
        if i < m <= a.len() {
            shift_block(a, m, a, m);
            keep_stmt(a, i, b, k);
            keep_later(a, i, b, k, m);
            keep_block(a, m, b, k);
        }
    }
}

proof fn keep_return_type(a: Seq<Token>, i: int, b: Seq<Token>, k: int)
    requires
        same_before(a, b, i, k),
        i < k,
        p_return_type(a, i).0 is Ok,
        p_return_type(a, i).1 <= k,
    ensures
        p_return_type(b, i) == p_return_type(a, i),
{
    assert(a[i] == b[i]);
    if a[i].kind == TokenKind::Colon {
        keep_type(a, i + 1, b, k);
    }
}

#[verifier::rlimit(60)]
proof fn keep_function_declare(a: Seq<Token>, i: int, b: Seq<Token>, k: int)
    requires
        same_before(a, b, i, k),
        p_function_declare(a, i).0 is Ok,
        p_function_declare(a, i).1 <= k,
    ensures
        p_function_declare(b, i) == p_function_declare(a, i),
{
    let i1 = expect(a, i, TokenKind::KwFunction).1;
    let i2 = expect(a, i1, TokenKind::Ident).1;
    let i3 = expect(a, i2, TokenKind::LParen).1;
    shift_annotated_params(a, i3, a, i3);
    let i4 = p_annotated_params(a, i3).1;
    let i5 = expect(a, i4, TokenKind::RParen).1;
    shift_return_type(a, i5, a, i5);
    let i6 = p_return_type(a, i5).1;
    shift_block(a, i6, a, i6);
    assert(p_stmt(a, k).0 is Err);
    assert(p_block(a, k).0 is Err);
    keep_expect(a, i, b, k, TokenKind::KwFunction);
    keep_expect(a, i1, b, k, TokenKind::Ident);
    keep_expect(a, i2, b, k, TokenKind::LParen);
    keep_later(a, i, b, k, i3);
    keep_annotated_params(a, i3, b, k);
    keep_expect(a, i4, b, k, TokenKind::RParen);
    keep_later(a, i, b, k, i5);
    keep_return_type(a, i5, b, k);
    keep_later(a, i, b, k, i6);
    keep_block(a, i6, b, k);
}

/// The program parser, parsing `ts` from `i`, comes to `k`: there it skips
/// a comment or starts a top-level statement, all before having succeeded.
pub open spec fn reaches(ts: Seq<Token>, i: int, k: int) -> bool
    decreases ts.len() - i,
{
    if i == k {
        true
    } else if i < 0 || i > k || i >= ts.len() {
        false
    } else if ts[i].kind == TokenKind::Comment {
        reaches(ts, i + 1, k)
    } else if ts[i].kind == TokenKind::KwFunction {
        let (r, m) = p_function_declare(ts, i);
        if r is Ok && i < m <= ts.len() {
            reaches(ts, m, k)
        } else {
            false
        }
    } else {
        let (r, m) = p_stmt(ts, i);
        if r is Ok && i < m <= ts.len() {
            reaches(ts, m, k)
        } else {
            false
        }
    }
}

#[verifier::rlimit(80)]
proof fn drop_comment_from(ts: Seq<Token>, i: int, k: int)
    requires
        0 <= i <= k < ts.len(),
        ts[k].kind == TokenKind::Comment,
        reaches(ts, i, k),
        k + 1 < ts.len() ==> !is_binary_op(ts[k + 1].kind) && ts[k + 1].kind
            != TokenKind::KwElse,
    ensures
        p_program(ts, i).0 == p_program(ts.remove(k), i).0,
    decreases ts.len() - i,
{
    let b = ts.remove(k);
    if i == k {
        law_dropping_a_comment_where_a_statement_may_start(ts, k);
    } else {
        assert(ts[i] == b[i]);
        assert(same_before(ts, b, i, k)) by {
            assert forall|x: int| i <= x < k implies #[trigger] ts[x] == b[x] by {}
        }
        if ts[i].kind == TokenKind::Comment {
            drop_comment_from(ts, i + 1, k);
        } else if ts[i].kind == TokenKind::KwFunction {
            let m = p_function_declare(ts, i).1;
            assert(reaches(ts, m, k));
            assert(m <= k);
            keep_function_declare(ts, i, b, k);
            drop_comment_from(ts, m, k);
        } else {
            let m = p_stmt(ts, i).1;
            assert(reaches(ts, m, k));
            assert(m <= k);
            keep_stmt(ts, i, b, k);
            drop_comment_from(ts, m, k);
        }
    }
}

/// Where the program parser, parsing `ts` from the start, comes to a comment
/// at `k`, dropping that comment from the tokens does not change what it
/// gives, provided the token after the comment is neither a binary operator
/// nor `else`. Those are the tokens a statement looks at just past its end
/// (for another operand, or for an `else` block); a comment in between hides
/// them from it, so there removing the comment can change the result.
pub proof fn law_dropping_a_top_level_comment(ts: Seq<Token>, k: int)
    requires
        0 <= k < ts.len(),
        ts[k].kind == TokenKind::Comment,
        reaches(ts, 0, k),
        k + 1 < ts.len() ==> !is_binary_op(ts[k + 1].kind) && ts[k + 1].kind
            != TokenKind::KwElse,
    ensures
        p_program(ts, 0).0 == p_program(ts.remove(k), 0).0,
{
    drop_comment_from(ts, 0, k);
}

/// A parse never moves the position back.
pub proof fn lemma_expr_moves_forward(ts: Seq<Token>, i: int)
    requires
        0 <= i,
    ensures
        p_expr(ts, i).1 >= i,
{
    shift_expr(ts, i, ts, i);
}

/// A parse never moves the position back.
pub proof fn lemma_value_moves_forward(ts: Seq<Token>, i: int)
    requires
        0 <= i,
    ensures
        p_value(ts, i).1 >= i,
{
    shift_value(ts, i, ts, i);
}

/// A parse never moves the position back.
pub proof fn lemma_block_moves_forward(ts: Seq<Token>, i: int)
    requires
        0 <= i,
    ensures
        p_block(ts, i).1 >= i,
{
    shift_block(ts, i, ts, i);
}

/// A parse never moves the position back.
pub proof fn lemma_stmt_moves_forward(ts: Seq<Token>, i: int)
    requires
        0 <= i,
    ensures
        p_stmt(ts, i).1 >= i,
{
    shift_stmt(ts, i, ts, i);
}

/// A parse never moves the position back.
pub proof fn lemma_type_moves_forward(ts: Seq<Token>, i: int)
    requires
        0 <= i,
    ensures
        p_type(ts, i).1 >= i,
{
    shift_type(ts, i, ts, i);
}

} // verus!
