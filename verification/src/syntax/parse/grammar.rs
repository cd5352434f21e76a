//! The grammar that the parser follows, as functions on token sequences.
//!
//! Each function takes the tokens and the parser's position, and gives what
//! the corresponding parser method returns together with the position
//! afterwards, on success and on failure alike. The position counts the
//! tokens asked for: below the number of tokens it is the index of the next
//! token; each request for a token moves it on by one, also once the tokens
//! have run out.
use vstd::prelude::*;

use crate::syntax::ast::{
    Block, BinaryOp, Expr, Literal, Numeric, Stmt, StmtModel, ToplevelModel, ToplevelStmt, Ty,
    UnaryOp, block_model, program_model, spanned_stmt_model, toplevel_model,
};
use crate::syntax::errors::SyntaxError;
use crate::syntax::lexer::{Token, TokenKind};
use crate::syntax::span::Spanned;

verus! {

/// What a parsing step returns, and where the parser stands after it.
pub type Step<T> = (Result<T, SyntaxError>, int);

/// A parse result that holds a vector, with the vector taken as a sequence.
pub open spec fn vec_result<T>(r: Result<Vec<T>, SyntaxError>) -> Result<Seq<T>, SyntaxError> {
    match r {
        Ok(v) => Ok(v@),
        Err(e) => Err(e),
    }
}

/// A parsed statement taken by its model.
pub open spec fn stmt_result(r: Result<Spanned<Stmt>, SyntaxError>) -> Result<
    Spanned<StmtModel>,
    SyntaxError,
> {
    match r {
        Ok(s) => Ok(spanned_stmt_model(s)),
        Err(e) => Err(e),
    }
}

/// A parsed block taken by its model.
pub open spec fn block_result(r: Result<Block, SyntaxError>) -> Result<
    Seq<Spanned<StmtModel>>,
    SyntaxError,
> {
    match r {
        Ok(b) => Ok(block_model(b@)),
        Err(e) => Err(e),
    }
}

/// A parsed top-level statement taken by its model.
pub open spec fn toplevel_result(r: Result<ToplevelStmt, SyntaxError>) -> Result<
    ToplevelModel,
    SyntaxError,
> {
    match r {
        Ok(s) => Ok(toplevel_model(s)),
        Err(e) => Err(e),
    }
}

/// A parsed program taken by its model.
pub open spec fn program_result(r: Result<Vec<Spanned<ToplevelStmt>>, SyntaxError>) -> Result<
    Seq<Spanned<ToplevelModel>>,
    SyntaxError,
> {
    match r {
        Ok(p) => Ok(program_model(p@)),
        Err(e) => Err(e),
    }
}

/// The value of a step whose sub-step did not advance. Every parsing step
/// that succeeds consumes a token, so this value is never taken; it only
/// makes the recursion visibly well founded.
pub open spec fn stalled<T>(j: int) -> Step<T> {
    (Err(SyntaxError::UnexpectedEof), j)
}

pub open spec fn kind_at(ts: Seq<Token>, i: int) -> Option<TokenKind> {
    if 0 <= i < ts.len() {
        Some(ts[i].kind)
    } else {
        None
    }
}

/// The error for the token at `i`.
pub open spec fn unexpected(ts: Seq<Token>, i: int) -> SyntaxError {
    SyntaxError::UnexpectedToken { token: ts[i].kind, location: ts[i].location }
}

/// Consume one token and require it to be of kind `kind`. Where no token is
/// left the request still moves the position on.
pub open spec fn expect(ts: Seq<Token>, i: int, kind: TokenKind) -> Step<Token> {
    if i < 0 || i >= ts.len() {
        (Err(SyntaxError::UnexpectedEof), i + 1)
    } else if ts[i].kind == kind {
        (Ok(ts[i]), i + 1)
    } else {
        (Err(unexpected(ts, i)), i + 1)
    }
}

/// As `expect`, with every failure reported as `err`.
pub open spec fn expect_or(ts: Seq<Token>, i: int, kind: TokenKind, err: SyntaxError) -> Step<
    Token,
> {
    match expect(ts, i, kind) {
        (Ok(t), j) => (Ok(t), j),
        (Err(_), j) => (Err(err), j),
    }
}

pub open spec fn is_binary_op(k: TokenKind) -> bool {
    match k {
        TokenKind::Plus | TokenKind::Minus | TokenKind::Star | TokenKind::Slash
        | TokenKind::Equal | TokenKind::BangEqual | TokenKind::Less | TokenKind::LessEqual
        | TokenKind::Greater | TokenKind::GreaterEqual => true,
        _ => false,
    }
}

pub open spec fn is_unary_op(k: TokenKind) -> bool {
    match k {
        TokenKind::Minus | TokenKind::Bang => true,
        _ => false,
    }
}

/// How tightly a binary operator binds; 0 for a token that is no binary
/// operator.
pub open spec fn precedence(k: TokenKind) -> u8 {
    match k {
        TokenKind::Plus | TokenKind::Minus => 10,
        TokenKind::Star | TokenKind::Slash => 20,
        TokenKind::Equal | TokenKind::BangEqual => 5,
        TokenKind::Less | TokenKind::LessEqual | TokenKind::Greater | TokenKind::GreaterEqual => 5,
        _ => 0,
    }
}

pub open spec fn binary_op_of(k: TokenKind) -> BinaryOp {
    match k {
        TokenKind::Plus => BinaryOp::Add,
        TokenKind::Minus => BinaryOp::Sub,
        TokenKind::Star => BinaryOp::Mul,
        TokenKind::Slash => BinaryOp::Div,
        TokenKind::Equal => BinaryOp::Eq,
        TokenKind::BangEqual => BinaryOp::NotEq,
        TokenKind::Less => BinaryOp::Less,
        TokenKind::LessEqual => BinaryOp::LessEq,
        TokenKind::Greater => BinaryOp::Greater,
        _ => BinaryOp::GreaterEq,
    }
}

pub open spec fn unary_op_of(k: TokenKind) -> UnaryOp {
    match k {
        TokenKind::Minus => UnaryOp::Neg,
        _ => UnaryOp::Not,
    }
}

/// A type: `void`, `int`, `float`, `string`, `bool`, `*T`, `[]T` or a name.
pub open spec fn p_type(ts: Seq<Token>, i: int) -> Step<Ty>
    decreases ts.len() - i,
{
    if i < 0 || i >= ts.len() {
        (Err(SyntaxError::UnexpectedEof), i + 1)
    } else {
        let t = ts[i];
        match t.kind {
            TokenKind::Void => (Ok(Ty::Void), i + 1),
            TokenKind::Int => (Ok(Ty::Int), i + 1),
            TokenKind::Float => (Ok(Ty::Float), i + 1),
            TokenKind::String => (Ok(Ty::String), i + 1),
            TokenKind::Bool => (Ok(Ty::Bool), i + 1),
            TokenKind::Star => match p_type(ts, i + 1) {
                (Ok(ty), j) => (Ok(Ty::Pointer(Box::new(ty))), j),
                (Err(e), j) => (Err(e), j),
            },
            TokenKind::LSquare => {
                let err = SyntaxError::UnmatchedBrackets { location: t.location };
                match expect_or(ts, i + 1, TokenKind::RSquare, err) {
                    (Err(e), j) => (Err(e), j),
                    (Ok(_), j) => match p_type(ts, i + 2) {
                        (Ok(ty), k) => (Ok(Ty::Array(Box::new(ty))), k),
                        (Err(e), k) => (Err(e), k),
                    },
                }
            },
            TokenKind::Ident => (Ok(Ty::UserDefined(t.literal)), i + 1),
            _ => (Err(unexpected(ts, i)), i + 1),
        }
    }
}

/// `name: type`
pub open spec fn p_annotated_param(ts: Seq<Token>, i: int) -> Step<(String, Ty)> {
    match expect(ts, i, TokenKind::Ident) {
        (Err(e), j) => (Err(e), j),
        (Ok(ident), j) => match expect(ts, j, TokenKind::Colon) {
            (Err(e), k) => (Err(e), k),
            (Ok(_), k) => match p_type(ts, k) {
                (Err(e), l) => (Err(e), l),
                (Ok(ty), l) => (Ok((ident.literal, ty)), l),
            },
        },
    }
}

/// Puts `x` in front of the list that a step returns.
pub open spec fn cons<T>(x: T, s: Step<Seq<T>>) -> Step<Seq<T>> {
    match s {
        (Ok(rest), j) => (Ok(seq![x] + rest), j),
        (Err(e), j) => (Err(e), j),
    }
}

/// Puts `xs` in front of the list that a step returns.
pub open spec fn prefix<T>(xs: Seq<T>, s: Step<Seq<T>>) -> Step<Seq<T>> {
    match s {
        (Ok(rest), j) => (Ok(xs + rest), j),
        (Err(e), j) => (Err(e), j),
    }
}

/// A list of annotated parameters separated by commas, up to (not
/// including) `)` or the end of the tokens; a trailing comma is allowed.
pub open spec fn p_annotated_params(ts: Seq<Token>, i: int) -> Step<Seq<(String, Ty)>>
    decreases ts.len() - i,
{
    if i < 0 || i >= ts.len() || ts[i].kind == TokenKind::RParen {
        (Ok(seq![]), i)
    } else {
        match p_annotated_param(ts, i) {
            (Err(e), k) => (Err(e), k),
            (Ok(p), k) => if k < ts.len() && ts[k].kind == TokenKind::RParen {
                (Ok(seq![p]), k)
            } else if k < ts.len() {
                if ts[k].kind != TokenKind::Comma {
                    (Err(unexpected(ts, k)), k + 1)
                } else if i < k + 1 <= ts.len() {
                    cons(p, p_annotated_params(ts, k + 1))
                } else {
                    stalled(k)
                }
            } else {
                (Ok(seq![p]), k)
            },
        }
    }
}

/// A list of names separated by commas, up to (not including) `)` or the
/// end of the tokens; a trailing comma is allowed.
pub open spec fn p_params(ts: Seq<Token>, i: int) -> Step<Seq<String>>
    decreases ts.len() - i,
{
    if i < 0 || i >= ts.len() || ts[i].kind == TokenKind::RParen {
        (Ok(seq![]), i)
    } else {
        match expect(ts, i, TokenKind::Ident) {
            (Err(e), k) => (Err(e), k),
            (Ok(ident), k) => if k < ts.len() && ts[k].kind == TokenKind::RParen {
                (Ok(seq![ident.literal]), k)
            } else if k < ts.len() {
                if ts[k].kind != TokenKind::Comma {
                    (Err(unexpected(ts, k)), k + 1)
                } else {
                    cons(ident.literal, p_params(ts, k + 1))
                }
            } else {
                (Ok(seq![ident.literal]), k)
            },
        }
    }
}

pub proof fn lemma_prefix_cons<T>(xs: Seq<T>, x: T, s: Step<Seq<T>>)
    ensures
        prefix(xs, cons(x, s)) == prefix(xs.push(x), s),
{
    match s {
        (Ok(rest), j) => {
            assert(xs + (seq![x] + rest) =~= xs.push(x) + rest);
        },
        (Err(e), j) => {},
    }
}

pub proof fn lemma_prefix_empty<T>(xs: Seq<T>, j: int)
    ensures
        prefix(xs, (Ok(Seq::<T>::empty()), j)) == (Ok::<Seq<T>, SyntaxError>(xs), j),
{
    assert(xs + Seq::<T>::empty() =~= xs);
}

/// An operand: a literal, a name, a parenthesized expression, or a unary
/// operator applied to an operand.
pub open spec fn p_value(ts: Seq<Token>, i: int) -> Step<Spanned<Expr>>
    decreases ts.len() - i, 0int,
{
    if i < 0 || i >= ts.len() {
        (Err(SyntaxError::UnexpectedEof), i + 1)
    } else {
        let t = ts[i];
        let at = |e: Expr| Spanned { target: e, location: t.location };
        if is_unary_op(t.kind) {
            match p_value(ts, i + 1) {
                (Ok(v), j) => (
                    Ok(at(Expr::Unary { op: unary_op_of(t.kind), operand: Box::new(v.target) })),
                    j,
                ),
                (Err(e), j) => (Err(e), j),
            }
        } else {
            match t.kind {
                TokenKind::IntLit => (Ok(at(Expr::Literal(Literal::Number(Numeric::Int(t.literal))))), i + 1),
                TokenKind::FloatLit => (Ok(at(Expr::Literal(Literal::Number(Numeric::Float(t.literal))))), i + 1),
                TokenKind::StringLit => (Ok(at(Expr::Literal(Literal::Str(t.literal)))), i + 1),
                TokenKind::KwTrue => (Ok(at(Expr::Literal(Literal::Bool(true)))), i + 1),
                TokenKind::KwFalse => (Ok(at(Expr::Literal(Literal::Bool(false)))), i + 1),
                TokenKind::Ident => (Ok(at(Expr::Variable(t.literal))), i + 1),
                TokenKind::LParen => match p_expr(ts, i + 1) {
                    (Err(e), j) => (Err(e), j),
                    (Ok(inner), j) => match expect(ts, j, TokenKind::RParen) {
                        (Err(e), k) => (Err(e), k),
                        (Ok(_), k) => (Ok(at(inner.target)), k),
                    },
                },
                _ => (Err(unexpected(ts, i)), i + 1),
            }
        }
    }
}

/// An expression: operands joined by binary operators, where an operator of
/// higher precedence binds tighter and operators of equal precedence group to
/// the left.
pub open spec fn p_expr(ts: Seq<Token>, i: int) -> Step<Spanned<Expr>>
    decreases ts.len() - i, 3int,
{
    p_binary(ts, i, 0)
}

/// An operand followed by the operators, and their right operands, whose
/// precedence exceeds `min`.
pub open spec fn p_binary(ts: Seq<Token>, i: int, min: u8) -> Step<Spanned<Expr>>
    decreases ts.len() - i, 2int,
{
    match p_value(ts, i) {
        (Err(e), j) => (Err(e), j),
        (Ok(lhs), j) => if i < j <= ts.len() {
            p_binary_rest(ts, j, lhs, min)
        } else {
            stalled(j)
        },
    }
}

/// Continues a binary expression whose left operand `lhs` has been parsed.
pub open spec fn p_binary_rest(ts: Seq<Token>, i: int, lhs: Spanned<Expr>, min: u8) -> Step<
    Spanned<Expr>,
>
    decreases ts.len() - i, 1int,
{
    if 0 <= i < ts.len() && is_binary_op(ts[i].kind) && precedence(ts[i].kind) > min {
        let k = ts[i].kind;
        match p_binary(ts, i + 1, precedence(k)) {
            (Err(e), j) => (Err(e), j),
            (Ok(rhs), j) => if i < j <= ts.len() {
                let combined = Spanned {
                    target: Expr::Binary {
                        op: binary_op_of(k),
                        lhs: Box::new(lhs.target),
                        rhs: Box::new(rhs.target),
                    },
                    location: lhs.location,
                };
                p_binary_rest(ts, j, combined, min)
            } else {
                stalled(j)
            },
        }
    } else {
        (Ok(lhs), i)
    }
}


/// A statement that starts at `t`.
pub open spec fn stmt_at(t: Token, s: StmtModel) -> Spanned<StmtModel> {
    Spanned { target: s, location: t.location }
}

/// `local name: type = expr`
pub open spec fn p_local_declare(ts: Seq<Token>, i: int) -> Step<Spanned<StmtModel>> {
    match expect(ts, i, TokenKind::KwLocal) {
        (Err(e), i1) => (Err(e), i1),
        (Ok(t), i1) => match expect(ts, i1, TokenKind::Ident) {
            (Err(e), i2) => (Err(e), i2),
            (Ok(ident), i2) => match expect(ts, i2, TokenKind::Colon) {
                (Err(e), i3) => (Err(e), i3),
                (Ok(_), i3) => match p_type(ts, i3) {
                    (Err(e), i4) => (Err(e), i4),
                    (Ok(ty), i4) => match expect(ts, i4, TokenKind::Equal) {
                        (Err(e), i5) => (Err(e), i5),
                        (Ok(_), i5) => match p_expr(ts, i5) {
                            (Err(e), i6) => (Err(e), i6),
                            (Ok(value), i6) => (
                                Ok(
                                    stmt_at(
                                        t,
                                        StmtModel::Local {
                                            name: ident.literal,
                                            ty: Some(ty),
                                            value: Some(value),
                                        },
                                    ),
                                ),
                                i6,
                            ),
                        },
                    },
                },
            },
        },
    }
}

/// `name = expr`
pub open spec fn p_assignment(ts: Seq<Token>, i: int) -> Step<Spanned<StmtModel>> {
    match expect(ts, i, TokenKind::Ident) {
        (Err(e), i1) => (Err(e), i1),
        (Ok(ident), i1) => match expect(ts, i1, TokenKind::Equal) {
            (Err(e), i2) => (Err(e), i2),
            (Ok(_), i2) => match p_expr(ts, i2) {
                (Err(e), i3) => (Err(e), i3),
                (Ok(value), i3) => (
                    Ok(
                        stmt_at(
                            ident,
                            StmtModel::Assign {
                                target: Spanned {
                                    target: Expr::Variable(ident.literal),
                                    location: ident.location,
                                },
                                value,
                            },
                        ),
                    ),
                    i3,
                ),
            },
        },
    }
}

/// `return [operand]`; the operand is left out where `end` or the end of the
/// tokens follows.
pub open spec fn p_return(ts: Seq<Token>, i: int) -> Step<Spanned<StmtModel>> {
    match expect(ts, i, TokenKind::KwReturn) {
        (Err(e), i1) => (Err(e), i1),
        (Ok(t), i1) => if i1 < ts.len() && ts[i1].kind != TokenKind::KwEnd {
            match p_value(ts, i1) {
                (Err(e), i2) => (Err(e), i2),
                (Ok(v), i2) => (Ok(stmt_at(t, StmtModel::Return(Some(v)))), i2),
            }
        } else {
            (Ok(stmt_at(t, StmtModel::Return(None))), i1)
        },
    }
}

/// One or more fields of a struct declaration: `name: type` separated by
/// commas, up to (not including) `}` or the end of the tokens. A comma must
/// be followed by another field.
pub open spec fn p_fields(ts: Seq<Token>, i: int) -> Step<Seq<(String, Ty)>>
    decreases ts.len() - i,
{
    if i < 0 || i >= ts.len() {
        (Ok(seq![]), i)
    } else {
        match p_annotated_param(ts, i) {
            (Err(e), k) => (Err(e), k),
            (Ok(f), k) => if k < ts.len() && ts[k].kind == TokenKind::RCurly {
                (Ok(seq![f]), k)
            } else if k < ts.len() {
                if ts[k].kind != TokenKind::Comma {
                    (Err(unexpected(ts, k)), k + 1)
                } else if i < k + 1 <= ts.len() {
                    cons(f, p_fields(ts, k + 1))
                } else {
                    stalled(k)
                }
            } else {
                (Ok(seq![f]), k)
            },
        }
    }
}

/// The field list of a struct declaration: empty where `}` follows `{`
/// directly, and otherwise the fields.
pub open spec fn p_field_list(ts: Seq<Token>, i: int) -> Step<Seq<(String, Ty)>> {
    if kind_at(ts, i) == Some(TokenKind::RCurly) {
        (Ok(seq![]), i)
    } else {
        p_fields(ts, i)
    }
}

/// `struct name = { field: type, ... }`, or `struct name = { }`
pub open spec fn p_struct_declare(ts: Seq<Token>, i: int) -> Step<Spanned<StmtModel>> {
    match expect(ts, i, TokenKind::KwStruct) {
        (Err(e), i1) => (Err(e), i1),
        (Ok(t), i1) => match expect(ts, i1, TokenKind::Ident) {
            (Err(e), i2) => (Err(e), i2),
            (Ok(name), i2) => match expect(ts, i2, TokenKind::Equal) {
                (Err(e), i3) => (Err(e), i3),
                (Ok(_), i3) => match expect(ts, i3, TokenKind::LCurly) {
                    (Err(e), i4) => (Err(e), i4),
                    (Ok(_), i4) => match p_field_list(ts, i4) {
                        (Err(e), i5) => (Err(e), i5),
                        (Ok(fields), i5) => match expect(ts, i5, TokenKind::RCurly) {
                            (Err(e), i6) => (Err(e), i6),
                            (Ok(_), i6) => (
                                Ok(stmt_at(t, StmtModel::StructDecl { name: name.literal, fields })),
                                i6,
                            ),
                        },
                    },
                },
            },
        },
    }
}

/// `if cond then ... [else ...] end`
pub open spec fn p_if_stmt(ts: Seq<Token>, i: int) -> Step<Spanned<StmtModel>>
    decreases ts.len() - i, 1int,
{
    match expect(ts, i, TokenKind::KwIf) {
        (Err(e), i1) => (Err(e), i1),
        (Ok(t), i1) => match p_expr(ts, i1) {
            (Err(e), i2) => (Err(e), i2),
            (Ok(cond), i2) => match expect(ts, i2, TokenKind::KwThen) {
                (Err(e), i3) => (Err(e), i3),
                (Ok(_), i3) => if i < i3 <= ts.len() {
                    match p_block(ts, i3) {
                        (Err(e), i4) => (Err(e), i4),
                        (Ok(then_block), i4) => if i4 < ts.len() && ts[i4].kind
                            == TokenKind::KwElse {
                            if i < i4 + 1 <= ts.len() {
                                match p_block(ts, i4 + 1) {
                                    (Err(e), i5) => (Err(e), i5),
                                    (Ok(else_block), i5) => (
                                        Ok(
                                            stmt_at(
                                                t,
                                                StmtModel::If {
                                                    cond,
                                                    then_block,
                                                    else_block: Some(else_block),
                                                },
                                            ),
                                        ),
                                        i5,
                                    ),
                                }
                            } else {
                                stalled(i4)
                            }
                        } else {
                            (
                                Ok(stmt_at(t, StmtModel::If { cond, then_block, else_block: None })),
                                i4,
                            )
                        },
                    }
                } else {
                    stalled(i3)
                },
            },
        },
    }
}

/// `for name = start, end do ... end`
pub open spec fn p_for_loop(ts: Seq<Token>, i: int) -> Step<Spanned<StmtModel>>
    decreases ts.len() - i, 1int,
{
    match expect(ts, i, TokenKind::KwFor) {
        (Err(e), i1) => (Err(e), i1),
        (Ok(t), i1) => match expect(ts, i1, TokenKind::Ident) {
            (Err(e), i2) => (Err(e), i2),
            (Ok(ident), i2) => match expect(ts, i2, TokenKind::Equal) {
                (Err(e), i3) => (Err(e), i3),
                (Ok(_), i3) => match p_expr(ts, i3) {
                    (Err(e), i4) => (Err(e), i4),
                    (Ok(from), i4) => match expect(ts, i4, TokenKind::Comma) {
                        (Err(e), i5) => (Err(e), i5),
                        (Ok(_), i5) => match p_expr(ts, i5) {
                            (Err(e), i6) => (Err(e), i6),
                            (Ok(to), i6) => match expect(ts, i6, TokenKind::KwDo) {
                                (Err(e), i7) => (Err(e), i7),
                                (Ok(_), i7) => if i < i7 <= ts.len() {
                                    match p_block(ts, i7) {
                                        (Err(e), i8) => (Err(e), i8),
                                        (Ok(body), i8) => (
                                            Ok(
                                                stmt_at(
                                                    t,
                                                    StmtModel::For {
                                                        init: ident.literal,
                                                        from,
                                                        to,
                                                        body,
                                                    },
                                                ),
                                            ),
                                            i8,
                                        ),
                                    }
                                } else {
                                    stalled(i7)
                                },
                            },
                        },
                    },
                },
            },
        },
    }
}

/// `while cond do ... end`
pub open spec fn p_while_loop(ts: Seq<Token>, i: int) -> Step<Spanned<StmtModel>>
    decreases ts.len() - i, 1int,
{
    match expect(ts, i, TokenKind::KwWhile) {
        (Err(e), i1) => (Err(e), i1),
        (Ok(t), i1) => match p_expr(ts, i1) {
            (Err(e), i2) => (Err(e), i2),
            (Ok(cond), i2) => match expect(ts, i2, TokenKind::KwDo) {
                (Err(e), i3) => (Err(e), i3),
                (Ok(_), i3) => if i < i3 <= ts.len() {
                    match p_block(ts, i3) {
                        (Err(e), i4) => (Err(e), i4),
                        (Ok(block), i4) => (Ok(stmt_at(t, StmtModel::While { cond, block })), i4),
                    }
                } else {
                    stalled(i3)
                },
            },
        },
    }
}

/// A statement, chosen by its first token.
pub open spec fn p_stmt(ts: Seq<Token>, i: int) -> Step<Spanned<StmtModel>>
    decreases ts.len() - i, 2int,
{
    if i < 0 || i >= ts.len() {
        (Err(SyntaxError::UnexpectedEof), i)
    } else {
        match ts[i].kind {
            TokenKind::KwLocal => p_local_declare(ts, i),
            TokenKind::KwStruct => p_struct_declare(ts, i),
            TokenKind::Ident => p_assignment(ts, i),
            TokenKind::KwIf => p_if_stmt(ts, i),
            TokenKind::KwFor => p_for_loop(ts, i),
            TokenKind::KwWhile => p_while_loop(ts, i),
            TokenKind::KwReturn => p_return(ts, i),
            _ => (Err(unexpected(ts, i)), i),
        }
    }
}

/// Statements up to and including `end`.
pub open spec fn p_block(ts: Seq<Token>, i: int) -> Step<Seq<Spanned<StmtModel>>>
    decreases ts.len() - i, 3int,
{
    if i < 0 || i >= ts.len() {
        (Err(SyntaxError::UnexpectedEof), i + 1)
    } else if ts[i].kind == TokenKind::KwEnd {
        (Ok(seq![]), i + 1)
    } else {
        match p_stmt(ts, i) {
            (Err(e), j) => (Err(e), j),
            (Ok(s), j) => if i < j <= ts.len() {
                cons(s, p_block(ts, j))
            } else {
                stalled(j)
            },
        }
    }
}

/// `import name`
pub open spec fn p_import(ts: Seq<Token>, i: int) -> Step<ToplevelModel> {
    match expect(ts, i, TokenKind::KwImport) {
        (Err(e), i1) => (Err(e), i1),
        (Ok(_), i1) => match expect(ts, i1, TokenKind::Ident) {
            (Err(e), i2) => (Err(e), i2),
            (Ok(name), i2) => (Ok(ToplevelModel::Import { module: name.literal }), i2),
        },
    }
}

/// The return type of a function: `: type`, or `void` where no colon follows
/// the parameters.
pub open spec fn p_return_type(ts: Seq<Token>, i: int) -> Step<Ty> {
    if 0 <= i < ts.len() && ts[i].kind == TokenKind::Colon {
        p_type(ts, i + 1)
    } else {
        (Ok(Ty::Void), i)
    }
}

/// `function name(params)[: type] ... end`
pub open spec fn p_function_declare(ts: Seq<Token>, i: int) -> Step<ToplevelModel> {
    match expect(ts, i, TokenKind::KwFunction) {
        (Err(e), i1) => (Err(e), i1),
        (Ok(_), i1) => match expect(ts, i1, TokenKind::Ident) {
            (Err(e), i2) => (Err(e), i2),
            (Ok(name), i2) => match expect(ts, i2, TokenKind::LParen) {
                (Err(e), i3) => (Err(e), i3),
                (Ok(_), i3) => match p_annotated_params(ts, i3) {
                    (Err(e), i4) => (Err(e), i4),
                    (Ok(params), i4) => match expect(ts, i4, TokenKind::RParen) {
                        (Err(e), i5) => (Err(e), i5),
                        (Ok(_), i5) => match p_return_type(ts, i5) {
                            (Err(e), i6) => (Err(e), i6),
                            (Ok(return_ty), i6) => match p_block(ts, i6) {
                                (Err(e), i7) => (Err(e), i7),
                                (Ok(body), i7) => (
                                    Ok(
                                        ToplevelModel::FunctionDecl {
                                            name: name.literal,
                                            return_ty,
                                            params,
                                            body,
                                        },
                                    ),
                                    i7,
                                ),
                            },
                        },
                    },
                },
            },
        },
    }
}

/// An import, a function declaration or a statement.
pub open spec fn p_toplevel_stmt(ts: Seq<Token>, i: int) -> Step<ToplevelModel> {
    if i < 0 || i >= ts.len() {
        (Err(SyntaxError::UnexpectedEof), i)
    } else {
        match ts[i].kind {
            TokenKind::KwImport => p_import(ts, i),
            TokenKind::KwFunction => p_function_declare(ts, i),
            _ => match p_stmt(ts, i) {
                (Err(e), j) => (Err(e), j),
                (Ok(s), j) => (Ok(ToplevelModel::Stmt(s)), j),
            },
        }
    }
}

/// A whole program: function declarations and statements, each spanned by
/// its first token, with comments skipped.
pub open spec fn p_program(ts: Seq<Token>, i: int) -> Step<Seq<Spanned<ToplevelModel>>>
    decreases ts.len() - i,
{
    if i < 0 || i >= ts.len() {
        (Ok(seq![]), i)
    } else {
        let t = ts[i];
        if t.kind == TokenKind::Comment {
            p_program(ts, i + 1)
        } else if t.kind == TokenKind::KwFunction {
            match p_function_declare(ts, i) {
                (Err(e), j) => (Err(e), j),
                (Ok(f), j) => if i < j <= ts.len() {
                    cons(Spanned { target: f, location: t.location }, p_program(ts, j))
                } else {
                    stalled(j)
                },
            }
        } else {
            match p_stmt(ts, i) {
                (Err(e), j) => (Err(e), j),
                (Ok(s), j) => if i < j <= ts.len() {
                    cons(
                        Spanned { target: ToplevelModel::Stmt(s), location: t.location },
                        p_program(ts, j),
                    )
                } else {
                    stalled(j)
                },
            }
        }
    }
}

} // verus!
