//! Properties of the grammar that hold of every token sequence.
use vstd::prelude::*;

use super::grammar::{
    binary_op_of, expect, expect_or, is_binary_op, p_assignment, p_binary, p_binary_rest,
    p_block, p_expr, p_for_loop, p_function_declare, p_if_stmt, p_import, p_local_declare,
    p_program, p_return, p_stmt, p_struct_declare, p_toplevel_stmt, p_type, p_value,
    p_while_loop, precedence, unexpected,
};
use crate::syntax::ast::{StmtModel, ToplevelModel};
use crate::syntax::ast::{BinaryOp, Expr, Ty, UnaryOp};
use crate::syntax::errors::SyntaxError;
use crate::syntax::lexer::{Token, TokenKind};
use crate::syntax::span::Spanned;

verus! {

/// `expect_error` consumes what `expect` consumes and returns the same token;
/// where `expect` fails, it fails with the error it was given.
pub proof fn law_expect_error_agrees_with_expect(
    ts: Seq<Token>,
    i: int,
    kind: TokenKind,
    err: SyntaxError,
)
    ensures
        expect_or(ts, i, kind, err).1 == expect(ts, i, kind).1,
        expect(ts, i, kind).0 is Ok ==> expect_or(ts, i, kind, err).0 == expect(ts, i, kind).0,
        expect(ts, i, kind).0 is Err ==> expect_or(ts, i, kind, err).0 == Err::<Token, SyntaxError>(
            err,
        ),
{
}

/// A block that parses ends with the token `end`, and consumes at least that
/// token.
pub proof fn law_block_ends_with_end(ts: Seq<Token>, i: int)
    requires
        0 <= i,
    ensures
        p_block(ts, i).0 is Ok ==> i < p_block(ts, i).1 <= ts.len() && ts[p_block(ts, i).1
            - 1].kind == TokenKind::KwEnd,
    decreases ts.len() - i,
{
    if 0 <= i < ts.len() && ts[i].kind != TokenKind::KwEnd {
        match p_stmt(ts, i) {
            (Ok(s), j) => {
                if i < j <= ts.len() {
                    law_block_ends_with_end(ts, j);
                }
            },
            (Err(_), _) => {},
        }
    }
}

/// `a op1 b`, as an expression spanned by `a`.
pub open spec fn binary_at(op: TokenKind, lhs: Expr, rhs: Expr, at: Token) -> Spanned<Expr> {
    Spanned {
        target: Expr::Binary { op: binary_op_of(op), lhs: Box::new(lhs), rhs: Box::new(rhs) },
        location: at.location,
    }
}

/// Of `a op1 b op2 c`, with three names and two binary operators, the
/// operator of higher precedence binds tighter, and of two operators of equal
/// precedence the left one does: the result is `(a op1 b) op2 c` where `op1`
/// binds at least as tightly as `op2`, and `a op1 (b op2 c)` otherwise. The
/// whole expression is consumed and spanned by `a`.
pub proof fn law_precedence_and_left_grouping(ts: Seq<Token>)
    requires
        ts.len() == 5,
        ts[0].kind == TokenKind::Ident,
        ts[2].kind == TokenKind::Ident,
        ts[4].kind == TokenKind::Ident,
        is_binary_op(ts[1].kind),
        is_binary_op(ts[3].kind),
    ensures
        ({
            let a = Expr::Variable(ts[0].literal);
            let b = Expr::Variable(ts[2].literal);
            let c = Expr::Variable(ts[4].literal);
            let (o1, o2) = (ts[1].kind, ts[3].kind);
            let expected = if precedence(o1) >= precedence(o2) {
                binary_at(o2, binary_at(o1, a, b, ts[0]).target, c, ts[0])
            } else {
                binary_at(o1, a, binary_at(o2, b, c, ts[2]).target, ts[0])
            };
            p_expr(ts, 0) == (Ok::<Spanned<Expr>, SyntaxError>(expected), 5int)
        }),
{
    let a = Spanned { target: Expr::Variable(ts[0].literal), location: ts[0].location };
    let b = Spanned { target: Expr::Variable(ts[2].literal), location: ts[2].location };
    let c = Spanned { target: Expr::Variable(ts[4].literal), location: ts[4].location };
    let (o1, o2) = (ts[1].kind, ts[3].kind);
    let (p1, p2) = (precedence(o1), precedence(o2));
    assert(p1 > 0 && p2 > 0);
    assert(p_value(ts, 0) == (Ok::<Spanned<Expr>, SyntaxError>(a), 1int));
    assert(p_value(ts, 2) == (Ok::<Spanned<Expr>, SyntaxError>(b), 3int));
    assert(p_value(ts, 4) == (Ok::<Spanned<Expr>, SyntaxError>(c), 5int));
    assert(p_binary(ts, 4, p2) == (Ok::<Spanned<Expr>, SyntaxError>(c), 5int));
    if p2 > p1 {
        let bc = binary_at(o2, b.target, c.target, ts[2]);
        assert(p_binary_rest(ts, 5, bc, p1) == (Ok::<Spanned<Expr>, SyntaxError>(bc), 5int));
        assert(p_binary_rest(ts, 3, b, p1) == (Ok::<Spanned<Expr>, SyntaxError>(bc), 5int));
        assert(p_binary(ts, 2, p1) == (Ok::<Spanned<Expr>, SyntaxError>(bc), 5int));
        let abc = binary_at(o1, a.target, bc.target, ts[0]);
        assert(p_binary_rest(ts, 5, abc, 0) == (Ok::<Spanned<Expr>, SyntaxError>(abc), 5int));
        assert(p_binary_rest(ts, 1, a, 0) == (Ok::<Spanned<Expr>, SyntaxError>(abc), 5int));
    } else {
        assert(p_binary_rest(ts, 3, b, p1) == (Ok::<Spanned<Expr>, SyntaxError>(b), 3int));
        assert(p_binary(ts, 2, p1) == (Ok::<Spanned<Expr>, SyntaxError>(b), 3int));
        let ab = binary_at(o1, a.target, b.target, ts[0]);
        assert(p_binary_rest(ts, 1, a, 0) == p_binary_rest(ts, 3, ab, 0));
        let abc = binary_at(o2, ab.target, c.target, ts[0]);
        assert(p_binary_rest(ts, 5, abc, 0) == (Ok::<Spanned<Expr>, SyntaxError>(abc), 5int));
        assert(p_binary_rest(ts, 3, ab, 0) == (Ok::<Spanned<Expr>, SyntaxError>(abc), 5int));
    }
    assert(p_binary(ts, 0, 0) == p_binary_rest(ts, 1, a, 0));
}

/// Where the tokens from `i` on spell the type `ty`, the index just past the
/// spelling: `void`, `int`, `float`, `string`, `bool`, `*` and then the
/// pointee, `[` `]` and then the element type, or a name token whose text is
/// the type's name.
pub open spec fn spelling_end(ts: Seq<Token>, i: int, ty: Ty) -> Option<int>
    decreases ty,
{
    if i < 0 || i >= ts.len() {
        None
    } else {
        let k = ts[i].kind;
        match ty {
            Ty::Void => if k == TokenKind::Void {
                Some(i + 1)
            } else {
                None
            },
            Ty::Int => if k == TokenKind::Int {
                Some(i + 1)
            } else {
                None
            },
            Ty::Float => if k == TokenKind::Float {
                Some(i + 1)
            } else {
                None
            },
            Ty::String => if k == TokenKind::String {
                Some(i + 1)
            } else {
                None
            },
            Ty::Bool => if k == TokenKind::Bool {
                Some(i + 1)
            } else {
                None
            },
            Ty::Pointer(inner) => if k == TokenKind::Star {
                spelling_end(ts, i + 1, *inner)
            } else {
                None
            },
            Ty::Array(inner) => if k == TokenKind::LSquare && i + 1 < ts.len() && ts[i + 1].kind
                == TokenKind::RSquare {
                spelling_end(ts, i + 2, *inner)
            } else {
                None
            },
            Ty::UserDefined(name) => if k == TokenKind::Ident && ts[i].literal == name {
                Some(i + 1)
            } else {
                None
            },
        }
    }
}

/// A type that is spelled out from index `i` on parses back as that type,
/// and the parser stops just past its spelling.
pub proof fn law_type_spelling_parses(ts: Seq<Token>, i: int, ty: Ty)
    requires
        spelling_end(ts, i, ty) is Some,
    ensures
        p_type(ts, i) == (Ok::<Ty, SyntaxError>(ty), spelling_end(ts, i, ty)->0),
    decreases ty,
{
    match ty {
        Ty::Pointer(inner) => {
            law_type_spelling_parses(ts, i + 1, *inner);
        },
        Ty::Array(inner) => {
            law_type_spelling_parses(ts, i + 2, *inner);
        },
        _ => {},
    }
}

/// Whatever `p_type` accepts is the spelling of the type it returns: the
/// parser accepts no other token sequences.
pub proof fn law_parsed_type_is_spelled(ts: Seq<Token>, i: int)
    requires
        p_type(ts, i).0 is Ok,
    ensures
        spelling_end(ts, i, p_type(ts, i).0->Ok_0) == Some(p_type(ts, i).1),
    decreases ts.len() - i,
{
    if 0 <= i < ts.len() {
        let k = ts[i].kind;
        if k == TokenKind::Star {
            law_parsed_type_is_spelled(ts, i + 1);
        } else if k == TokenKind::LSquare {
            law_parsed_type_is_spelled(ts, i + 2);
        }
    }
}

/// A comment that stands where a top-level statement may start is skipped:
/// the program parser goes on as if the tokens began just after it.
pub proof fn law_program_skips_comments(ts: Seq<Token>, i: int)
    requires
        0 <= i < ts.len(),
        ts[i].kind == TokenKind::Comment,
    ensures
        p_program(ts, i) == p_program(ts, i + 1),
{
}

/// A statement is parsed by the parser that its first token names: `local`,
/// `struct`, a name, `if`, `for`, `while` or `return`. Any other first token
/// is reported where it stands, and where no token is left the statement
/// parser reports the end of the tokens; in both cases nothing is consumed.
pub proof fn law_statement_dispatch(ts: Seq<Token>, i: int)
    requires
        0 <= i,
    ensures
        i >= ts.len() ==> p_stmt(ts, i) == (
            Err::<Spanned<StmtModel>, SyntaxError>(SyntaxError::UnexpectedEof),
            i,
        ),
        i < ts.len() ==> p_stmt(ts, i) == match ts[i].kind {
            TokenKind::KwLocal => p_local_declare(ts, i),
            TokenKind::KwStruct => p_struct_declare(ts, i),
            TokenKind::Ident => p_assignment(ts, i),
            TokenKind::KwIf => p_if_stmt(ts, i),
            TokenKind::KwFor => p_for_loop(ts, i),
            TokenKind::KwWhile => p_while_loop(ts, i),
            TokenKind::KwReturn => p_return(ts, i),
            _ => (Err(unexpected(ts, i)), i),
        },
{
}

/// A top-level statement is an import where it starts with `import`, a
/// function declaration where it starts with `function`, and otherwise a
/// statement; where no token is left the end of the tokens is reported and
/// nothing is consumed.
pub proof fn law_toplevel_dispatch(ts: Seq<Token>, i: int)
    requires
        0 <= i,
    ensures
        i >= ts.len() ==> p_toplevel_stmt(ts, i) == (
            Err::<ToplevelModel, SyntaxError>(SyntaxError::UnexpectedEof),
            i,
        ),
        i < ts.len() && ts[i].kind == TokenKind::KwImport ==> p_toplevel_stmt(ts, i) == p_import(
            ts,
            i,
        ),
        i < ts.len() && ts[i].kind == TokenKind::KwFunction ==> p_toplevel_stmt(ts, i)
            == p_function_declare(ts, i),
        i < ts.len() && ts[i].kind != TokenKind::KwImport && ts[i].kind != TokenKind::KwFunction
            ==> p_toplevel_stmt(ts, i) == match p_stmt(ts, i) {
            (Ok(s), j) => (Ok(ToplevelModel::Stmt(s)), j),
            (Err(e), j) => (Err(e), j),
        },
{
}

/// The operator table of the language: how tightly each binary operator
/// binds. `*` and `/` bind at 20, `+` and `-` at 10, and `=`, `!=`, `<`,
/// `<=`, `>`, `>=` at 5.
pub open spec fn operator_level(k: TokenKind) -> int {
    match k {
        TokenKind::Star | TokenKind::Slash => 20,
        TokenKind::Plus | TokenKind::Minus => 10,
        TokenKind::Equal | TokenKind::BangEqual | TokenKind::Less | TokenKind::LessEqual
        | TokenKind::Greater | TokenKind::GreaterEqual => 5,
        _ => 0,
    }
}

/// The operation each binary operator token stands for.
pub open spec fn operator_meaning(k: TokenKind) -> BinaryOp {
    match k {
        TokenKind::Star => BinaryOp::Mul,
        TokenKind::Slash => BinaryOp::Div,
        TokenKind::Plus => BinaryOp::Add,
        TokenKind::Minus => BinaryOp::Sub,
        TokenKind::Equal => BinaryOp::Eq,
        TokenKind::BangEqual => BinaryOp::NotEq,
        TokenKind::Less => BinaryOp::Less,
        TokenKind::LessEqual => BinaryOp::LessEq,
        TokenKind::Greater => BinaryOp::Greater,
        _ => BinaryOp::GreaterEq,
    }
}

/// `a op1 b op2 c`, for three names and two binary operators, groups by the
/// operator table: as `(a op1 b) op2 c` where `op1` stands at least as high
/// in the table as `op2`, and as `a op1 (b op2 c)` where it stands lower. So
/// `a + b / c` is `a + (b / c)`, `a / b + c` is `(a / b) + c`, and
/// `a - b + c` is `(a - b) + c`. Each operator means the operation the table
/// gives it.
pub proof fn law_operator_table(ts: Seq<Token>)
    requires
        ts.len() == 5,
        ts[0].kind == TokenKind::Ident,
        ts[2].kind == TokenKind::Ident,
        ts[4].kind == TokenKind::Ident,
        operator_level(ts[1].kind) > 0,
        operator_level(ts[3].kind) > 0,
    ensures
        ({
            let a = Expr::Variable(ts[0].literal);
            let b = Expr::Variable(ts[2].literal);
            let c = Expr::Variable(ts[4].literal);
            let (o1, o2) = (ts[1].kind, ts[3].kind);
            let bin = |op: TokenKind, l: Expr, r: Expr|
                Expr::Binary { op: operator_meaning(op), lhs: Box::new(l), rhs: Box::new(r) };
            let expected = if operator_level(o1) >= operator_level(o2) {
                bin(o2, bin(o1, a, b), c)
            } else {
                bin(o1, a, bin(o2, b, c))
            };
            p_expr(ts, 0) == (
                Ok::<Spanned<Expr>, SyntaxError>(Spanned { target: expected, location: ts[0].location }),
                5int,
            )
        }),
{
    let (o1, o2) = (ts[1].kind, ts[3].kind);
    assert(precedence(o1) as int == operator_level(o1));
    assert(precedence(o2) as int == operator_level(o2));
    assert(binary_op_of(o1) == operator_meaning(o1));
    assert(binary_op_of(o2) == operator_meaning(o2));
    law_precedence_and_left_grouping(ts);
}

/// `-` before an operand negates it and `!` takes its logical not; the
/// result is spanned by the operator and ends where the operand ends. No
/// other operator can stand before an operand: there it is reported where it
/// stands.
pub proof fn law_unary_operators(ts: Seq<Token>, i: int)
    requires
        0 <= i < ts.len(),
        operator_level(ts[i].kind) > 0 || ts[i].kind == TokenKind::Bang,
    ensures
        ts[i].kind == TokenKind::Minus || ts[i].kind == TokenKind::Bang ==> p_value(ts, i) == match p_value(
            ts,
            i + 1,
        ) {
            (Ok(v), j) => (
                Ok(
                    Spanned {
                        target: Expr::Unary {
                            op: if ts[i].kind == TokenKind::Minus {
                                UnaryOp::Neg
                            } else {
                                UnaryOp::Not
                            },
                            operand: Box::new(v.target),
                        },
                        location: ts[i].location,
                    },
                ),
                j,
            ),
            (Err(e), j) => (Err(e), j),
        },
        ts[i].kind != TokenKind::Minus && ts[i].kind != TokenKind::Bang ==> p_value(ts, i) == (
            Err::<Spanned<Expr>, SyntaxError>(
                SyntaxError::UnexpectedToken { token: ts[i].kind, location: ts[i].location },
            ),
            i + 1,
        ),
{
}

} // verus!
