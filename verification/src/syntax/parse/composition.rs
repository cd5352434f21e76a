//! How each statement, each block and the whole program are made of their
//! parts: stated through the parsers of the parts, so that a statement
//! parser that used another sub-parser, or a block or program parser that
//! dropped or reordered what its parts gave, would break these laws.
use vstd::prelude::*;

use super::grammar::{
    p_assignment, p_block, p_expr, p_for_loop, p_function_declare, p_if_stmt, p_local_declare,
    p_program, p_return, p_stmt, p_type, p_value, p_while_loop,
};
use super::suffix::{
    lemma_block_moves_forward, lemma_expr_moves_forward, lemma_stmt_moves_forward,
    lemma_type_moves_forward,
};
use crate::syntax::ast::{Expr, StmtModel, ToplevelModel, Ty};
use crate::syntax::errors::SyntaxError;
use crate::syntax::lexer::{Token, TokenKind};
use crate::syntax::span::Spanned;

verus! {

/// A statement spanned by the token at `i`.
pub open spec fn stmt_from(ts: Seq<Token>, i: int, s: StmtModel) -> Spanned<StmtModel> {
    Spanned { target: s, location: ts[i].location }
}

/// `local name: T = E`: the declared type is what the type parser gives
/// for `T`, and the value is the whole expression `E` as the expression
/// parser gives it; the declaration ends where `E` ends.
pub proof fn law_local_declare_parts(
    ts: Seq<Token>,
    i: int,
    ty: Ty,
    j: int,
    value: Spanned<Expr>,
    k: int,
)
    requires
        0 <= i,
        i + 2 < ts.len(),
        ts[i].kind == TokenKind::KwLocal,
        ts[i + 1].kind == TokenKind::Ident,
        ts[i + 2].kind == TokenKind::Colon,
        p_type(ts, i + 3) == (Ok::<Ty, SyntaxError>(ty), j),
        0 <= j < ts.len(),
        ts[j].kind == TokenKind::Equal,
        p_expr(ts, j + 1) == (Ok::<Spanned<Expr>, SyntaxError>(value), k),
    ensures
        p_local_declare(ts, i) == (
            Ok::<Spanned<StmtModel>, SyntaxError>(
                stmt_from(
                    ts,
                    i,
                    StmtModel::Local { name: ts[i + 1].literal, ty: Some(ty), value: Some(value) },
                ),
            ),
            k,
        ),
{
}

/// `name = E`: the target is the name, spanned by it, and the value is the
/// whole expression `E`; the assignment is spanned by the name.
pub proof fn law_assignment_parts(ts: Seq<Token>, i: int, value: Spanned<Expr>, k: int)
    requires
        0 <= i,
        i + 1 < ts.len(),
        ts[i].kind == TokenKind::Ident,
        ts[i + 1].kind == TokenKind::Equal,
        p_expr(ts, i + 2) == (Ok::<Spanned<Expr>, SyntaxError>(value), k),
    ensures
        p_assignment(ts, i) == (
            Ok::<Spanned<StmtModel>, SyntaxError>(
                stmt_from(
                    ts,
                    i,
                    StmtModel::Assign {
                        target: Spanned {
                            target: Expr::Variable(ts[i].literal),
                            location: ts[i].location,
                        },
                        value,
                    },
                ),
            ),
            k,
        ),
{
}

/// `for name = E1, E2 do B`: both bounds are whole expressions as the
/// expression parser gives them, and the body is the block after `do`.
pub proof fn law_for_loop_parts(
    ts: Seq<Token>,
    i: int,
    from: Spanned<Expr>,
    j: int,
    to: Spanned<Expr>,
    k: int,
    body: Seq<Spanned<StmtModel>>,
    e: int,
)
    requires
        0 <= i,
        i + 2 < ts.len(),
        ts[i].kind == TokenKind::KwFor,
        ts[i + 1].kind == TokenKind::Ident,
        ts[i + 2].kind == TokenKind::Equal,
        p_expr(ts, i + 3) == (Ok::<Spanned<Expr>, SyntaxError>(from), j),
        0 <= j < ts.len(),
        ts[j].kind == TokenKind::Comma,
        p_expr(ts, j + 1) == (Ok::<Spanned<Expr>, SyntaxError>(to), k),
        k < ts.len(),
        ts[k].kind == TokenKind::KwDo,
        p_block(ts, k + 1) == (Ok::<Seq<Spanned<StmtModel>>, SyntaxError>(body), e),
    ensures
        p_for_loop(ts, i) == (
            Ok::<Spanned<StmtModel>, SyntaxError>(
                stmt_from(ts, i, StmtModel::For { init: ts[i + 1].literal, from, to, body }),
            ),
            e,
        ),
{
    lemma_expr_moves_forward(ts, i + 3);
    lemma_expr_moves_forward(ts, j + 1);
}

/// `while E do B`: the condition is the whole expression `E`, and the body
/// is the block after `do`.
pub proof fn law_while_loop_parts(
    ts: Seq<Token>,
    i: int,
    cond: Spanned<Expr>,
    j: int,
    block: Seq<Spanned<StmtModel>>,
    e: int,
)
    requires
        0 <= i < ts.len(),
        ts[i].kind == TokenKind::KwWhile,
        p_expr(ts, i + 1) == (Ok::<Spanned<Expr>, SyntaxError>(cond), j),
        0 <= j < ts.len(),
        ts[j].kind == TokenKind::KwDo,
        p_block(ts, j + 1) == (Ok::<Seq<Spanned<StmtModel>>, SyntaxError>(block), e),
    ensures
        p_while_loop(ts, i) == (
            Ok::<Spanned<StmtModel>, SyntaxError>(stmt_from(ts, i, StmtModel::While { cond, block })),
            e,
        ),
{
    lemma_expr_moves_forward(ts, i + 1);
}

/// `if E then B1 [else B2]`: the condition is the whole expression `E`, the
/// first block follows `then`, and there is a second block exactly where
/// `else` follows the first; then the statement is what parsing that block
/// gives it.
pub proof fn law_if_stmt_parts(
    ts: Seq<Token>,
    i: int,
    cond: Spanned<Expr>,
    j: int,
    then_block: Seq<Spanned<StmtModel>>,
    k: int,
)
    requires
        0 <= i < ts.len(),
        ts[i].kind == TokenKind::KwIf,
        p_expr(ts, i + 1) == (Ok::<Spanned<Expr>, SyntaxError>(cond), j),
        0 <= j < ts.len(),
        ts[j].kind == TokenKind::KwThen,
        p_block(ts, j + 1) == (Ok::<Seq<Spanned<StmtModel>>, SyntaxError>(then_block), k),
    ensures
        !(k < ts.len() && ts[k].kind == TokenKind::KwElse) ==> p_if_stmt(ts, i) == (
            Ok::<Spanned<StmtModel>, SyntaxError>(
                stmt_from(ts, i, StmtModel::If { cond, then_block, else_block: None }),
            ),
            k,
        ),
        k < ts.len() && ts[k].kind == TokenKind::KwElse ==> p_if_stmt(ts, i) == match p_block(
            ts,
            k + 1,
        ) {
            (Ok(b), e) => (
                Ok(stmt_from(ts, i, StmtModel::If { cond, then_block, else_block: Some(b) })),
                e,
            ),
            (Err(er), e) => (Err(er), e),
        },
{
    lemma_expr_moves_forward(ts, i + 1);
    lemma_block_moves_forward(ts, j + 1);
}

/// `return [V]`: with no value where `end` follows or the tokens end, and
/// otherwise with the operand that the operand parser gives.
pub proof fn law_return_parts(ts: Seq<Token>, i: int)
    requires
        0 <= i < ts.len(),
        ts[i].kind == TokenKind::KwReturn,
    ensures
        !(i + 1 < ts.len() && ts[i + 1].kind != TokenKind::KwEnd) ==> p_return(ts, i) == (
            Ok::<Spanned<StmtModel>, SyntaxError>(stmt_from(ts, i, StmtModel::Return(None))),
            i + 1,
        ),
        i + 1 < ts.len() && ts[i + 1].kind != TokenKind::KwEnd ==> p_return(ts, i) == match p_value(
            ts,
            i + 1,
        ) {
            (Ok(v), e) => (Ok(stmt_from(ts, i, StmtModel::Return(Some(v)))), e),
            (Err(er), e) => (Err(er), e),
        },
{
}

/// Statement `m` of `b` is what the statement parser gives from `ps[m]`,
/// which holds no `end`, and it ends at `ps[m + 1]`.
pub open spec fn stmt_piece(ts: Seq<Token>, b: Seq<Spanned<StmtModel>>, ps: Seq<int>, m: int) -> bool {
    &&& 0 <= ps[m] < ts.len()
    &&& ts[ps[m]].kind != TokenKind::KwEnd
    &&& p_stmt(ts, ps[m]) == (Ok::<Spanned<StmtModel>, SyntaxError>(b[m]), ps[m + 1])
}

/// A parsed block, cut at the points `ps`: statement `m` is what the
/// statement parser gives from `ps[m]` and ends at `ps[m + 1]`, no statement
/// starts with `end`, and the block closes with the `end` at the last point.
pub open spec fn block_parts(
    ts: Seq<Token>,
    i: int,
    b: Seq<Spanned<StmtModel>>,
    ps: Seq<int>,
    e: int,
) -> bool {
    &&& ps.len() == b.len() + 1
    &&& ps[0] == i
    &&& forall|m: int| 0 <= m < b.len() ==> #[trigger] stmt_piece(ts, b, ps, m)
    &&& 0 <= ps[b.len() as int] < ts.len()
    &&& ts[ps[b.len() as int]].kind == TokenKind::KwEnd
    &&& e == ps[b.len() as int] + 1
}

/// A block that parses holds exactly the statements before its `end`, in
/// order, each as the statement parser gives it: none is dropped, added or
/// moved, whatever its kind. The points where the statements start are
/// returned.
pub proof fn law_block_is_its_statements(ts: Seq<Token>, i: int) -> (ps: Seq<int>)
    requires
        0 <= i,
        p_block(ts, i).0 is Ok,
    ensures
        block_parts(ts, i, p_block(ts, i).0->Ok_0, ps, p_block(ts, i).1),
    decreases ts.len() - i,
{
    if ts[i].kind == TokenKind::KwEnd {
        let ps = seq![i];
        let b = p_block(ts, i).0->Ok_0;
        assert(b.len() == 0);
        assert(ps[b.len() as int] == i);
        ps
    } else {
        let (r, j) = p_stmt(ts, i);
        let s = r->Ok_0;
        let rest = law_block_is_its_statements(ts, j);
        let rb = p_block(ts, j).0->Ok_0;
        let b = p_block(ts, i).0->Ok_0;
        let ps = seq![i] + rest;
        assert(i < j <= ts.len());
        assert(b == seq![s] + rb);
        assert forall|m: int| 0 <= m < b.len() implies #[trigger] stmt_piece(ts, b, ps, m) by {
            if m > 0 {
                let m1 = m - 1;
                assert(stmt_piece(ts, rb, rest, m1));
                assert(ps[m] == rest[m1]);
                assert(ps[m + 1] == rest[m1 + 1]);
                assert(b[m] == rb[m1]);
            }
        }
        assert(ps[b.len() as int] == rest[rb.len() as int]);
        assert(p_block(ts, i).1 == p_block(ts, j).1);
        ps
    }
}

/// All tokens in `[a, b)` are comments.
pub open spec fn comments_between(ts: Seq<Token>, a: int, b: int) -> bool {
    forall|x: int| a <= x < b ==> (#[trigger] ts[x]).kind == TokenKind::Comment
}

/// A top-level node that starts at `p` and ends at `q`: a function
/// declaration where `p` holds `function`, and otherwise a statement, as
/// the parser for it gives it, spanned by the token at `p`.
pub open spec fn node_at(ts: Seq<Token>, p: int, node: Spanned<ToplevelModel>, q: int) -> bool {
    &&& 0 <= p < ts.len()
    &&& ts[p].kind != TokenKind::Comment
    &&& node.location == ts[p].location
    &&& if ts[p].kind == TokenKind::KwFunction {
        p_function_declare(ts, p) == (Ok::<ToplevelModel, SyntaxError>(node.target), q)
    } else {
        &&& p_stmt(ts, p).0 is Ok
        &&& node.target == ToplevelModel::Stmt(p_stmt(ts, p).0->Ok_0)
        &&& p_stmt(ts, p).1 == q
    }
}

/// Node `m` starts at `starts[m]`, after only comments from `stops[m]`,
/// and ends at `stops[m + 1]`.
pub open spec fn node_piece(
    ts: Seq<Token>,
    nodes: Seq<Spanned<ToplevelModel>>,
    starts: Seq<int>,
    stops: Seq<int>,
    m: int,
) -> bool {
    &&& stops[m] <= starts[m]
    &&& comments_between(ts, stops[m], starts[m])
    &&& node_at(ts, starts[m], nodes[m], stops[m + 1])
}

/// A parsed program, cut at the points `starts` and `stops`: node `m`
/// starts at `starts[m]` and ends at `stops[m + 1]`; only comments stand
/// between `stops[m]` and `starts[m]`, and after the last node.
pub open spec fn program_parts(
    ts: Seq<Token>,
    i: int,
    nodes: Seq<Spanned<ToplevelModel>>,
    starts: Seq<int>,
    stops: Seq<int>,
) -> bool {
    &&& starts.len() == nodes.len()
    &&& stops.len() == nodes.len() + 1
    &&& stops[0] == i
    &&& forall|m: int| 0 <= m < nodes.len() ==> #[trigger] node_piece(ts, nodes, starts, stops, m)
    &&& comments_between(ts, stops[nodes.len() as int], ts.len() as int)
}

/// A program that parses is exactly its top-level nodes in order, with only
/// comments between and after them: every function declaration and every
/// statement, of whatever kind, gives one node, spanned by its first token.
/// The points where the nodes start and stop are returned.
#[verifier::rlimit(60)]
pub proof fn law_program_is_its_nodes(ts: Seq<Token>, i: int) -> (cuts: (Seq<int>, Seq<int>))
    requires
        0 <= i,
        p_program(ts, i).0 is Ok,
    ensures
        program_parts(ts, i, p_program(ts, i).0->Ok_0, cuts.0, cuts.1),
    decreases ts.len() - i,
{
    let nodes = p_program(ts, i).0->Ok_0;
    if i >= ts.len() {
        (seq![], seq![i])
    } else if ts[i].kind == TokenKind::Comment {
        let (starts, stops) = law_program_is_its_nodes(ts, i + 1);
        let new_stops = stops.update(0, i);
        assert forall|m: int| 0 <= m < nodes.len() implies #[trigger] node_piece(
            ts,
            nodes,
            starts,
            new_stops,
            m,
        ) by {
            assert(node_piece(ts, nodes, starts, stops, m));
            assert(new_stops[m + 1] == stops[m + 1]);
            if m == 0 {
                assert forall|x: int| i <= x < starts[0] implies (#[trigger] ts[x]).kind
                    == TokenKind::Comment by {
                    if x > i {
                        assert(comments_between(ts, stops[0], starts[0]));
                    }
                }
            }
        }
        if nodes.len() == 0 {
            assert forall|x: int| i <= x < ts.len() implies (#[trigger] ts[x]).kind
                == TokenKind::Comment by {
                if x > i {
                    assert(comments_between(ts, stops[0], ts.len() as int));
                }
            }
        }
        (starts, new_stops)
    } else {
        let is_fn = ts[i].kind == TokenKind::KwFunction;
        let j = if is_fn {
            p_function_declare(ts, i).1
        } else {
            p_stmt(ts, i).1
        };
        let (starts, stops) = law_program_is_its_nodes(ts, j);
        let rest = p_program(ts, j).0->Ok_0;
        let node = nodes[0];
        assert(nodes == seq![node] + rest);
        assert(node_at(ts, i, node, j));
        let new_starts = seq![i] + starts;
        let new_stops = seq![i] + stops;
        assert forall|m: int| 0 <= m < nodes.len() implies #[trigger] node_piece(
            ts,
            nodes,
            new_starts,
            new_stops,
            m,
        ) by {
            if m > 0 {
                let m1 = m - 1;
                assert(node_piece(ts, rest, starts, stops, m1));
                assert(new_starts[m] == starts[m1]);
                assert(new_stops[m] == stops[m1]);
                assert(new_stops[m + 1] == stops[m1 + 1]);
                assert(nodes[m] == rest[m1]);
            }
        }
        assert(new_stops[nodes.len() as int] == stops[rest.len() as int]);
        (new_starts, new_stops)
    }
}

} // verus!
