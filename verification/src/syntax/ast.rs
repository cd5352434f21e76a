use vstd::prelude::*;

use super::span::Spanned;

verus! {

/// Types as written in the source.
#[derive(Debug, PartialEq)]
pub enum Ty {
    Void,
    Int,
    Float,
    String,
    Bool,
    /// `*T`
    Pointer(Box<Ty>),
    /// `[]T`
    Array(Box<Ty>),
    /// A type named by the program, such as a struct.
    UserDefined(String),
}

/// A number literal, kept as the digits it was written with.
#[derive(Debug, PartialEq)]
pub enum Numeric {
    Int(String),
    Float(String),
}

#[derive(Debug, PartialEq)]
pub enum Literal {
    Number(Numeric),
    Str(String),
    Bool(bool),
}

#[derive(Debug, Clone, Copy, PartialEq, Eq, Structural)]
pub enum BinaryOp {
    Add,
    Sub,
    Mul,
    Div,
    Eq,
    NotEq,
    Less,
    LessEq,
    Greater,
    GreaterEq,
}

#[derive(Debug, Clone, Copy, PartialEq, Eq, Structural)]
pub enum UnaryOp {
    Neg,
    Not,
}

#[derive(Debug, PartialEq)]
pub enum Expr {
    Literal(Literal),
    Variable(String),
    Unary { op: UnaryOp, operand: Box<Expr> },
    Binary { op: BinaryOp, lhs: Box<Expr>, rhs: Box<Expr> },
}

/// A sequence of statements, such as the body of a loop.
pub type Block = Vec<Spanned<Stmt>>;

#[derive(Debug, PartialEq)]
pub enum Stmt {
    /// `local name: ty = value`
    Local { name: String, ty: Option<Ty>, value: Option<Spanned<Expr>> },
    /// `target = value`
    Assign { target: Spanned<Expr>, value: Spanned<Expr> },
    /// `if cond then ... [else ...] end`
    If { cond: Spanned<Expr>, then_block: Block, else_block: Option<Block> },
    /// `for init = from, to do ... end`
    For { init: String, from: Spanned<Expr>, to: Spanned<Expr>, body: Block },
    /// `while cond do ... end`
    While { cond: Spanned<Expr>, block: Block },
    /// `return [value]`
    Return(Option<Spanned<Expr>>),
    /// `struct name = { field: ty, ... }`
    StructDecl { name: String, fields: Vec<(String, Ty)> },
}

#[derive(Debug, PartialEq)]
pub enum ToplevelStmt {
    /// `import name`
    Import { module: String },
    /// `function name(params)[: return_ty] ... end`
    FunctionDecl { name: String, return_ty: Ty, params: Vec<(String, Ty)>, body: Block },
    Stmt(Spanned<Stmt>),
}

/// A statement with its blocks taken as sequences.
pub ghost enum StmtModel {
    Local { name: String, ty: Option<Ty>, value: Option<Spanned<Expr>> },
    Assign { target: Spanned<Expr>, value: Spanned<Expr> },
    If {
        cond: Spanned<Expr>,
        then_block: Seq<Spanned<StmtModel>>,
        else_block: Option<Seq<Spanned<StmtModel>>>,
    },
    For { init: String, from: Spanned<Expr>, to: Spanned<Expr>, body: Seq<Spanned<StmtModel>> },
    While { cond: Spanned<Expr>, block: Seq<Spanned<StmtModel>> },
    Return(Option<Spanned<Expr>>),
    StructDecl { name: String, fields: Seq<(String, Ty)> },
}

/// A top-level statement with its lists taken as sequences.
pub ghost enum ToplevelModel {
    Import { module: String },
    FunctionDecl {
        name: String,
        return_ty: Ty,
        params: Seq<(String, Ty)>,
        body: Seq<Spanned<StmtModel>>,
    },
    Stmt(Spanned<StmtModel>),
}

pub open spec fn stmt_model(s: Stmt) -> StmtModel
    decreases s,
{
    match s {
        Stmt::Local { name, ty, value } => StmtModel::Local { name, ty, value },
        Stmt::Assign { target, value } => StmtModel::Assign { target, value },
        Stmt::If { cond, then_block, else_block } => StmtModel::If {
            cond,
            then_block: block_model(then_block@),
            else_block: match else_block {
                Some(b) => Some(block_model(b@)),
                None => None,
            },
        },
        Stmt::For { init, from, to, body } => StmtModel::For {
            init,
            from,
            to,
            body: block_model(body@),
        },
        Stmt::While { cond, block } => StmtModel::While { cond, block: block_model(block@) },
        Stmt::Return(v) => StmtModel::Return(v),
        Stmt::StructDecl { name, fields } => StmtModel::StructDecl { name, fields: fields@ },
    }
}

pub open spec fn spanned_stmt_model(s: Spanned<Stmt>) -> Spanned<StmtModel>
    decreases s,
{
    Spanned { target: stmt_model(s.target), location: s.location }
}

pub open spec fn block_model(b: Seq<Spanned<Stmt>>) -> Seq<Spanned<StmtModel>>
    decreases b,
{
    if b.len() == 0 {
        seq![]
    } else {
        block_model(b.drop_last()).push(spanned_stmt_model(b.last()))
    }
}

pub open spec fn toplevel_model(s: ToplevelStmt) -> ToplevelModel {
    match s {
        ToplevelStmt::Import { module } => ToplevelModel::Import { module },
        ToplevelStmt::FunctionDecl { name, return_ty, params, body } => ToplevelModel::FunctionDecl {
            name,
            return_ty,
            params: params@,
            body: block_model(body@),
        },
        ToplevelStmt::Stmt(s) => ToplevelModel::Stmt(spanned_stmt_model(s)),
    }
}

pub proof fn lemma_block_model_push(b: Seq<Spanned<Stmt>>, s: Spanned<Stmt>)
    ensures
        block_model(b.push(s)) == block_model(b).push(spanned_stmt_model(s)),
{
    assert(b.push(s).drop_last() =~= b);
}

/// A program, with each top-level statement taken by its model.
pub open spec fn program_model(p: Seq<Spanned<ToplevelStmt>>) -> Seq<Spanned<ToplevelModel>> {
    p.map_values(
        |s: Spanned<ToplevelStmt>| Spanned { target: toplevel_model(s.target), location: s.location },
    )
}

pub proof fn lemma_program_model_push(p: Seq<Spanned<ToplevelStmt>>, s: Spanned<ToplevelStmt>)
    ensures
        program_model(p.push(s)) == program_model(p).push(
            Spanned { target: toplevel_model(s.target), location: s.location },
        ),
{
    assert(program_model(p.push(s)) =~= program_model(p).push(
        Spanned { target: toplevel_model(s.target), location: s.location },
    ));
}

} // verus!
