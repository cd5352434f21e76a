//! C source text for the syntax tree.
use vstd::prelude::*;

use crate::syntax::ast::{
    BinaryOp, Block, Expr, Literal, Numeric, Stmt, StmtModel, ToplevelModel, ToplevelStmt, Ty,
    UnaryOp, block_model, lemma_block_model_push, spanned_stmt_model, stmt_model, toplevel_model,
};
use crate::syntax::span::Spanned;

verus! {

/// The C type for a type of the source language.
pub open spec fn c_type(t: Ty) -> Seq<char>
    decreases t,
{
    match t {
        Ty::Void => "void"@,
        Ty::Int => "int"@,
        Ty::Float => "double"@,
        Ty::String => "dstring"@,
        Ty::Bool => "bool"@,
        Ty::Pointer(inner) => c_type(*inner) + "*"@,
        Ty::Array(inner) => c_type(*inner) + "*"@,
        Ty::UserDefined(name) => name@,
    }
}

pub open spec fn c_binary_op(op: BinaryOp) -> Seq<char> {
    match op {
        BinaryOp::Add => "+"@,
        BinaryOp::Sub => "-"@,
        BinaryOp::Mul => "*"@,
        BinaryOp::Div => "/"@,
        BinaryOp::Eq => "=="@,
        BinaryOp::NotEq => "!="@,
        BinaryOp::Less => "<"@,
        BinaryOp::LessEq => "<="@,
        BinaryOp::Greater => ">"@,
        BinaryOp::GreaterEq => ">="@,
    }
}

pub open spec fn c_unary_op(op: UnaryOp) -> Seq<char> {
    match op {
        UnaryOp::Neg => "-"@,
        UnaryOp::Not => "!"@,
    }
}

/// The C expression for an expression; every operation is parenthesized.
pub open spec fn c_expr(e: Expr) -> Seq<char>
    decreases e,
{
    match e {
        Expr::Literal(Literal::Number(Numeric::Int(digits))) => digits@,
        Expr::Literal(Literal::Number(Numeric::Float(digits))) => digits@,
        Expr::Literal(Literal::Str(text)) => "\""@ + text@ + "\""@,
        Expr::Literal(Literal::Bool(b)) => if b {
            "true"@
        } else {
            "false"@
        },
        Expr::Variable(name) => name@,
        Expr::Unary { op, operand } => "("@ + c_unary_op(op) + c_expr(*operand) + ")"@,
        Expr::Binary { op, lhs, rhs } => "("@ + c_expr(*lhs) + " "@ + c_binary_op(op) + " "@
            + c_expr(*rhs) + ")"@,
    }
}

/// `type name`
pub open spec fn c_decl(name: String, t: Ty) -> Seq<char> {
    c_type(t) + " "@ + name@
}

/// The field declarations of a struct, one per line.
pub open spec fn c_fields(fields: Seq<(String, Ty)>) -> Seq<char>
    decreases fields.len(),
{
    if fields.len() == 0 {
        seq![]
    } else {
        c_fields(fields.drop_last()) + c_decl(fields.last().0, fields.last().1) + ";\n"@
    }
}

/// A parameter list: declarations separated by `, `.
pub open spec fn c_params(params: Seq<(String, Ty)>) -> Seq<char>
    decreases params.len(),
{
    if params.len() == 0 {
        seq![]
    } else if params.len() == 1 {
        c_decl(params[0].0, params[0].1)
    } else {
        c_params(params.drop_last()) + ", "@ + c_decl(params.last().0, params.last().1)
    }
}

/// The C statement for a statement.
pub open spec fn c_stmt(s: StmtModel) -> Seq<char>
    decreases s,
{
    match s {
        StmtModel::Local { name, ty, value } => {
            let decl = match ty {
                Some(t) => c_decl(name, t),
                None => "int "@ + name@,
            };
            match value {
                Some(v) => decl + " = "@ + c_expr(v.target) + ";"@,
                None => decl + ";"@,
            }
        },
        StmtModel::Assign { target, value } => c_expr(target.target) + " = "@ + c_expr(value.target)
            + ";"@,
        StmtModel::If { cond, then_block, else_block } => {
            let head = "if ("@ + c_expr(cond.target) + ") {\n"@ + c_block(then_block) + "}"@;
            match else_block {
                Some(b) => head + " else {\n"@ + c_block(b) + "}"@,
                None => head,
            }
        },
        StmtModel::For { init, from, to, body } => "for (int "@ + init@ + " = "@ + c_expr(
            from.target,
        ) + "; "@ + init@ + " <= "@ + c_expr(to.target) + "; "@ + init@ + "++) {\n"@ + c_block(
            body,
        ) + "}"@,
        StmtModel::While { cond, block } => "while ("@ + c_expr(cond.target) + ") {\n"@ + c_block(
            block,
        ) + "}"@,
        StmtModel::Return(None) => "return;"@,
        StmtModel::Return(Some(v)) => "return "@ + c_expr(v.target) + ";"@,
        StmtModel::StructDecl { name, fields } => "typedef struct "@ + name@ + " {\n"@ + c_fields(
            fields,
        ) + "} "@ + name@ + ";"@,
    }
}

/// The statements of a block, each followed by a line break.
pub open spec fn c_block(b: Seq<Spanned<StmtModel>>) -> Seq<char>
    decreases b,
{
    if b.len() == 0 {
        seq![]
    } else {
        c_block(b.drop_last()) + c_stmt(b.last().target) + "\n"@
    }
}

/// The C text for a top-level statement.
pub open spec fn c_toplevel(s: ToplevelModel) -> Seq<char> {
    match s {
        ToplevelModel::Import { module } => "#include \""@ + module@ + ".h\""@,
        ToplevelModel::FunctionDecl { name, return_ty, params, body } => c_decl(name, return_ty)
            + "("@ + c_params(params) + ") {\n"@ + c_block(body) + "}"@,
        ToplevelModel::Stmt(s) => c_stmt(s.target),
    }
}

/// Each binary operation is written as the C operator of the same meaning:
/// `+`, `-`, `*`, `/`, `==`, `!=`, `<`, `<=`, `>`, `>=`, between its two
/// operands, separated by blanks, the whole in parentheses.
pub proof fn law_c_binary_operators(op: BinaryOp, lhs: Expr, rhs: Expr)
    ensures
        c_expr(Expr::Binary { op, lhs: Box::new(lhs), rhs: Box::new(rhs) }) == "("@ + c_expr(lhs)
            + " "@ + match op {
            BinaryOp::Add => "+"@,
            BinaryOp::Sub => "-"@,
            BinaryOp::Mul => "*"@,
            BinaryOp::Div => "/"@,
            BinaryOp::Eq => "=="@,
            BinaryOp::NotEq => "!="@,
            BinaryOp::Less => "<"@,
            BinaryOp::LessEq => "<="@,
            BinaryOp::Greater => ">"@,
            BinaryOp::GreaterEq => ">="@,
        } + " "@ + c_expr(rhs) + ")"@,
{
}

/// Negation is written `-` and logical not `!`, before the operand, the
/// whole in parentheses.
pub proof fn law_c_unary_operators(op: UnaryOp, operand: Expr)
    ensures
        c_expr(Expr::Unary { op, operand: Box::new(operand) }) == "("@ + match op {
            UnaryOp::Neg => "-"@,
            UnaryOp::Not => "!"@,
        } + c_expr(operand) + ")"@,
{
}

/// Collects lines of output text.
#[derive(Debug, Clone, PartialEq)]
pub struct PrettyPrinter {
    pub lines: Vec<String>,
}

fn append_string(out: &mut String, s: &String)
    ensures
        final(out)@ == old(out)@ + s@,
{
    out.append(s.as_str());
}

impl PrettyPrinter {
    pub fn new() -> (pp: Self)
        ensures
            pp.lines@ == Seq::<String>::empty(),
    {
        PrettyPrinter { lines: Vec::new() }
    }

    /// Adds `line` as the last line.
    pub fn emit_line(&mut self, line: &str)
        ensures
            final(self).lines@.len() == old(self).lines@.len() + 1,
            final(self).lines@.drop_last() == old(self).lines@,
            final(self).lines@.last()@ == line@,
    {
        self.lines.push(line.to_owned());
        assert(self.lines@.drop_last() =~= old(self).lines@);
    }

    pub fn gen_type(&self, t: &Ty) -> (out: String)
        ensures
            out@ == c_type(*t),
        decreases t,
    {
        match t {
            Ty::Void => "void".to_owned(),
            Ty::Int => "int".to_owned(),
            Ty::Float => "double".to_owned(),
            Ty::String => "dstring".to_owned(),
            Ty::Bool => "bool".to_owned(),
            Ty::Pointer(inner) => {
                let mut out = self.gen_type(inner);
                out.append("*");
                out
            },
            Ty::Array(inner) => {
                let mut out = self.gen_type(inner);
                out.append("*");
                out
            },
            Ty::UserDefined(name) => name.clone(),
        }
    }

    fn binary_op(op: BinaryOp) -> (out: &'static str)
        ensures
            out@ == c_binary_op(op),
    {
        match op {
            BinaryOp::Add => "+",
            BinaryOp::Sub => "-",
            BinaryOp::Mul => "*",
            BinaryOp::Div => "/",
            BinaryOp::Eq => "==",
            BinaryOp::NotEq => "!=",
            BinaryOp::Less => "<",
            BinaryOp::LessEq => "<=",
            BinaryOp::Greater => ">",
            BinaryOp::GreaterEq => ">=",
        }
    }

    pub fn gen_expr(&self, e: &Expr) -> (out: String)
        ensures
            out@ == c_expr(*e),
        decreases e,
    {
        match e {
            Expr::Literal(Literal::Number(Numeric::Int(digits))) => digits.clone(),
            Expr::Literal(Literal::Number(Numeric::Float(digits))) => digits.clone(),
            Expr::Literal(Literal::Str(text)) => {
                let mut out = "\"".to_owned();
                append_string(&mut out, text);
                out.append("\"");
                out
            },
            Expr::Literal(Literal::Bool(b)) => if *b {
                "true".to_owned()
            } else {
                "false".to_owned()
            },
            Expr::Variable(name) => name.clone(),
            Expr::Unary { op, operand } => {
                let mut out = "(".to_owned();
                match op {
                    UnaryOp::Neg => out.append("-"),
                    UnaryOp::Not => out.append("!"),
                }
                let inner = self.gen_expr(operand);
                append_string(&mut out, &inner);
                out.append(")");
                out
            },
            Expr::Binary { op, lhs, rhs } => {
                let mut out = "(".to_owned();
                let l = self.gen_expr(lhs);
                append_string(&mut out, &l);
                out.append(" ");
                out.append(Self::binary_op(*op));
                out.append(" ");
                let r = self.gen_expr(rhs);
                append_string(&mut out, &r);
                out.append(")");
                out
            },
        }
    }

    fn gen_decl(&self, name: &String, t: &Ty) -> (out: String)
        ensures
            out@ == c_decl(*name, *t),
    {
        let mut out = self.gen_type(t);
        out.append(" ");
        append_string(&mut out, name);
        out
    }

    fn gen_fields(&self, fields: &Vec<(String, Ty)>) -> (out: String)
        ensures
            out@ == c_fields(fields@),
    {
        let mut out = String::new();
        let mut i: usize = 0;
        while i < fields.len()
            invariant
                i <= fields.len(),
                out@ == c_fields(fields@.take(i as int)),
            decreases fields.len() - i,
        {
            let decl = self.gen_decl(&fields[i].0, &fields[i].1);
            append_string(&mut out, &decl);
            out.append(";\n");
            assert(fields@.take(i + 1).drop_last() =~= fields@.take(i as int));
            i = i + 1;
        }
        assert(fields@.take(i as int) =~= fields@);
        out
    }

    fn gen_params(&self, params: &Vec<(String, Ty)>) -> (out: String)
        ensures
            out@ == c_params(params@),
    {
        let mut out = String::new();
        let mut i: usize = 0;
        while i < params.len()
            invariant
                i <= params.len(),
                out@ == c_params(params@.take(i as int)),
            decreases params.len() - i,
        {
            if i > 0 {
                out.append(", ");
            }
            let decl = self.gen_decl(&params[i].0, &params[i].1);
            append_string(&mut out, &decl);
            assert(params@.take(i + 1).drop_last() =~= params@.take(i as int));
            assert(i == 0 ==> params@.take(0) =~= Seq::<(String, Ty)>::empty());
            i = i + 1;
        }
        assert(params@.take(i as int) =~= params@);
        out
    }

    /// The C statement for a statement.
    pub fn gen_stmt(&self, s: &Stmt) -> (out: String)
        ensures
            out@ == c_stmt(stmt_model(*s)),
        decreases s,
    {
        match s {
            Stmt::Local { name, ty, value } => {
                let mut out = match ty {
                    Some(t) => self.gen_decl(name, t),
                    None => {
                        let mut d = "int ".to_owned();
                        append_string(&mut d, name);
                        d
                    },
                };
                match value {
                    Some(v) => {
                        out.append(" = ");
                        let e = self.gen_expr(&v.target);
                        append_string(&mut out, &e);
                        out.append(";");
                    },
                    None => out.append(";"),
                }
                out
            },
            Stmt::Assign { target, value } => {
                let mut out = self.gen_expr(&target.target);
                out.append(" = ");
                let e = self.gen_expr(&value.target);
                append_string(&mut out, &e);
                out.append(";");
                out
            },
            Stmt::If { cond, then_block, else_block } => {
                let mut out = "if (".to_owned();
                let c = self.gen_expr(&cond.target);
                append_string(&mut out, &c);
                out.append(") {\n");
                let body = self.gen_block(then_block);
                append_string(&mut out, &body);
                out.append("}");
                match else_block {
                    Some(b) => {
                        out.append(" else {\n");
                        let eb = self.gen_block(b);
                        append_string(&mut out, &eb);
                        out.append("}");
                    },
                    None => {},
                }
                out
            },
            Stmt::For { init, from, to, body } => {
                let mut out = "for (int ".to_owned();
                append_string(&mut out, init);
                out.append(" = ");
                let f = self.gen_expr(&from.target);
                append_string(&mut out, &f);
                out.append("; ");
                append_string(&mut out, init);
                out.append(" <= ");
                let t = self.gen_expr(&to.target);
                append_string(&mut out, &t);
                out.append("; ");
                append_string(&mut out, init);
                out.append("++) {\n");
                let b = self.gen_block(body);
                append_string(&mut out, &b);
                out.append("}");
                out
            },
            Stmt::While { cond, block } => {
                let mut out = "while (".to_owned();
                let c = self.gen_expr(&cond.target);
                append_string(&mut out, &c);
                out.append(") {\n");
                let b = self.gen_block(block);
                append_string(&mut out, &b);
                out.append("}");
                out
            },
            Stmt::Return(None) => "return;".to_owned(),
            Stmt::Return(Some(v)) => {
                let mut out = "return ".to_owned();
                let e = self.gen_expr(&v.target);
                append_string(&mut out, &e);
                out.append(";");
                out
            },
            Stmt::StructDecl { name, fields } => {
                let mut out = "typedef struct ".to_owned();
                append_string(&mut out, name);
                out.append(" {\n");
                let f = self.gen_fields(fields);
                append_string(&mut out, &f);
                out.append("} ");
                append_string(&mut out, name);
                out.append(";");
                out
            },
        }
    }

    /// The statements of a block, each followed by a line break.
    pub fn gen_block(&self, b: &Block) -> (out: String)
        ensures
            out@ == c_block(block_model(b@)),
        decreases b,
    {
        let mut out = String::new();
        let mut i: usize = 0;
        while i < b.len()
            invariant
                i <= b.len(),
                out@ == c_block(block_model(b@.take(i as int))),
            decreases b.len() - i,
        {
            let s = self.gen_stmt(&b[i].target);
            append_string(&mut out, &s);
            out.append("\n");
            proof {
                assert(b@.take(i + 1) =~= b@.take(i as int).push(b@[i as int]));
                lemma_block_model_push(b@.take(i as int), b@[i as int]);
                let prev = block_model(b@.take(i as int));
                let next = prev.push(spanned_stmt_model(b@[i as int]));
                assert(next.drop_last() =~= prev);
            }
            i = i + 1;
        }
        assert(b@.take(i as int) =~= b@);
        out
    }

    /// The C text for a top-level statement.
    pub fn gen_toplevel_stmt(&self, stmt: &ToplevelStmt) -> (out: String)
        ensures
            out@ == c_toplevel(toplevel_model(*stmt)),
    {
        match stmt {
            ToplevelStmt::Import { module } => {
                let mut out = "#include \"".to_owned();
                append_string(&mut out, module);
                out.append(".h\"");
                out
            },
            ToplevelStmt::FunctionDecl { name, return_ty, params, body } => {
                let mut out = self.gen_decl(name, return_ty);
                out.append("(");
                let p = self.gen_params(params);
                append_string(&mut out, &p);
                out.append(") {\n");
                let b = self.gen_block(body);
                append_string(&mut out, &b);
                out.append("}");
                out
            },
            ToplevelStmt::Stmt(s) => self.gen_stmt(&s.target),
        }
    }
}

} // verus!
