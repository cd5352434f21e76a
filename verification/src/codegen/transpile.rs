//! Compiler from the syntax tree to C code
//!
//! Only a tiny subset of the language is supported: just enough to get a
//! compiler bootstrapped.
use vstd::prelude::*;

use crate::syntax::ast::{ToplevelModel, ToplevelStmt, program_model};
use crate::syntax::span::Spanned;

use super::pretty_print::{PrettyPrinter, c_toplevel};

verus! {

/// The program handed to code generation: its top-level statements in
/// source order.
pub struct TypedAst {
    pub nodes: Vec<Spanned<ToplevelStmt>>,
}

/// Lines joined by line breaks.
pub open spec fn join_lines(lines: Seq<Seq<char>>) -> Seq<char>
    decreases lines.len(),
{
    if lines.len() == 0 {
        seq![]
    } else if lines.len() == 1 {
        lines[0]
    } else {
        join_lines(lines.drop_last()) + "\n"@ + lines.last()
    }
}

pub open spec fn lines_view(lines: Seq<String>) -> Seq<Seq<char>> {
    lines.map_values(|s: String| s@)
}

/// The C text of each top-level statement, in order.
pub open spec fn c_nodes(nodes: Seq<Spanned<ToplevelModel>>) -> Seq<Seq<char>> {
    nodes.map_values(|n: Spanned<ToplevelModel>| c_toplevel(n.target))
}

/// The C program for `nodes`: the text of the two library headers, then
/// each top-level statement, one per line.
pub open spec fn c_program(dstring: Seq<char>, prelude: Seq<char>, nodes: Seq<Spanned<ToplevelModel>>) -> Seq<char> {
    join_lines(seq![dstring, prelude] + c_nodes(nodes))
}

/// Joining two non-empty lists of lines joins the two joined texts with one
/// line break.
pub proof fn lemma_join_lines_append(xs: Seq<Seq<char>>, ys: Seq<Seq<char>>)
    requires
        xs.len() > 0,
        ys.len() > 0,
    ensures
        join_lines(xs + ys) == join_lines(xs) + "\n"@ + join_lines(ys),
    decreases ys.len(),
{
    if ys.len() == 1 {
        assert((xs + ys).drop_last() =~= xs);
    } else {
        lemma_join_lines_append(xs, ys.drop_last());
        assert((xs + ys).drop_last() =~= xs + ys.drop_last());
        assert((xs + ys).last() == ys.last());
        assert(join_lines(xs) + "\n"@ + join_lines(ys.drop_last()) + "\n"@ + ys.last() =~= join_lines(
            xs,
        ) + "\n"@ + (join_lines(ys.drop_last()) + "\n"@ + ys.last()));
    }
}

/// The generated C program is the text of the `dstring` header, a line
/// break, the text of the `prelude` header, and then, where there are
/// top-level statements, a line break and their C text in source order, one
/// after another separated by line breaks.
pub proof fn law_program_layout(dstring: Seq<char>, prelude: Seq<char>, nodes: Seq<Spanned<ToplevelModel>>)
    ensures
        c_program(dstring, prelude, nodes) == if nodes.len() == 0 {
            dstring + "\n"@ + prelude
        } else {
            dstring + "\n"@ + prelude + "\n"@ + join_lines(c_nodes(nodes))
        },
{
    let headers = seq![dstring, prelude];
    assert(headers.drop_last() =~= seq![dstring]);
    assert(join_lines(seq![dstring]) == dstring);
    assert(join_lines(headers) == dstring + "\n"@ + prelude);
    if nodes.len() == 0 {
        assert(headers + c_nodes(nodes) =~= headers);
    } else {
        lemma_join_lines_append(headers, c_nodes(nodes));
    }
}

#[derive(Debug, Clone, PartialEq)]
pub struct Transpiler {
    pp: PrettyPrinter,
}

/// `lines` joined by line breaks.
fn join_with_newlines(lines: &Vec<String>) -> (out: String)
    ensures
        out@ == join_lines(lines_view(lines@)),
{
    let mut out = String::new();
    let mut i: usize = 0;
    while i < lines.len()
        invariant
            i <= lines.len(),
            out@ == join_lines(lines_view(lines@.take(i as int))),
        decreases lines.len() - i,
    {
        if i > 0 {
            out.append("\n");
        }
        out.append(lines[i].as_str());
        proof {
            let prev = lines_view(lines@.take(i as int));
            let next = lines_view(lines@.take(i + 1));
            assert(next.drop_last() =~= prev);
            assert(next.last() == lines@[i as int]@);
            assert(i == 0 ==> prev =~= Seq::<Seq<char>>::empty());
        }
        i = i + 1;
    }
    assert(lines@.take(i as int) =~= lines@);
    out
}

impl Transpiler {
    /// The lines emitted so far.
    pub closed spec fn output_lines(&self) -> Seq<Seq<char>> {
        lines_view(self.pp.lines@)
    }

    pub fn new() -> (t: Self)
        ensures
            t.output_lines() == Seq::<Seq<char>>::empty(),
    {
        let t = Transpiler { pp: PrettyPrinter::new() };
        assert(t.output_lines() =~= Seq::<Seq<char>>::empty());
        t
    }

    /// Emits the two library headers, then the C text of each top-level
    /// statement of `ast`, one line each.
    fn compile_ast(&mut self, ast: &TypedAst, dstring: &str, prelude: &str)
        ensures
            lines_view(final(self).pp.lines@) == lines_view(old(self).pp.lines@) + seq![
                dstring@,
                prelude@,
            ] + c_nodes(program_model(ast.nodes@)),
    {
        self.pp.emit_line(dstring);
        self.pp.emit_line(prelude);
        let ghost start = lines_view(self.pp.lines@);
        proof {
            assert(start =~= lines_view(old(self).pp.lines@) + seq![dstring@, prelude@]) by {
                let l1 = self.pp.lines@.drop_last();
                assert(lines_view(self.pp.lines@).drop_last() =~= lines_view(l1));
                assert(lines_view(l1).drop_last() =~= lines_view(old(self).pp.lines@));
            }
        }

        let nodes = &ast.nodes;
        let mut i: usize = 0;
        while i < nodes.len()
            invariant
                nodes == &ast.nodes,
                i <= nodes.len(),
                lines_view(self.pp.lines@) == start + c_nodes(program_model(nodes@.take(i as int))),
            decreases nodes.len() - i,
        {
            let ghost before = lines_view(self.pp.lines@);
            let stmt_str = self.pp.gen_toplevel_stmt(&nodes[i].target);
            self.pp.emit_line(stmt_str.as_str());
            proof {
                assert(lines_view(self.pp.lines@) =~= before.push(stmt_str@));
                assert(c_nodes(program_model(nodes@.take(i + 1))) =~= c_nodes(
                    program_model(nodes@.take(i as int)),
                ).push(stmt_str@));
            }
            i = i + 1;
        }
        assert(nodes@.take(i as int) =~= nodes@);
        assert(lines_view(self.pp.lines@) =~= lines_view(old(self).pp.lines@) + seq![
            dstring@,
            prelude@,
        ] + c_nodes(program_model(ast.nodes@)));
    }

    /// The C program for `ast`, headed by the text of the two library
    /// headers `dstring` and `prelude`.
    pub fn compile(ast: &TypedAst, dstring: &str, prelude: &str) -> (out: String)
        ensures
            out@ == c_program(dstring@, prelude@, program_model(ast.nodes@)),
    {
        let mut compiler = Transpiler::new();
        compiler.compile_ast(ast, dstring, prelude);

        let result = join_with_newlines(&compiler.pp.lines);
        proof {
            assert(lines_view(Seq::<String>::empty()) =~= Seq::<Seq<char>>::empty());
            assert(Seq::<Seq<char>>::empty() + seq![dstring@, prelude@] =~= seq![dstring@, prelude@]);
        }
        result
    }
}

} // verus!
