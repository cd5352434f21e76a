use lib::codegen::pretty_print::PrettyPrinter;
use lib::codegen::transpile::{Transpiler, TypedAst};
use lib::syntax::ast::Ty;
use lib::syntax::parse::Parser;

fn program(src: &str) -> TypedAst {
    TypedAst { nodes: Parser::parse(src).unwrap() }
}

#[test]
fn compiles_headers_then_one_line_per_statement() {
    let ast = program("local x: int = 1 + 2 * 3\nx = -x");
    let c = Transpiler::compile(&ast, "// dstring", "// prelude");
    assert_eq!(c, "// dstring\n// prelude\nint x = (1 + (2 * 3));\nx = (-x);");
}

#[test]
fn compiles_an_empty_program_to_the_headers() {
    let ast = TypedAst { nodes: vec![] };
    assert_eq!(Transpiler::compile(&ast, "A", "B"), "A\nB");
}

#[test]
fn compiles_functions_and_control_flow() {
    let ast = program(
        "function f(a: int, s: string): bool\n\
         if a < 1 then return true end else return false end\n\
         end",
    );
    let c = Transpiler::compile(&ast, "H1", "H2");
    assert_eq!(
        c,
        "H1\nH2\nbool f(int a, dstring s) {\nif ((a < 1)) {\nreturn true;\n} else {\nreturn false;\n}\n}"
    );
}

#[test]
fn compiles_loops_structs_and_strings() {
    let ast = program(
        "struct P = { x: []float, next: *P }\n\
         for i = 0, 9 do while !done do s = \"ok\" end end",
    );
    let c = Transpiler::compile(&ast, "", "");
    assert_eq!(
        c,
        "\n\ntypedef struct P {\ndouble* x;\nP* next;\n} P;\n\
         for (int i = 0; i <= 9; i++) {\nwhile ((!done)) {\ns = \"ok\";\n}\n}"
    );
}

#[test]
fn compiles_imports_to_includes() {
    let mut p = Parser::new("import io");
    let import = p.parse_import().unwrap();
    let pp = PrettyPrinter::new();
    assert_eq!(pp.gen_toplevel_stmt(&import), "#include \"io.h\"");
}

#[test]
fn pretty_prints_types() {
    let pp = PrettyPrinter::new();
    assert_eq!(pp.gen_type(&Ty::Array(Box::new(Ty::Pointer(Box::new(Ty::Int))))), "int**");
    assert_eq!(pp.gen_type(&Ty::Void), "void");
    assert_eq!(pp.gen_type(&Ty::UserDefined("Node".to_string())), "Node");
}

#[test]
fn emit_line_appends() {
    let mut pp = PrettyPrinter::new();
    pp.emit_line("a");
    pp.emit_line("b");
    assert_eq!(pp.lines, vec!["a".to_string(), "b".to_string()]);
}

#[test]
fn a_new_transpiler_is_empty() {
    let t = Transpiler::new();
    assert_eq!(t, Transpiler::new());
}

#[test]
fn compiles_an_empty_struct() {
    let ast = program("struct E = { }");
    assert_eq!(Transpiler::compile(&ast, "a", "b"), "a\nb\ntypedef struct E {\n} E;");
}
