use lib::syntax::ast::{BinaryOp, Expr, Literal, Numeric, Stmt, ToplevelStmt, Ty, UnaryOp};
use lib::syntax::errors::SyntaxError;
use lib::syntax::lexer::{Location, TokenKind};
use lib::syntax::parse::Parser;
use lib::syntax::span::Spanned;

fn at(line: usize, column: usize) -> Location {
    Location { line, column }
}

fn var(name: &str) -> Expr {
    Expr::Variable(name.to_string())
}

fn int_lit(digits: &str) -> Expr {
    Expr::Literal(Literal::Number(Numeric::Int(digits.to_string())))
}

fn bin(op: BinaryOp, lhs: Expr, rhs: Expr) -> Expr {
    Expr::Binary { op, lhs: Box::new(lhs), rhs: Box::new(rhs) }
}

fn sp<T>(target: T, location: Location) -> Spanned<T> {
    Spanned { target, location }
}

/// The value of `local v: int = <expr>` written on one line.
fn local_value(src: &str) -> Expr {
    let mut p = Parser::new(src);
    match p.parse_stmt().unwrap().target {
        Stmt::Local { value: Some(v), .. } => v.target,
        other => panic!("not a local declaration: {:?}", other),
    }
}

#[test]
fn test_parser() {
    let src = "-- a small program\n\
               struct Point = { x: int, y: int }\n\
               function add(a: int, b: int): int\n\
               \x20 return a\n\
               end\n\
               local p: Point = origin\n\
               for i = 1, 10 do\n\
               \x20 total = total + i\n\
               end\n";
    let nodes = Parser::parse(src).unwrap();
    assert_eq!(nodes.len(), 4);
    assert_eq!(nodes[0].location, at(1, 0));
    match &nodes[1].target {
        ToplevelStmt::FunctionDecl { name, return_ty, params, body } => {
            assert_eq!(name, "add");
            assert_eq!(*return_ty, Ty::Int);
            assert_eq!(params.len(), 2);
            assert_eq!(params[1], ("b".to_string(), Ty::Int));
            assert_eq!(body.len(), 1);
            assert_eq!(body[0].target, Stmt::Return(Some(sp(var("a"), at(3, 9)))));
        },
        other => panic!("not a function: {:?}", other),
    }
    assert_eq!(nodes[3].location, at(6, 0));
}

#[test]
fn higher_precedence_binds_tighter() {
    assert_eq!(
        local_value("local v: int = a + b * c"),
        bin(BinaryOp::Add, var("a"), bin(BinaryOp::Mul, var("b"), var("c")))
    );
    assert_eq!(
        local_value("local v: int = a * b + c"),
        bin(BinaryOp::Add, bin(BinaryOp::Mul, var("a"), var("b")), var("c"))
    );
}

#[test]
fn equal_precedence_groups_left() {
    assert_eq!(
        local_value("local v: int = a - b - c"),
        bin(BinaryOp::Sub, bin(BinaryOp::Sub, var("a"), var("b")), var("c"))
    );
    assert_eq!(
        local_value("local v: bool = a < b = c"),
        bin(BinaryOp::Eq, bin(BinaryOp::Less, var("a"), var("b")), var("c"))
    );
}

#[test]
fn parentheses_and_unary_operators() {
    assert_eq!(
        local_value("local v: int = (a + b) * -c"),
        bin(
            BinaryOp::Mul,
            bin(BinaryOp::Add, var("a"), var("b")),
            Expr::Unary { op: UnaryOp::Neg, operand: Box::new(var("c")) }
        )
    );
    assert_eq!(
        local_value("local v: bool = !true != false"),
        bin(
            BinaryOp::NotEq,
            Expr::Unary {
                op: UnaryOp::Not,
                operand: Box::new(Expr::Literal(Literal::Bool(true)))
            },
            Expr::Literal(Literal::Bool(false))
        )
    );
}

#[test]
fn literals_keep_their_text() {
    assert_eq!(local_value("local v: int = 42"), int_lit("42"));
    assert_eq!(
        local_value("local v: float = 2.5"),
        Expr::Literal(Literal::Number(Numeric::Float("2.5".to_string())))
    );
    assert_eq!(
        local_value("local v: string = \"hi\""),
        Expr::Literal(Literal::Str("hi".to_string()))
    );
}

#[test]
fn local_declarations_carry_their_types() {
    let mut p = Parser::new("local v: *[]Point = x");
    let s = p.parse_stmt().unwrap();
    assert_eq!(s.location, at(0, 0));
    assert_eq!(
        s.target,
        Stmt::Local {
            name: "v".to_string(),
            ty: Some(Ty::Pointer(Box::new(Ty::Array(Box::new(Ty::UserDefined(
                "Point".to_string()
            )))))),
            value: Some(sp(var("x"), at(0, 20))),
        }
    );
}

#[test]
fn an_assignment_is_spanned_by_its_target() {
    let mut p = Parser::new("  x = 1");
    let s = p.parse_stmt().unwrap();
    assert_eq!(
        s,
        sp(
            Stmt::Assign { target: sp(var("x"), at(0, 2)), value: sp(int_lit("1"), at(0, 6)) },
            at(0, 2)
        )
    );
}

#[test]
fn if_with_and_without_else() {
    // The block after `then` is closed by its own `end`, as is the one after `else`.
    let mut p = Parser::new("if a then x = 1 end else x = 2 end");
    match p.parse_stmt().unwrap().target {
        Stmt::If { then_block, else_block: Some(else_block), .. } => {
            assert_eq!(then_block.len(), 1);
            assert_eq!(else_block.len(), 1);
        },
        other => panic!("unexpected {:?}", other),
    }
    let mut p = Parser::new("if a then end");
    match p.parse_stmt().unwrap().target {
        Stmt::If { cond, then_block, else_block } => {
            assert_eq!(cond, sp(var("a"), at(0, 3)));
            assert!(then_block.is_empty());
            assert!(else_block.is_none());
        },
        other => panic!("unexpected {:?}", other),
    }
}

#[test]
fn loops_and_returns() {
    let mut p = Parser::new("while i < 3 do i = i + 1 end");
    match p.parse_stmt().unwrap().target {
        Stmt::While { cond, block } => {
            assert_eq!(cond.target, bin(BinaryOp::Less, var("i"), int_lit("3")));
            assert_eq!(block.len(), 1);
        },
        other => panic!("unexpected {:?}", other),
    }
    let mut p = Parser::new("for k = 0, n do return end");
    match p.parse_stmt().unwrap().target {
        Stmt::For { init, from, to, body } => {
            assert_eq!(init, "k");
            assert_eq!(from.target, int_lit("0"));
            assert_eq!(to.target, var("n"));
            assert_eq!(body[0].target, Stmt::Return(None));
        },
        other => panic!("unexpected {:?}", other),
    }
    // A return at the very end of the tokens has no value.
    let mut p = Parser::new("return");
    assert_eq!(p.parse_stmt().unwrap().target, Stmt::Return(None));
}

#[test]
fn return_takes_a_single_operand() {
    let mut p = Parser::new("return a + b");
    assert_eq!(p.parse_stmt().unwrap().target, Stmt::Return(Some(sp(var("a"), at(0, 7)))));
    // The rest is left for the next statement, which cannot start with `+`.
    assert_eq!(
        p.parse_stmt(),
        Err(SyntaxError::UnexpectedToken { token: TokenKind::Plus, location: at(0, 9) })
    );
}

#[test]
fn struct_declarations() {
    let mut p = Parser::new("struct P = { x: int, y: *P }");
    match p.parse_stmt().unwrap().target {
        Stmt::StructDecl { name, fields } => {
            assert_eq!(name, "P");
            assert_eq!(
                fields,
                vec![
                    ("x".to_string(), Ty::Int),
                    ("y".to_string(), Ty::Pointer(Box::new(Ty::UserDefined("P".to_string()))))
                ]
            );
        },
        other => panic!("unexpected {:?}", other),
    }
    // A struct may have no fields.
    let mut p = Parser::new("struct E = { }");
    assert_eq!(
        p.parse_stmt().unwrap().target,
        Stmt::StructDecl { name: "E".to_string(), fields: vec![] }
    );
    assert!(p.peek().is_none());
    // A comma must be followed by another field.
    let mut p = Parser::new("struct E = { a: int, }");
    assert_eq!(
        p.parse_stmt(),
        Err(SyntaxError::UnexpectedToken { token: TokenKind::RCurly, location: at(0, 21) })
    );
    // A missing `}` is reported at the end of the tokens.
    let mut p = Parser::new("struct E = { a: int");
    assert_eq!(p.parse_stmt(), Err(SyntaxError::UnexpectedEof));
}

#[test]
fn errors_at_the_end_of_the_tokens() {
    let mut p = Parser::new("local x: int =");
    assert_eq!(p.parse_stmt(), Err(SyntaxError::UnexpectedEof));
    let mut p = Parser::new("");
    assert_eq!(p.parse_stmt(), Err(SyntaxError::UnexpectedEof));
    let mut p = Parser::new("x = 1");
    assert_eq!(p.parse_block(), Err(SyntaxError::UnexpectedEof));
}

#[test]
fn errors_at_an_unexpected_token() {
    let mut p = Parser::new("local 5");
    assert_eq!(
        p.parse_stmt(),
        Err(SyntaxError::UnexpectedToken { token: TokenKind::IntLit, location: at(0, 6) })
    );
    // A token that cannot start a statement is not consumed.
    let mut p = Parser::new("then");
    assert_eq!(
        p.parse_stmt(),
        Err(SyntaxError::UnexpectedToken { token: TokenKind::KwThen, location: at(0, 0) })
    );
    assert_eq!(p.peek().map(|t| t.kind), Some(TokenKind::KwThen));
}

#[test]
fn an_array_type_needs_its_closing_bracket() {
    let mut p = Parser::new("local x: [int = 1");
    assert_eq!(p.parse_stmt(), Err(SyntaxError::UnmatchedBrackets { location: at(0, 9) }));
    let mut p = Parser::new("local x: [");
    assert_eq!(p.parse_stmt(), Err(SyntaxError::UnmatchedBrackets { location: at(0, 9) }));
}

#[test]
fn a_block_ends_with_end() {
    let mut p = Parser::new("x = 1 y = 2 end z");
    let b = p.parse_block().unwrap();
    assert_eq!(b.len(), 2);
    assert_eq!(p.peek().map(|t| t.literal.clone()), Some("z".to_string()));
    let mut p = Parser::new("end");
    assert!(p.parse_block().unwrap().is_empty());
    assert!(p.peek().is_none());
}

#[test]
fn peek_advance_check_and_expect() {
    let mut p = Parser::new("a : b");
    assert_eq!(p.peek().map(|t| t.kind), Some(TokenKind::Ident));
    assert_eq!(p.peek().map(|t| t.kind), Some(TokenKind::Ident));
    let err = SyntaxError::UnexpectedEof;
    assert!(p.check(TokenKind::Ident, err).is_ok());
    assert_eq!(p.check(TokenKind::Colon, SyntaxError::UnmatchedBrackets { location: at(9, 9) }).unwrap_err(),
        SyntaxError::UnmatchedBrackets { location: at(9, 9) });
    let a = p.advance().unwrap();
    assert_eq!(a.literal, "a");
    assert_eq!(p.expect(TokenKind::Colon).unwrap().location, at(0, 2));
    assert_eq!(
        p.expect(TokenKind::Colon),
        Err(SyntaxError::UnexpectedToken { token: TokenKind::Ident, location: at(0, 4) })
    );
    // The mismatched token was consumed.
    assert!(p.advance().is_none());
    assert_eq!(p.expect(TokenKind::Colon), Err(SyntaxError::UnexpectedEof));
    // Asking past the end keeps returning nothing.
    assert!(p.advance().is_none());
    assert!(p.peek().is_none());
}

#[test]
fn expect_error_replaces_every_failure() {
    let custom = SyntaxError::UnmatchedBrackets { location: at(3, 4) };
    let mut p = Parser::new("a b");
    assert_eq!(p.expect_error(TokenKind::Ident, custom).unwrap().literal, "a");
    assert_eq!(p.expect_error(TokenKind::Colon, custom), Err(custom));
    assert_eq!(p.expect_error(TokenKind::Colon, custom), Err(custom));
    assert!(p.peek().is_none());
}

#[test]
fn imports_parse_on_their_own() {
    let mut p = Parser::new("import io");
    assert_eq!(p.parse_import(), Ok(ToplevelStmt::Import { module: "io".to_string() }));
    let mut p = Parser::new("import");
    assert_eq!(p.parse_import(), Err(SyntaxError::UnexpectedEof));
}

#[test]
fn the_program_parser_skips_comments_between_statements_only() {
    let nodes = Parser::parse("-- one\nx = 1 -- two\n-- three").unwrap();
    assert_eq!(nodes.len(), 1);
    assert_eq!(nodes[0].location, at(1, 0));
    // Inside a block a comment is not a statement.
    assert_eq!(
        Parser::parse("while a do -- c\nend"),
        Err(SyntaxError::UnexpectedToken { token: TokenKind::Comment, location: at(0, 11) })
    );
    // The program parser does not take imports.
    assert_eq!(
        Parser::parse("import io"),
        Err(SyntaxError::UnexpectedToken { token: TokenKind::KwImport, location: at(0, 0) })
    );
    assert_eq!(Parser::parse(""), Ok(vec![]));
}

#[test]
fn function_declarations() {
    let nodes = Parser::parse("function f(a: int,) end\nfunction g(): *bool return end").unwrap();
    match &nodes[0].target {
        ToplevelStmt::FunctionDecl { name, return_ty, params, body } => {
            assert_eq!(name, "f");
            assert_eq!(*return_ty, Ty::Void);
            assert_eq!(params, &vec![("a".to_string(), Ty::Int)]);
            assert!(body.is_empty());
        },
        other => panic!("unexpected {:?}", other),
    }
    match &nodes[1].target {
        ToplevelStmt::FunctionDecl { return_ty, params, .. } => {
            assert_eq!(*return_ty, Ty::Pointer(Box::new(Ty::Bool)));
            assert!(params.is_empty());
        },
        other => panic!("unexpected {:?}", other),
    }
    assert_eq!(nodes[1].location, at(1, 0));
    assert_eq!(
        Parser::parse("function f(a int) end"),
        Err(SyntaxError::UnexpectedToken { token: TokenKind::Int, location: at(0, 13) })
    );
}

#[test]
fn leading_comments_do_not_change_the_program() {
    let with = Parser::parse("-- one\n-- two\nx = 1").unwrap();
    let without = Parser::parse("\n\nx = 1").unwrap();
    assert_eq!(with, without);
}

#[test]
fn a_comment_where_a_statement_may_start_is_dropped() {
    let with = Parser::parse("x = 1 -- c\ny = 2");
    let without = Parser::parse("x = 1        \ny = 2");
    assert_eq!(with, without);
}

#[test]
fn a_comment_can_hide_what_a_statement_looks_ahead_at() {
    // The `if` looks at the token after its `end` for an `else`; a comment
    // there ends the statement, and the `else` that follows cannot start one.
    assert_eq!(
        Parser::parse("if a then end -- c\nelse end"),
        Err(SyntaxError::UnexpectedToken { token: TokenKind::KwElse, location: at(1, 0) })
    );
    assert!(Parser::parse("if a then end\nelse end").is_ok());
}

#[test]
fn statements_are_chosen_by_their_first_token() {
    let mut p = Parser::new("return");
    assert_eq!(p.parse_stmt().unwrap().target, Stmt::Return(None));
    let mut p = Parser::new("else");
    assert_eq!(
        p.parse_stmt(),
        Err(SyntaxError::UnexpectedToken { token: TokenKind::KwElse, location: at(0, 0) })
    );
    assert_eq!(p.peek().map(|t| t.kind), Some(TokenKind::KwElse));
}
