use lib::syntax::lexer::{lex_tokens, Location, TokenKind};

fn kinds(src: &str) -> Vec<TokenKind> {
    lex_tokens(src).iter().map(|t| t.kind).collect()
}

#[test]
fn lexes_a_local_declaration() {
    let ts = lex_tokens("local x: int = 10");
    let ks: Vec<TokenKind> = ts.iter().map(|t| t.kind).collect();
    assert_eq!(
        ks,
        vec![
            TokenKind::KwLocal,
            TokenKind::Ident,
            TokenKind::Colon,
            TokenKind::Int,
            TokenKind::Equal,
            TokenKind::IntLit
        ]
    );
    let texts: Vec<&str> = ts.iter().map(|t| t.literal.as_str()).collect();
    assert_eq!(texts, vec!["local", "x", ":", "int", "=", "10"]);
    assert_eq!(ts[0].location, Location { line: 0, column: 0 });
    assert_eq!(ts[1].location, Location { line: 0, column: 6 });
    assert_eq!(ts[5].location, Location { line: 0, column: 15 });
}

#[test]
fn lexes_keywords_and_type_names() {
    assert_eq!(
        kinds("import function struct if then else for while do end return true false"),
        vec![
            TokenKind::KwImport,
            TokenKind::KwFunction,
            TokenKind::KwStruct,
            TokenKind::KwIf,
            TokenKind::KwThen,
            TokenKind::KwElse,
            TokenKind::KwFor,
            TokenKind::KwWhile,
            TokenKind::KwDo,
            TokenKind::KwEnd,
            TokenKind::KwReturn,
            TokenKind::KwTrue,
            TokenKind::KwFalse
        ]
    );
    assert_eq!(
        kinds("void int float string bool ends _x9"),
        vec![
            TokenKind::Void,
            TokenKind::Int,
            TokenKind::Float,
            TokenKind::String,
            TokenKind::Bool,
            TokenKind::Ident,
            TokenKind::Ident
        ]
    );
}

#[test]
fn lexes_operators_and_punctuation() {
    assert_eq!(
        kinds("+-*/=!=!<<=>>=()[]{},:"),
        vec![
            TokenKind::Plus,
            TokenKind::Minus,
            TokenKind::Star,
            TokenKind::Slash,
            TokenKind::Equal,
            TokenKind::BangEqual,
            TokenKind::Bang,
            TokenKind::Less,
            TokenKind::LessEqual,
            TokenKind::Greater,
            TokenKind::GreaterEqual,
            TokenKind::LParen,
            TokenKind::RParen,
            TokenKind::LSquare,
            TokenKind::RSquare,
            TokenKind::LCurly,
            TokenKind::RCurly,
            TokenKind::Comma,
            TokenKind::Colon
        ]
    );
}

#[test]
fn lexes_string_literals_without_their_quotes() {
    let ts = lex_tokens("\"hello world\" x");
    assert_eq!(ts[0].kind, TokenKind::StringLit);
    assert_eq!(ts[0].literal, "hello world");
    assert_eq!(ts[1].kind, TokenKind::Ident);
    assert_eq!(ts[1].location, Location { line: 0, column: 14 });
}

#[test]
fn an_unterminated_string_is_unknown() {
    let ts = lex_tokens("\"abc\nx");
    assert_eq!(ts.len(), 2);
    assert_eq!(ts[0].kind, TokenKind::Unknown);
    assert_eq!(ts[0].literal, "\"abc");
    assert_eq!(ts[1].location, Location { line: 1, column: 0 });
}

#[test]
fn lexes_numbers() {
    let ts = lex_tokens("3.14 42 7.");
    let ks: Vec<TokenKind> = ts.iter().map(|t| t.kind).collect();
    assert_eq!(
        ks,
        vec![TokenKind::FloatLit, TokenKind::IntLit, TokenKind::IntLit, TokenKind::Unknown]
    );
    assert_eq!(ts[0].literal, "3.14");
    assert_eq!(ts[3].literal, ".");
}

#[test]
fn comments_run_to_the_end_of_the_line() {
    let ts = lex_tokens("-- a comment\n  x - y");
    let ks: Vec<TokenKind> = ts.iter().map(|t| t.kind).collect();
    assert_eq!(
        ks,
        vec![TokenKind::Comment, TokenKind::Ident, TokenKind::Minus, TokenKind::Ident]
    );
    assert_eq!(ts[0].literal, "-- a comment");
    assert_eq!(ts[1].location, Location { line: 1, column: 2 });
}

#[test]
fn unknown_characters_become_unknown_tokens() {
    let ts = lex_tokens("a @ é");
    let ks: Vec<TokenKind> = ts.iter().map(|t| t.kind).collect();
    assert_eq!(ks, vec![TokenKind::Ident, TokenKind::Unknown, TokenKind::Unknown]);
    assert_eq!(ts[2].literal, "é");
    assert_eq!(ts[2].location, Location { line: 0, column: 4 });
}

#[test]
fn blanks_and_line_breaks_only_move_locations() {
    let ts = lex_tokens("\t a\r\n\n b ");
    assert_eq!(ts.len(), 2);
    assert_eq!(ts[0].location, Location { line: 0, column: 2 });
    assert_eq!(ts[1].location, Location { line: 2, column: 1 });
    assert!(lex_tokens("  \n\t").is_empty());
}
