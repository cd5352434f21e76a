use vstd::prelude::*;

verus! {

/// Where a token starts in the source text: its line and its column, both
/// counted from 0.
#[derive(Debug, Clone, Copy, PartialEq, Eq, Structural)]
pub struct Location {
    pub line: usize,
    pub column: usize,
}

/// The kinds of token that the lexer produces.
#[derive(Debug, Clone, Copy, PartialEq, Eq, Structural)]
pub enum TokenKind {
    // operators
    Plus,
    Minus,
    Star,
    Slash,
    Equal,
    BangEqual,
    Bang,
    Less,
    LessEqual,
    Greater,
    GreaterEqual,
    // punctuation
    LParen,
    RParen,
    LSquare,
    RSquare,
    LCurly,
    RCurly,
    Comma,
    Colon,
    // type names
    Void,
    Int,
    Float,
    String,
    Bool,
    // keywords
    KwImport,
    KwFunction,
    KwLocal,
    KwStruct,
    KwIf,
    KwThen,
    KwElse,
    KwFor,
    KwWhile,
    KwDo,
    KwEnd,
    KwReturn,
    KwTrue,
    KwFalse,
    // literals, names and the rest
    Ident,
    IntLit,
    FloatLit,
    StringLit,
    Comment,
    Unknown,
}

} // verus!

verus! {

/// A token: its kind, the text it was made from, and where it starts.
///
/// The text of a string literal is what stands between its quotes; that of
/// every other token is the whole lexeme.
#[derive(Debug, Clone, PartialEq)]
pub struct Token {
    pub kind: TokenKind,
    pub literal: String,
    pub location: Location,
}

/// What a token holds, with its text as a sequence of characters.
pub struct Lexeme {
    pub kind: TokenKind,
    pub text: Seq<char>,
    pub location: Location,
}

impl View for Token {
    type V = Lexeme;

    open spec fn view(&self) -> Lexeme {
        Lexeme { kind: self.kind, text: self.literal@, location: self.location }
    }
}

impl Token {
    /// A copy of this token.
    pub fn duplicate(&self) -> (res: Token)
        ensures
            res == *self,
    {
        Token { kind: self.kind, literal: self.literal.clone(), location: self.location }
    }
}

/// The views of a sequence of tokens.
pub open spec fn lexemes(ts: Seq<Token>) -> Seq<Lexeme> {
    ts.map_values(|t: Token| t@)
}

pub open spec fn is_digit(c: char) -> bool {
    '0' <= c && c <= '9'
}

pub open spec fn is_ident_start(c: char) -> bool {
    ('a' <= c && c <= 'z') || ('A' <= c && c <= 'Z') || c == '_'
}

pub open spec fn is_ident_char(c: char) -> bool {
    is_ident_start(c) || is_digit(c)
}

/// Blanks other than the line break.
pub open spec fn is_blank(c: char) -> bool {
    c == ' ' || c == '\t' || c == '\r'
}

/// The end of the run of identifier characters that starts at `j`.
pub open spec fn ident_end(cs: Seq<char>, j: int) -> int
    decreases cs.len() - j,
{
    if 0 <= j < cs.len() && is_ident_char(cs[j]) {
        ident_end(cs, j + 1)
    } else {
        j
    }
}

/// The end of the run of digits that starts at `j`.
pub open spec fn digits_end(cs: Seq<char>, j: int) -> int
    decreases cs.len() - j,
{
    if 0 <= j < cs.len() && is_digit(cs[j]) {
        digits_end(cs, j + 1)
    } else {
        j
    }
}

/// The first index from `j` on that holds `'"'` or a line break, or the end.
pub open spec fn string_end(cs: Seq<char>, j: int) -> int
    decreases cs.len() - j,
{
    if 0 <= j < cs.len() && cs[j] != '"' && cs[j] != '\n' {
        string_end(cs, j + 1)
    } else {
        j
    }
}

/// The first index from `j` on that holds a line break, or the end.
pub open spec fn line_end(cs: Seq<char>, j: int) -> int
    decreases cs.len() - j,
{
    if 0 <= j < cs.len() && cs[j] != '\n' {
        line_end(cs, j + 1)
    } else {
        j
    }
}

/// The kind of a word: a keyword, a type name, or an identifier.
pub open spec fn word_kind(w: Seq<char>) -> TokenKind {
    if w == "import"@ {
        TokenKind::KwImport
    } else if w == "function"@ {
        TokenKind::KwFunction
    } else if w == "local"@ {
        TokenKind::KwLocal
    } else if w == "struct"@ {
        TokenKind::KwStruct
    } else if w == "if"@ {
        TokenKind::KwIf
    } else if w == "then"@ {
        TokenKind::KwThen
    } else if w == "else"@ {
        TokenKind::KwElse
    } else if w == "for"@ {
        TokenKind::KwFor
    } else if w == "while"@ {
        TokenKind::KwWhile
    } else if w == "do"@ {
        TokenKind::KwDo
    } else if w == "end"@ {
        TokenKind::KwEnd
    } else if w == "return"@ {
        TokenKind::KwReturn
    } else if w == "true"@ {
        TokenKind::KwTrue
    } else if w == "false"@ {
        TokenKind::KwFalse
    } else if w == "void"@ {
        TokenKind::Void
    } else if w == "int"@ {
        TokenKind::Int
    } else if w == "float"@ {
        TokenKind::Float
    } else if w == "string"@ {
        TokenKind::String
    } else if w == "bool"@ {
        TokenKind::Bool
    } else {
        TokenKind::Ident
    }
}

/// The kind of a one-character operator or punctuation mark.
pub open spec fn single_kind(c: char) -> TokenKind {
    if c == '+' {
        TokenKind::Plus
    } else if c == '-' {
        TokenKind::Minus
    } else if c == '*' {
        TokenKind::Star
    } else if c == '/' {
        TokenKind::Slash
    } else if c == '=' {
        TokenKind::Equal
    } else if c == '!' {
        TokenKind::Bang
    } else if c == '<' {
        TokenKind::Less
    } else if c == '>' {
        TokenKind::Greater
    } else if c == '(' {
        TokenKind::LParen
    } else if c == ')' {
        TokenKind::RParen
    } else if c == '[' {
        TokenKind::LSquare
    } else if c == ']' {
        TokenKind::RSquare
    } else if c == '{' {
        TokenKind::LCurly
    } else if c == '}' {
        TokenKind::RCurly
    } else if c == ',' {
        TokenKind::Comma
    } else if c == ':' {
        TokenKind::Colon
    } else {
        TokenKind::Unknown
    }
}

/// The kind and the end of the token that starts at `i`, where `cs[i]` is
/// neither a blank nor a line break.
pub open spec fn scan(cs: Seq<char>, i: int) -> (TokenKind, int) {
    let c = cs[i];
    let has_next = i + 1 < cs.len();
    if is_ident_start(c) {
        let e = ident_end(cs, i + 1);
        (word_kind(cs.subrange(i, e)), e)
    } else if is_digit(c) {
        let e = digits_end(cs, i + 1);
        if e < cs.len() - 1 && cs[e] == '.' && is_digit(cs[e + 1]) {
            (TokenKind::FloatLit, digits_end(cs, e + 1))
        } else {
            (TokenKind::IntLit, e)
        }
    } else if c == '"' {
        let e = string_end(cs, i + 1);
        if e < cs.len() && cs[e] == '"' {
            (TokenKind::StringLit, e + 1)
        } else {
            (TokenKind::Unknown, e)
        }
    } else if c == '-' && has_next && cs[i + 1] == '-' {
        (TokenKind::Comment, line_end(cs, i))
    } else if c == '!' && has_next && cs[i + 1] == '=' {
        (TokenKind::BangEqual, i + 2)
    } else if c == '<' && has_next && cs[i + 1] == '=' {
        (TokenKind::LessEqual, i + 2)
    } else if c == '>' && has_next && cs[i + 1] == '=' {
        (TokenKind::GreaterEqual, i + 2)
    } else {
        (single_kind(c), i + 1)
    }
}

/// The text of a token of kind `kind` that spans `cs[i..e]`.
pub open spec fn token_text(cs: Seq<char>, kind: TokenKind, i: int, e: int) -> Seq<char> {
    if kind == TokenKind::StringLit {
        cs.subrange(i + 1, e - 1)
    } else {
        cs.subrange(i, e)
    }
}

/// The tokens of `cs` from index `i` on, where `cs[i]` stands on line `line`
/// at column `col`.
pub open spec fn lex_from(cs: Seq<char>, i: int, line: int, col: int) -> Seq<Lexeme>
    decreases cs.len() - i,
{
    if i < 0 || i >= cs.len() {
        seq![]
    } else if cs[i] == '\n' {
        lex_from(cs, i + 1, line + 1, 0)
    } else if is_blank(cs[i]) {
        lex_from(cs, i + 1, line, col + 1)
    } else {
        let (kind, e) = scan(cs, i);
        if i < e <= cs.len() {
            let tok = Lexeme {
                kind,
                text: token_text(cs, kind, i, e),
                location: Location { line: line as usize, column: col as usize },
            };
            seq![tok] + lex_from(cs, e, line, col + (e - i))
        } else {
            seq![]
        }
    }
}

/// The tokens of a source text.
pub open spec fn lex(src: Seq<char>) -> Seq<Lexeme> {
    lex_from(src, 0, 0, 0)
}

/// Every token takes at least one character.
pub proof fn lemma_lex_from_len(cs: Seq<char>, i: int, line: int, col: int)
    requires
        0 <= i <= cs.len(),
    ensures
        lex_from(cs, i, line, col).len() <= cs.len() - i,
    decreases cs.len() - i,
{
    if i < cs.len() {
        if cs[i] == '\n' {
            lemma_lex_from_len(cs, i + 1, line + 1, 0);
        } else if is_blank(cs[i]) {
            lemma_lex_from_len(cs, i + 1, line, col + 1);
        } else {
            let (kind, e) = scan(cs, i);
            if i < e <= cs.len() {
                lemma_lex_from_len(cs, e, line, col + (e - i));
            }
        }
    }
}

/// A source text has no more tokens than characters.
pub proof fn lemma_lex_len(src: Seq<char>)
    ensures
        lex(src).len() <= src.len(),
{
    lemma_lex_from_len(src, 0, 0, 0);
}

/// The characters of `src`, in order.
pub fn source_chars(src: &str) -> (cs: Vec<char>)
    ensures
        cs@ == src@,
{
    let mut cs: Vec<char> = Vec::new();
    for c in it: src.chars()
        invariant
            cs@ == it.seq().take(it.index() as int),
    {
        cs.push(c);
    }
    cs
}


/// Appends `c` to `s`.
///
/// Calls `String::push`, whose documentation says that it appends the given
/// character to the end of the string; that is all this contract claims.
#[verifier::external_body]
fn push_char(s: &mut String, c: char)
    ensures
        final(s)@ == old(s)@.push(c),
{
    s.push(c);
}

fn char_is_digit(c: char) -> (b: bool)
    ensures
        b == is_digit(c),
{
    '0' <= c && c <= '9'
}

fn char_is_ident_start(c: char) -> (b: bool)
    ensures
        b == is_ident_start(c),
{
    ('a' <= c && c <= 'z') || ('A' <= c && c <= 'Z') || c == '_'
}

fn char_is_ident_char(c: char) -> (b: bool)
    ensures
        b == is_ident_char(c),
{
    char_is_ident_start(c) || char_is_digit(c)
}

fn find_ident_end(cs: &Vec<char>, j: usize) -> (e: usize)
    requires
        j <= cs.len(),
    ensures
        e == ident_end(cs@, j as int),
        j <= e <= cs.len(),
{
    let mut k = j;
    while k < cs.len() && char_is_ident_char(cs[k])
        invariant
            j <= k <= cs.len(),
            ident_end(cs@, k as int) == ident_end(cs@, j as int),
        decreases cs.len() - k,
    {
        k = k + 1;
    }
    k
}

fn find_digits_end(cs: &Vec<char>, j: usize) -> (e: usize)
    requires
        j <= cs.len(),
    ensures
        e == digits_end(cs@, j as int),
        j <= e <= cs.len(),
{
    let mut k = j;
    while k < cs.len() && char_is_digit(cs[k])
        invariant
            j <= k <= cs.len(),
            digits_end(cs@, k as int) == digits_end(cs@, j as int),
        decreases cs.len() - k,
    {
        k = k + 1;
    }
    k
}

fn find_string_end(cs: &Vec<char>, j: usize) -> (e: usize)
    requires
        j <= cs.len(),
    ensures
        e == string_end(cs@, j as int),
        j <= e <= cs.len(),
{
    let mut k = j;
    while k < cs.len() && cs[k] != '"' && cs[k] != '\n'
        invariant
            j <= k <= cs.len(),
            string_end(cs@, k as int) == string_end(cs@, j as int),
        decreases cs.len() - k,
    {
        k = k + 1;
    }
    k
}

fn find_line_end(cs: &Vec<char>, j: usize) -> (e: usize)
    requires
        j <= cs.len(),
    ensures
        e == line_end(cs@, j as int),
        j <= e <= cs.len(),
{
    let mut k = j;
    while k < cs.len() && cs[k] != '\n'
        invariant
            j <= k <= cs.len(),
            line_end(cs@, k as int) == line_end(cs@, j as int),
        decreases cs.len() - k,
    {
        k = k + 1;
    }
    k
}

fn is_word(w: &String, kw: &str) -> (b: bool)
    ensures
        b == (w@ == kw@),
{
    let k = kw.to_owned();
    *w == k
}

fn kind_of_word(w: &String) -> (k: TokenKind)
    ensures
        k == word_kind(w@),
{
    if is_word(w, "import") {
        TokenKind::KwImport
    } else if is_word(w, "function") {
        TokenKind::KwFunction
    } else if is_word(w, "local") {
        TokenKind::KwLocal
    } else if is_word(w, "struct") {
        TokenKind::KwStruct
    } else if is_word(w, "if") {
        TokenKind::KwIf
    } else if is_word(w, "then") {
        TokenKind::KwThen
    } else if is_word(w, "else") {
        TokenKind::KwElse
    } else if is_word(w, "for") {
        TokenKind::KwFor
    } else if is_word(w, "while") {
        TokenKind::KwWhile
    } else if is_word(w, "do") {
        TokenKind::KwDo
    } else if is_word(w, "end") {
        TokenKind::KwEnd
    } else if is_word(w, "return") {
        TokenKind::KwReturn
    } else if is_word(w, "true") {
        TokenKind::KwTrue
    } else if is_word(w, "false") {
        TokenKind::KwFalse
    } else if is_word(w, "void") {
        TokenKind::Void
    } else if is_word(w, "int") {
        TokenKind::Int
    } else if is_word(w, "float") {
        TokenKind::Float
    } else if is_word(w, "string") {
        TokenKind::String
    } else if is_word(w, "bool") {
        TokenKind::Bool
    } else {
        TokenKind::Ident
    }
}

fn kind_of_single(c: char) -> (k: TokenKind)
    ensures
        k == single_kind(c),
{
    if c == '+' {
        TokenKind::Plus
    } else if c == '-' {
        TokenKind::Minus
    } else if c == '*' {
        TokenKind::Star
    } else if c == '/' {
        TokenKind::Slash
    } else if c == '=' {
        TokenKind::Equal
    } else if c == '!' {
        TokenKind::Bang
    } else if c == '<' {
        TokenKind::Less
    } else if c == '>' {
        TokenKind::Greater
    } else if c == '(' {
        TokenKind::LParen
    } else if c == ')' {
        TokenKind::RParen
    } else if c == '[' {
        TokenKind::LSquare
    } else if c == ']' {
        TokenKind::RSquare
    } else if c == '{' {
        TokenKind::LCurly
    } else if c == '}' {
        TokenKind::RCurly
    } else if c == ',' {
        TokenKind::Comma
    } else if c == ':' {
        TokenKind::Colon
    } else {
        TokenKind::Unknown
    }
}

/// The characters `cs[from..to]` as a string.
fn text_between(cs: &Vec<char>, from: usize, to: usize) -> (s: String)
    requires
        from <= to <= cs.len(),
    ensures
        s@ == cs@.subrange(from as int, to as int),
{
    let mut s = String::new();
    let mut k = from;
    while k < to
        invariant
            from <= k <= to <= cs.len(),
            s@ == cs@.subrange(from as int, k as int),
        decreases to - k,
    {
        push_char(&mut s, cs[k]);
        k = k + 1;
        assert(s@ =~= cs@.subrange(from as int, k as int));
    }
    s
}

/// The kind and the end of the token that starts at `i`.
fn scan_token(cs: &Vec<char>, i: usize) -> (r: (TokenKind, usize))
    requires
        i < cs.len(),
    ensures
        (r.0, r.1 as int) == scan(cs@, i as int),
        i < r.1 <= cs.len(),
        r.0 == TokenKind::StringLit ==> i + 2 <= r.1,
{
    let c = cs[i];
    let has_next = i + 1 < cs.len();
    if char_is_ident_start(c) {
        let e = find_ident_end(cs, i + 1);
        let w = text_between(cs, i, e);
        (kind_of_word(&w), e)
    } else if char_is_digit(c) {
        let e = find_digits_end(cs, i + 1);
        if e < cs.len() - 1 && cs[e] == '.' && char_is_digit(cs[e + 1]) {
            let f = find_digits_end(cs, e + 1);
            (TokenKind::FloatLit, f)
        } else {
            (TokenKind::IntLit, e)
        }
    } else if c == '"' {
        let e = find_string_end(cs, i + 1);
        if e < cs.len() && cs[e] == '"' {
            (TokenKind::StringLit, e + 1)
        } else {
            (TokenKind::Unknown, e)
        }
    } else if c == '-' && has_next && cs[i + 1] == '-' {
        (TokenKind::Comment, find_line_end(cs, i + 1))
    } else if c == '!' && has_next && cs[i + 1] == '=' {
        (TokenKind::BangEqual, i + 2)
    } else if c == '<' && has_next && cs[i + 1] == '=' {
        (TokenKind::LessEqual, i + 2)
    } else if c == '>' && has_next && cs[i + 1] == '=' {
        (TokenKind::GreaterEqual, i + 2)
    } else {
        (kind_of_single(c), i + 1)
    }
}

/// Splits a source text into tokens; blanks and line breaks separate tokens
/// and are dropped.
pub fn lex_tokens(src: &str) -> (ts: Vec<Token>)
    ensures
        lexemes(ts@) == lex(src@),
{
    let cs = source_chars(src);
    let mut ts: Vec<Token> = Vec::new();
    let mut i: usize = 0;
    let mut line: usize = 0;
    let mut col: usize = 0;
    while i < cs.len()
        invariant
            i <= cs.len(),
            line + col <= i,
            lexemes(ts@) + lex_from(cs@, i as int, line as int, col as int) == lex(cs@),
        decreases cs.len() - i,
    {
        let c = cs[i];
        if c == '\n' {
            i = i + 1;
            line = line + 1;
            col = 0;
        } else if c == ' ' || c == '\t' || c == '\r' {
            i = i + 1;
            col = col + 1;
        } else {
            let (kind, e) = scan_token(&cs, i);
            let literal = if kind == TokenKind::StringLit {
                text_between(&cs, i + 1, e - 1)
            } else {
                text_between(&cs, i, e)
            };
            let tok = Token { kind, literal, location: Location { line, column: col } };
            let ghost old_ts = ts@;
            ts.push(tok);
            assert(lexemes(ts@) =~= lexemes(old_ts).push(tok@));
            col = col + (e - i);
            i = e;
        }
        assert(lexemes(ts@) + lex_from(cs@, i as int, line as int, col as int) =~= lex(cs@));
    }
    ts
}

} // verus!
