// Sub-parsers
pub mod expr;
pub mod grammar;
pub mod import_stmt;
pub mod properties;
pub mod suffix;
pub mod composition;

use vstd::prelude::*;

use super::ast::{
    Block, Expr, Stmt, ToplevelStmt, Ty, block_model, lemma_block_model_push,
    lemma_program_model_push, program_model, spanned_stmt_model, toplevel_model,
};
use super::errors::SyntaxError;
use super::lexer::{Token, TokenKind, lemma_lex_len, lex, lex_tokens, lexemes};
use super::span::Spanned;
use grammar::{
    block_result, expect, expect_or, is_binary_op, is_unary_op, kind_at, p_annotated_param,
    p_annotated_params, p_assignment, p_block, p_fields, p_for_loop, p_function_declare,
    p_if_stmt, p_local_declare, p_params, p_program, p_return, p_stmt, p_struct_declare,
    p_toplevel_stmt, p_type, p_while_loop, precedence, program_result, stmt_result,
    toplevel_result, vec_result,
};

verus! {

/// Result type for parsing
pub type ParseResult<T> = Result<T, SyntaxError>;

pub type ParameterPair = (String, Ty);

/// A recursive-descent parser over the tokens of one source text.
pub struct Parser {
    tokens: Vec<Token>,
    errors: Vec<SyntaxError>,
    pos: usize,
}

impl TokenKind {
    pub(crate) fn is_op(&self) -> (b: bool)
        ensures
            b == is_binary_op(*self),
    {
        match self {
            TokenKind::Plus
            | TokenKind::Minus
            | TokenKind::Star
            | TokenKind::Slash
            | TokenKind::Equal
            | TokenKind::BangEqual
            | TokenKind::Less
            | TokenKind::LessEqual
            | TokenKind::Greater
            | TokenKind::GreaterEqual => true,
            _ => false,
        }
    }

    pub(crate) fn is_unop(&self) -> (b: bool)
        ensures
            b == is_unary_op(*self),
    {
        match self {
            TokenKind::Minus | TokenKind::Bang => true,
            _ => false,
        }
    }

    pub(crate) fn get_precedence(&self) -> (p: u8)
        ensures
            p == precedence(*self),
    {
        match self {
            TokenKind::Plus | TokenKind::Minus => 10,
            TokenKind::Star | TokenKind::Slash => 20,
            TokenKind::Equal | TokenKind::BangEqual => 5,
            TokenKind::Less
            | TokenKind::LessEqual
            | TokenKind::Greater
            | TokenKind::GreaterEqual => 5,
            // Either not a binary operator or not implemented yet
            _ => 0,
        }
    }
}

impl Parser {
    /// The tokens the parser works on, consumed or not.
    pub closed spec fn token_seq(&self) -> Seq<Token> {
        self.tokens@
    }

    /// How many tokens the parser has been asked for: below the number of
    /// tokens it is the index of the next token, and every `advance` moves it
    /// on by one, also once the tokens have run out.
    pub closed spec fn position(&self) -> int {
        self.pos as int
    }

    /// The position is never negative.
    pub proof fn lemma_position_is_natural(&self)
        ensures
            0 <= self.position(),
    {
    }

    /// The errors the parser has collected.
    pub closed spec fn error_seq(&self) -> Seq<SyntaxError> {
        self.errors@
    }

    /// The position can move past every remaining token and one step more
    /// without overflowing.
    pub open spec fn has_room(&self) -> bool {
        &&& self.position() < usize::MAX
        &&& self.token_seq().len() < usize::MAX
    }

    /// The same tokens and errors, and `self` has not moved back.
    pub open spec fn same_tokens(&self, before: &Parser) -> bool {
        &&& self.token_seq() == before.token_seq()
        &&& self.error_seq() == before.error_seq()
        &&& before.position() <= self.position()
    }

    /// A parser at the start of the tokens of `src`.
    pub fn new(src: &str) -> (p: Self)
        ensures
            lexemes(p.token_seq()) == lex(src@),
            p.token_seq().len() <= src@.len(),
            p.position() == 0,
            p.error_seq() == Seq::<SyntaxError>::empty(),
    {
        let tokens = lex_tokens(src);
        proof {
            lemma_lex_len(src@);
            assert(lexemes(tokens@).len() == tokens@.len());
        }
        Parser { tokens, errors: Vec::new(), pos: 0 }
    }

    /// Peek at the next token
    pub fn peek(&mut self) -> (res: Option<&Token>)
        ensures
            *final(self) == *old(self),
            match res {
                Some(t) => 0 <= old(self).position() < old(self).token_seq().len() && *t
                    == old(self).token_seq()[old(self).position()],
                None => old(self).position() >= old(self).token_seq().len(),
            },
    {
        if self.pos < self.tokens.len() {
            Some(&self.tokens[self.pos])
        } else {
            None
        }
    }

    /// The kind of the next token.
    pub(crate) fn peek_kind(&mut self) -> (k: Option<TokenKind>)
        ensures
            *final(self) == *old(self),
            k == kind_at(old(self).token_seq(), old(self).position()),
    {
        match self.peek() {
            Some(token) => Some(token.kind),
            None => None,
        }
    }

    /// Advance the parser by one token
    pub fn advance(&mut self) -> (token: Option<Token>)
        requires
            old(self).position() < usize::MAX,
        ensures
            final(self).same_tokens(old(self)),
            final(self).position() == old(self).position() + 1,
            token == if old(self).position() < old(self).token_seq().len() {
                Some(old(self).token_seq()[old(self).position()])
            } else {
                None::<Token>
            },
    {
        self.pos += 1;
        if self.pos <= self.tokens.len() {
            Some(self.tokens[self.pos - 1].duplicate())
        } else {
            None
        }
    }

    /// Check if the next token is of the expected kind without advancing
    pub fn check(&mut self, kind: TokenKind, err: SyntaxError) -> (res: ParseResult<&Token>)
        ensures
            *final(self) == *old(self),
            match res {
                Ok(t) => kind_at(old(self).token_seq(), old(self).position()) == Some(kind)
                    && *t == old(self).token_seq()[old(self).position()],
                Err(e) => kind_at(old(self).token_seq(), old(self).position()) != Some(kind)
                    && e == err,
            },
    {
        match self.peek() {
            Some(token) => if token.kind == kind {
                Ok(token)
            } else {
                Err(err)
            },
            _ => Err(err),
        }
    }

    /// Consume the next token and return it if it matches the expected kind
    pub fn expect(&mut self, kind: TokenKind) -> (res: ParseResult<Token>)
        requires
            old(self).position() < usize::MAX,
        ensures
            final(self).same_tokens(old(self)),
            (res, final(self).position()) == expect(
                old(self).token_seq(),
                old(self).position(),
                kind,
            ),
    {
        let token = self.advance().ok_or(SyntaxError::UnexpectedEof)?;
        if token.kind == kind {
            Ok(token)
        } else {
            Err(SyntaxError::UnexpectedToken { token: token.kind, location: token.location })
        }
    }

    /// Remap the error from `expect` to a custom error passed in
    pub fn expect_error(&mut self, kind: TokenKind, err: SyntaxError) -> (res: ParseResult<Token>)
        requires
            old(self).position() < usize::MAX,
        ensures
            final(self).same_tokens(old(self)),
            (res, final(self).position()) == expect_or(
                old(self).token_seq(),
                old(self).position(),
                kind,
                err,
            ),
    {
        match self.expect(kind) {
            Ok(t) => Ok(t),
            Err(_) => Err(err),
        }
    }

    fn parse_type(&mut self) -> (res: ParseResult<Ty>)
        requires
            old(self).has_room(),
        ensures
            final(self).same_tokens(old(self)),
            (res, final(self).position()) == p_type(old(self).token_seq(), old(self).position()),
            res is Ok ==> old(self).position() < final(self).position(),
            res is Ok ==> final(self).position() <= final(self).token_seq().len(),
        decreases old(self).token_seq().len() - old(self).position(),
    {
        let token = match self.advance() {
            Some(t) => t,
            None => return Err(SyntaxError::UnexpectedEof),
        };
        match token.kind {
            TokenKind::Void => Ok(Ty::Void),
            TokenKind::Int => Ok(Ty::Int),
            TokenKind::Float => Ok(Ty::Float),
            TokenKind::String => Ok(Ty::String),
            TokenKind::Bool => Ok(Ty::Bool),
            TokenKind::Star => {
                // *type
                let ty = self.parse_type()?;
                Ok(Ty::Pointer(Box::new(ty)))
            },
            TokenKind::LSquare => {
                // []type
                self.expect_error(
                    TokenKind::RSquare,
                    SyntaxError::UnmatchedBrackets { location: token.location },
                )?;
                let ty = self.parse_type()?;
                Ok(Ty::Array(Box::new(ty)))
            },
            TokenKind::Ident => {
                // User defined type
                let ident = token.literal;
                Ok(Ty::UserDefined(ident))
            },
            // Invalid type
            _ => Err(SyntaxError::UnexpectedToken { token: token.kind, location: token.location }),
        }
    }

    fn parse_annotated_param(&mut self) -> (res: ParseResult<ParameterPair>)
        requires
            old(self).has_room(),
        ensures
            final(self).same_tokens(old(self)),
            (res, final(self).position()) == p_annotated_param(
                old(self).token_seq(),
                old(self).position(),
            ),
            res is Ok ==> old(self).position() < final(self).position(),
            res is Ok ==> final(self).position() <= final(self).token_seq().len(),
    {
        let ident = self.expect(TokenKind::Ident)?;
        self.expect(TokenKind::Colon)?;
        let ty = self.parse_type()?;
        Ok((ident.literal, ty))
    }

    fn parse_annotated_params(&mut self) -> (res: ParseResult<Vec<ParameterPair>>)
        requires
            old(self).has_room(),
        ensures
            final(self).same_tokens(old(self)),
            (vec_result(res), final(self).position())
                == p_annotated_params(old(self).token_seq(), old(self).position()),
            res is Ok && old(self).position() <= old(self).token_seq().len()
                ==> final(self).position() <= final(self).token_seq().len(),
    {
        let ghost ts = self.token_seq();
        let ghost start = self.position();
        let mut params: Vec<ParameterPair> = Vec::new();

        // Parse comma separated list of annotated parameters
        loop
            invariant
                self.same_tokens(old(self)),
                self.has_room(),
                ts == old(self).token_seq(),
                start == old(self).position(),
                self.position() == start || self.position() <= ts.len(),
                p_annotated_params(ts, start) == grammar::prefix(
                    params@,
                    p_annotated_params(ts, self.position()),
                ),
            ensures
                self.same_tokens(old(self)),
                self.has_room(),
                p_annotated_params(ts, start) == (
                    Ok::<Seq<ParameterPair>, SyntaxError>(params@),
                    self.position(),
                ),
            decreases ts.len() - self.position(),
        {
            proof {
                grammar::lemma_prefix_empty(params@, self.position());
            }
            match self.peek_kind() {
                Some(kind) if kind == TokenKind::RParen => break,
                Some(_) => {
                    let ghost before = self.position();
                    let ghost old_params = params@;
                    let param = self.parse_annotated_param()?;
                    params.push(param);
                    proof {
                        grammar::lemma_prefix_cons(old_params, param, p_annotated_params(ts, self.position() + 1));
                        grammar::lemma_prefix_empty(params@, self.position());
                        grammar::lemma_prefix_empty(old_params.push(param), self.position());
                    }
                    if let Some(kind) = self.peek_kind() {
                        if kind == TokenKind::RParen {
                            break;
                        }
                        self.expect(TokenKind::Comma)?;
                    }
                    assert(before < self.position());
                },
                None => break,
            }
        }

        Ok(params)
    }

    fn parse_params(&mut self) -> (res: ParseResult<Vec<String>>)
        requires
            old(self).has_room(),
        ensures
            final(self).same_tokens(old(self)),
            (vec_result(res), final(self).position()) == p_params(
                old(self).token_seq(),
                old(self).position(),
            ),
            res is Ok && old(self).position() <= old(self).token_seq().len()
                ==> final(self).position() <= final(self).token_seq().len(),
    {
        let ghost ts = self.token_seq();
        let ghost start = self.position();
        let mut params: Vec<String> = Vec::new();

        // Parse comma separated list of identifiers.
        loop
            invariant
                self.same_tokens(old(self)),
                self.has_room(),
                ts == old(self).token_seq(),
                start == old(self).position(),
                self.position() == start || self.position() <= ts.len(),
                p_params(ts, start) == grammar::prefix(params@, p_params(ts, self.position())),
            ensures
                self.same_tokens(old(self)),
                self.has_room(),
                p_params(ts, start) == (Ok::<Seq<String>, SyntaxError>(params@), self.position()),
            decreases ts.len() - self.position(),
        {
            proof {
                grammar::lemma_prefix_empty(params@, self.position());
            }
            match self.peek_kind() {
                Some(kind) if kind == TokenKind::RParen => break,
                Some(_) => {
                    let ghost before = self.position();
                    let ghost old_params = params@;
                    let ident = self.expect(TokenKind::Ident)?;
                    params.push(ident.literal);
                    proof {
                        grammar::lemma_prefix_cons(old_params, ident.literal, p_params(ts, self.position() + 1));
                        grammar::lemma_prefix_empty(params@, self.position());
                        grammar::lemma_prefix_empty(old_params.push(ident.literal), self.position());
                    }
                    if let Some(kind) = self.peek_kind() {
                        if kind == TokenKind::RParen {
                            break;
                        }
                        self.expect(TokenKind::Comma)?;
                    }
                    assert(before < self.position());
                },
                None => break,
            }
        }

        Ok(params)
    }

    fn parse_toplevel_stmt(&mut self) -> (res: ParseResult<ToplevelStmt>)
        requires
            old(self).has_room(),
        ensures
            final(self).same_tokens(old(self)),
            (toplevel_result(res), final(self).position()) == p_toplevel_stmt(
                old(self).token_seq(),
                old(self).position(),
            ),
    {
        match self.peek_kind() {
            Some(kind) => match kind {
                TokenKind::KwImport => self.parse_import(),
                TokenKind::KwFunction => self.parse_function_declare(),
                _ => {
                    let stmt = self.parse_stmt()?;
                    Ok(ToplevelStmt::Stmt(stmt))
                },
            },
            None => Err(SyntaxError::UnexpectedEof),
        }
    }

    /// Parses one statement, chosen by its first token.
    pub fn parse_stmt(&mut self) -> (res: ParseResult<Spanned<Stmt>>)
        requires
            old(self).has_room(),
        ensures
            final(self).same_tokens(old(self)),
            (stmt_result(res), final(self).position()) == p_stmt(
                old(self).token_seq(),
                old(self).position(),
            ),
            res is Ok ==> old(self).position() < final(self).position(),
            res is Ok ==> final(self).position() <= final(self).token_seq().len(),
        decreases old(self).token_seq().len() - old(self).position(), 2int,
    {
        match self.peek() {
            Some(token) => match token.kind {
                TokenKind::KwLocal => self.parse_local_declare(),
                TokenKind::KwStruct => self.parse_struct_declare(),
                TokenKind::Ident => self.parse_assignment(),
                TokenKind::KwIf => self.parse_if_stmt(),
                TokenKind::KwFor => self.parse_for_loop(),
                TokenKind::KwWhile => self.parse_while_loop(),
                TokenKind::KwReturn => self.parse_return(),
                // Unexpected token
                _ => Err(
                    SyntaxError::UnexpectedToken { token: token.kind, location: token.location },
                ),
            },
            None => Err(SyntaxError::UnexpectedEof),
        }
    }

    fn parse_local_declare(&mut self) -> (res: ParseResult<Spanned<Stmt>>)
        requires
            old(self).has_room(),
        ensures
            final(self).same_tokens(old(self)),
            (stmt_result(res), final(self).position()) == p_local_declare(
                old(self).token_seq(),
                old(self).position(),
            ),
            res is Ok ==> old(self).position() < final(self).position(),
            res is Ok ==> final(self).position() <= final(self).token_seq().len(),
    {
        // local ident:type = expr
        let t = self.expect(TokenKind::KwLocal)?;
        let ident = self.expect(TokenKind::Ident)?;
        self.expect(TokenKind::Colon)?;
        let ty = self.parse_type()?;

        self.expect(TokenKind::Equal)?;
        let expr = self.parse_expr()?;
        Ok(
            Spanned {
                target: Stmt::Local { name: ident.literal, ty: Some(ty), value: Some(expr) },
                location: t.location,
            },
        )
    }

    fn parse_assignment(&mut self) -> (res: ParseResult<Spanned<Stmt>>)
        requires
            old(self).has_room(),
        ensures
            final(self).same_tokens(old(self)),
            (stmt_result(res), final(self).position()) == p_assignment(
                old(self).token_seq(),
                old(self).position(),
            ),
            res is Ok ==> old(self).position() < final(self).position(),
            res is Ok ==> final(self).position() <= final(self).token_seq().len(),
    {
        // ident = expr
        let ident = self.expect(TokenKind::Ident)?;
        self.expect(TokenKind::Equal)?;
        let expr = self.parse_expr()?;
        let location = ident.location;
        Ok(
            Spanned {
                target: Stmt::Assign {
                    target: Spanned { target: Expr::Variable(ident.literal), location },
                    value: expr,
                },
                location,
            },
        )
    }

    fn parse_if_stmt(&mut self) -> (res: ParseResult<Spanned<Stmt>>)
        requires
            old(self).has_room(),
        ensures
            final(self).same_tokens(old(self)),
            (stmt_result(res), final(self).position()) == p_if_stmt(
                old(self).token_seq(),
                old(self).position(),
            ),
            res is Ok ==> old(self).position() < final(self).position(),
            res is Ok ==> final(self).position() <= final(self).token_seq().len(),
        decreases old(self).token_seq().len() - old(self).position(), 1int,
    {
        let t = self.expect(TokenKind::KwIf)?;
        let condition = self.parse_expr()?;

        self.expect(TokenKind::KwThen)?;
        let then_block = self.parse_block()?;

        let else_block = if let Some(kind) = self.peek_kind() {
            if kind == TokenKind::KwElse {
                self.advance();
                Some(self.parse_block()?)
            } else {
                None
            }
        } else {
            None
        };

        Ok(
            Spanned {
                target: Stmt::If { cond: condition, then_block, else_block },
                location: t.location,
            },
        )
    }

    fn parse_for_loop(&mut self) -> (res: ParseResult<Spanned<Stmt>>)
        requires
            old(self).has_room(),
        ensures
            final(self).same_tokens(old(self)),
            (stmt_result(res), final(self).position()) == p_for_loop(
                old(self).token_seq(),
                old(self).position(),
            ),
            res is Ok ==> old(self).position() < final(self).position(),
            res is Ok ==> final(self).position() <= final(self).token_seq().len(),
        decreases old(self).token_seq().len() - old(self).position(), 1int,
    {
        // for counter = start, end do
        // .. body
        // end
        let t = self.expect(TokenKind::KwFor)?;
        let ident = self.expect(TokenKind::Ident)?;
        self.expect(TokenKind::Equal)?;
        let start = self.parse_expr()?;
        self.expect(TokenKind::Comma)?;
        let end = self.parse_expr()?;

        self.expect(TokenKind::KwDo)?;
        let body = self.parse_block()?;

        Ok(
            Spanned {
                target: Stmt::For { init: ident.literal, from: start, to: end, body },
                location: t.location,
            },
        )
    }

    fn parse_while_loop(&mut self) -> (res: ParseResult<Spanned<Stmt>>)
        requires
            old(self).has_room(),
        ensures
            final(self).same_tokens(old(self)),
            (stmt_result(res), final(self).position()) == p_while_loop(
                old(self).token_seq(),
                old(self).position(),
            ),
            res is Ok ==> old(self).position() < final(self).position(),
            res is Ok ==> final(self).position() <= final(self).token_seq().len(),
        decreases old(self).token_seq().len() - old(self).position(), 1int,
    {
        // while condition do
        // .. body
        // end
        let t = self.expect(TokenKind::KwWhile)?;
        let cond = self.parse_expr()?;
        self.expect(TokenKind::KwDo)?;
        let block = self.parse_block()?;
        Ok(Spanned { target: Stmt::While { cond, block }, location: t.location })
    }

    fn parse_return(&mut self) -> (res: ParseResult<Spanned<Stmt>>)
        requires
            old(self).has_room(),
        ensures
            final(self).same_tokens(old(self)),
            (stmt_result(res), final(self).position()) == p_return(
                old(self).token_seq(),
                old(self).position(),
            ),
            res is Ok ==> old(self).position() < final(self).position(),
            res is Ok ==> final(self).position() <= final(self).token_seq().len(),
    {
        // return expr?
        let t = self.expect(TokenKind::KwReturn)?;
        let expr = if let Some(kind) = self.peek_kind() {
            if kind == TokenKind::KwEnd {
                None
            } else {
                Some(self.parse_value()?)
            }
        } else {
            None
        };

        Ok(Spanned { target: Stmt::Return(expr), location: t.location })
    }

    #[verifier::loop_isolation(false)]
    fn parse_struct_declare(&mut self) -> (res: ParseResult<Spanned<Stmt>>)
        requires
            old(self).has_room(),
        ensures
            final(self).same_tokens(old(self)),
            (stmt_result(res), final(self).position()) == p_struct_declare(
                old(self).token_seq(),
                old(self).position(),
            ),
            res is Ok ==> old(self).position() < final(self).position(),
            res is Ok ==> final(self).position() <= final(self).token_seq().len(),
    {
        // struct name = { field* }
        let t = self.expect(TokenKind::KwStruct)?;
        let name = self.expect(TokenKind::Ident)?;
        self.expect(TokenKind::Equal)?;

        self.expect(TokenKind::LCurly)?;
        let ghost ts = self.token_seq();
        let ghost first = self.position();
        let mut fields: Vec<ParameterPair> = Vec::new();

        // `}` right after `{`: a struct without fields
        let no_fields = match self.peek_kind() {
            Some(kind) => kind == TokenKind::RCurly,
            None => false,
        };
        if !no_fields {
            loop
                invariant
                    self.same_tokens(old(self)),
                    self.has_room(),
                    ts == old(self).token_seq(),
                    old(self).position() < first <= self.position(),
                    p_fields(ts, first) == grammar::prefix(fields@, p_fields(ts, self.position())),
                decreases ts.len() - self.position(),
            {
                proof {
                    grammar::lemma_prefix_empty(fields@, self.position());
                }
                if self.peek_kind().is_none() {
                    break;
                }
                let ghost before = self.position();
                let ghost old_fields = fields@;
                let ident = self.expect(TokenKind::Ident)?;
                self.expect(TokenKind::Colon)?;
                let ty = self.parse_type()?;
                let field = (ident.literal, ty);
                fields.push(field);
                proof {
                    grammar::lemma_prefix_cons(old_fields, field, p_fields(ts, self.position() + 1));
                    grammar::lemma_prefix_empty(fields@, self.position());
                    grammar::lemma_prefix_empty(old_fields.push(field), self.position());
                }

                if let Some(kind) = self.peek_kind() {
                    if kind == TokenKind::RCurly {
                        break;
                    }
                    self.expect(TokenKind::Comma)?;
                }
                assert(before < self.position());
            }
        }

        self.expect(TokenKind::RCurly)?;
        Ok(
            Spanned {
                target: Stmt::StructDecl { name: name.literal, fields },
                location: t.location,
            },
        )
    }

    /// Parses `function name(params)[: type] ... end`.
    fn parse_function_declare(&mut self) -> (res: ParseResult<ToplevelStmt>)
        requires
            old(self).has_room(),
        ensures
            final(self).same_tokens(old(self)),
            (toplevel_result(res), final(self).position()) == p_function_declare(
                old(self).token_seq(),
                old(self).position(),
            ),
            res is Ok ==> old(self).position() < final(self).position(),
            res is Ok ==> final(self).position() <= final(self).token_seq().len(),
    {
        // function name(params):return_type?
        // .. body
        // end

        let mut return_type = Ty::Void;

        self.expect(TokenKind::KwFunction)?;
        let name = self.expect(TokenKind::Ident)?;

        self.expect(TokenKind::LParen)?;
        let params = self.parse_annotated_params()?;
        self.expect(TokenKind::RParen)?;

        // Parse return type if present
        if let Some(kind) = self.peek_kind() {
            if kind == TokenKind::Colon {
                self.advance();
                return_type = self.parse_type()?;
            }
        }

        let body = self.parse_block()?;

        Ok(ToplevelStmt::FunctionDecl { name: name.literal, return_ty: return_type, params, body })
    }

    /// Parses statements up to and including `end`.
    pub fn parse_block(&mut self) -> (res: ParseResult<Block>)
        requires
            old(self).has_room(),
        ensures
            final(self).same_tokens(old(self)),
            (block_result(res), final(self).position()) == p_block(
                old(self).token_seq(),
                old(self).position(),
            ),
            res is Ok ==> old(self).position() < final(self).position(),
            res is Ok ==> final(self).position() <= final(self).token_seq().len(),
        decreases old(self).token_seq().len() - old(self).position(), 3int,
    {
        let ghost ts = self.token_seq();
        let ghost start = self.position();
        let mut stmts: Block = Vec::new();

        loop
            invariant
                self.same_tokens(old(self)),
                self.has_room(),
                ts == old(self).token_seq(),
                start == old(self).position(),
                p_block(ts, start) == grammar::prefix(
                    block_model(stmts@),
                    p_block(ts, self.position()),
                ),
            ensures
                self.same_tokens(old(self)),
                self.has_room(),
                p_block(ts, start) == grammar::prefix(
                    block_model(stmts@),
                    p_block(ts, self.position()),
                ),
                kind_at(ts, self.position()) is None || kind_at(ts, self.position()) == Some(
                    TokenKind::KwEnd,
                ),
            decreases ts.len() - self.position(),
        {
            match self.peek_kind() {
                Some(kind) => {
                    if kind == TokenKind::KwEnd {
                        break;
                    }
                    let ghost before = self.position();
                    let ghost old_stmts = stmts@;
                    let stmt = self.parse_stmt()?;
                    stmts.push(stmt);
                    proof {
                        lemma_block_model_push(old_stmts, stmt);
                        grammar::lemma_prefix_cons(
                            block_model(old_stmts),
                            spanned_stmt_model(stmt),
                            p_block(ts, self.position()),
                        );
                    }
                },
                None => break,
            }
        }
        proof {
            grammar::lemma_prefix_empty(block_model(stmts@), self.position() + 1);
        }
        self.expect(TokenKind::KwEnd)?;

        Ok(stmts)
    }

    /// Parses a whole source text: function declarations and statements,
    /// each spanned by its first token, with comments skipped.
    pub fn parse(src: &str) -> (res: ParseResult<Vec<Spanned<ToplevelStmt>>>)
        requires
            src@.len() < usize::MAX,
        ensures
            exists|ts: Seq<Token>|
                lexemes(ts) == lex(src@) && program_result(res) == (#[trigger] p_program(ts, 0)).0,
    {
        // node: (function_declare | stmt)
        // nodes: node*
        let mut parser = Parser::new(src);
        let mut nodes: Vec<Spanned<ToplevelStmt>> = Vec::new();
        let ghost ts = parser.token_seq();

        loop
            invariant
                parser.token_seq() == ts,
                parser.position() <= ts.len() < usize::MAX,
                lexemes(ts) == lex(src@),
                p_program(ts, 0) == grammar::prefix(
                    program_model(nodes@),
                    p_program(ts, parser.position()),
                ),
            ensures
                p_program(ts, 0) == grammar::prefix(
                    program_model(nodes@),
                    p_program(ts, parser.position()),
                ),
                parser.position() >= ts.len(),
            decreases ts.len() - parser.position(),
        {
            let ghost before = parser.position();
            let ghost old_nodes = nodes@;
            let (kind, location) = match parser.peek() {
                Some(token) => (token.kind, token.location),
                None => break,
            };
            match kind {
                TokenKind::Comment => {
                    parser.advance();
                },
                TokenKind::KwFunction => {
                    let f = parser.parse_function_declare()?;
                    let node = Spanned { target: f, location };
                    nodes.push(node);
                    proof {
                        lemma_program_model_push(old_nodes, node);
                        grammar::lemma_prefix_cons(
                            program_model(old_nodes),
                            Spanned { target: toplevel_model(node.target), location },
                            p_program(ts, parser.position()),
                        );
                    }
                },
                _ => {
                    let s = parser.parse_stmt()?;
                    let node = Spanned { target: ToplevelStmt::Stmt(s), location };
                    nodes.push(node);
                    proof {
                        lemma_program_model_push(old_nodes, node);
                        grammar::lemma_prefix_cons(
                            program_model(old_nodes),
                            Spanned { target: toplevel_model(node.target), location },
                            p_program(ts, parser.position()),
                        );
                    }
                },
            }
        }
        proof {
            grammar::lemma_prefix_empty(program_model(nodes@), parser.position());
        }
        Ok(nodes)
    }
}

} // verus!
