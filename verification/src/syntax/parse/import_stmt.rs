//! Import statements.
use vstd::prelude::*;

use super::grammar::{p_import, toplevel_result};
use super::{ParseResult, Parser};
use crate::syntax::ast::ToplevelStmt;
use crate::syntax::lexer::TokenKind;

verus! {

impl Parser {
    /// Parses `import name`.
    pub fn parse_import(&mut self) -> (res: ParseResult<ToplevelStmt>)
        requires
            old(self).has_room(),
        ensures
            final(self).same_tokens(old(self)),
            (toplevel_result(res), final(self).position()) == p_import(
                old(self).token_seq(),
                old(self).position(),
            ),
            res is Ok ==> old(self).position() < final(self).position(),
            res is Ok ==> final(self).position() <= final(self).token_seq().len(),
    {
        self.expect(TokenKind::KwImport)?;
        let name = self.expect(TokenKind::Ident)?;
        Ok(ToplevelStmt::Import { module: name.literal })
    }
}

} // verus!
