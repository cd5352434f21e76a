//! Expressions: operands joined by binary operators.
use vstd::prelude::*;

use super::grammar::{binary_op_of, p_binary, p_binary_rest, p_expr, p_value, unary_op_of};
use super::{ParseResult, Parser};
use crate::syntax::ast::{BinaryOp, Expr, Literal, Numeric, UnaryOp};
use crate::syntax::errors::SyntaxError;
use crate::syntax::lexer::TokenKind;
use crate::syntax::span::Spanned;

verus! {

fn binary_op_for(kind: TokenKind) -> (op: BinaryOp)
    ensures
        op == binary_op_of(kind),
{
    match kind {
        TokenKind::Plus => BinaryOp::Add,
        TokenKind::Minus => BinaryOp::Sub,
        TokenKind::Star => BinaryOp::Mul,
        TokenKind::Slash => BinaryOp::Div,
        TokenKind::Equal => BinaryOp::Eq,
        TokenKind::BangEqual => BinaryOp::NotEq,
        TokenKind::Less => BinaryOp::Less,
        TokenKind::LessEqual => BinaryOp::LessEq,
        TokenKind::Greater => BinaryOp::Greater,
        _ => BinaryOp::GreaterEq,
    }
}

fn unary_op_for(kind: TokenKind) -> (op: UnaryOp)
    ensures
        op == unary_op_of(kind),
{
    match kind {
        TokenKind::Minus => UnaryOp::Neg,
        _ => UnaryOp::Not,
    }
}

impl Parser {
    /// Parses an expression, in which operators of higher precedence bind
    /// tighter and operators of equal precedence group to the left.
    pub fn parse_expr(&mut self) -> (res: ParseResult<Spanned<Expr>>)
        requires
            old(self).has_room(),
        ensures
            final(self).same_tokens(old(self)),
            (res, final(self).position()) == p_expr(old(self).token_seq(), old(self).position()),
            res is Ok ==> old(self).position() < final(self).position(),
            res is Ok ==> final(self).position() <= final(self).token_seq().len(),
        decreases old(self).token_seq().len() - old(self).position(), 3int,
    {
        self.parse_binary(0)
    }

    /// Parses an operand, then every operator whose precedence exceeds `min`
    /// together with its right operand.
    fn parse_binary(&mut self, min: u8) -> (res: ParseResult<Spanned<Expr>>)
        requires
            old(self).has_room(),
        ensures
            final(self).same_tokens(old(self)),
            (res, final(self).position()) == p_binary(
                old(self).token_seq(),
                old(self).position(),
                min,
            ),
            res is Ok ==> old(self).position() < final(self).position(),
            res is Ok ==> final(self).position() <= final(self).token_seq().len(),
        decreases old(self).token_seq().len() - old(self).position(), 2int,
    {
        let ghost ts = self.token_seq();
        let ghost start = self.position();
        let mut lhs = self.parse_value()?;
        loop
            invariant
                self.same_tokens(old(self)),
                self.has_room(),
                ts == old(self).token_seq(),
                start == old(self).position(),
                start < self.position() <= ts.len(),
                p_binary(ts, start, min) == p_binary_rest(ts, self.position(), lhs, min),
            ensures
                self.same_tokens(old(self)),
                self.has_room(),
                start < self.position() <= ts.len(),
                p_binary(ts, start, min) == (
                    Ok::<Spanned<Expr>, SyntaxError>(lhs),
                    self.position(),
                ),
            decreases ts.len() - self.position(),
        {
            match self.peek_kind() {
                Some(kind) => {
                    if kind.is_op() && kind.get_precedence() > min {
                        self.advance();
                        let rhs = self.parse_binary(kind.get_precedence())?;
                        let location = lhs.location;
                        lhs = Spanned {
                            target: Expr::Binary {
                                op: binary_op_for(kind),
                                lhs: Box::new(lhs.target),
                                rhs: Box::new(rhs.target),
                            },
                            location,
                        };
                    } else {
                        break;
                    }
                },
                None => break,
            }
        }
        Ok(lhs)
    }

    /// Parses an operand: a literal, a name, an expression in parentheses,
    /// or a unary operator applied to an operand.
    pub fn parse_value(&mut self) -> (res: ParseResult<Spanned<Expr>>)
        requires
            old(self).has_room(),
        ensures
            final(self).same_tokens(old(self)),
            (res, final(self).position()) == p_value(old(self).token_seq(), old(self).position()),
            res is Ok ==> old(self).position() < final(self).position(),
            res is Ok ==> final(self).position() <= final(self).token_seq().len(),
        decreases old(self).token_seq().len() - old(self).position(), 0int,
    {
        let token = match self.advance() {
            Some(t) => t,
            None => return Err(SyntaxError::UnexpectedEof),
        };
        let location = token.location;
        if token.kind.is_unop() {
            let operand = self.parse_value()?;
            return Ok(
                Spanned {
                    target: Expr::Unary {
                        op: unary_op_for(token.kind),
                        operand: Box::new(operand.target),
                    },
                    location,
                },
            );
        }
        match token.kind {
            TokenKind::IntLit => Ok(
                Spanned { target: Expr::Literal(Literal::Number(Numeric::Int(token.literal))), location },
            ),
            TokenKind::FloatLit => Ok(
                Spanned {
                    target: Expr::Literal(Literal::Number(Numeric::Float(token.literal))),
                    location,
                },
            ),
            TokenKind::StringLit => Ok(
                Spanned { target: Expr::Literal(Literal::Str(token.literal)), location },
            ),
            TokenKind::KwTrue => Ok(Spanned { target: Expr::Literal(Literal::Bool(true)), location }),
            TokenKind::KwFalse => Ok(
                Spanned { target: Expr::Literal(Literal::Bool(false)), location },
            ),
            TokenKind::Ident => Ok(Spanned { target: Expr::Variable(token.literal), location }),
            TokenKind::LParen => {
                let inner = self.parse_expr()?;
                self.expect(TokenKind::RParen)?;
                Ok(Spanned { target: inner.target, location })
            },
            _ => Err(SyntaxError::UnexpectedToken { token: token.kind, location }),
        }
    }
}

} // verus!
