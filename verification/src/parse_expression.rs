use vstd::prelude::*;

use crate::ast::ASTNode;
use crate::error::ParseError;
use crate::grammar::{expression, expression_tail, is_multiplicative, node_result, operand, term, term_tail};
use crate::parser::Parser;
use crate::tokens::{Bracket, Operations, TokenEnum};

verus! {

/// Whether `op` is one of `*`, `/`, `%`.
fn is_multiplicative_op(op: Operations) -> (res: bool)
    ensures
        res == is_multiplicative(op),
{
    match op {
        Operations::Multiply | Operations::Divide | Operations::Modulo => true,
        _ => false,
    }
}

impl Parser {
    /// OPERAND -> NUMBER | STRING | VAR_NAME | LPAREN EXPRESSION RPAREN
    fn parse_operand(&mut self) -> (res: Result<ASTNode, ParseError>)
        ensures
            final(self)@ == operand(old(self)@).0,
            node_result(res) == operand(old(self)@).1,
            old(self)@.same_except_pos(final(self)@),
            final(self)@.remaining() <= old(self)@.remaining(),
            res is Ok ==> final(self)@.remaining() < old(self)@.remaining(),
        decreases old(self)@.remaining(), 0nat,
    {
        let t = self.peek_next_token();
        match t.token {
            TokenEnum::Number(_) | TokenEnum::StringLiteral(_) | TokenEnum::Variable(_) => {
                let tok = self.consume_token();
                Ok(ASTNode::Factor(tok))
            },
            TokenEnum::Bracket(Bracket::LParen) => {
                self.consume_token();
                let inner = match self.parse_logical_expression() {
                    Ok(n) => n,
                    Err(e) => return Err(e),
                };
                match self.validate_and_consume_token(TokenEnum::Bracket(Bracket::RParen)) {
                    Ok(_) => Ok(inner),
                    Err(e) => Err(e),
                }
            },
            _ => Err(ParseError::UnexpectedToken { found: t, expected: None }),
        }
    }

    /// TERM -> OPERAND ((* | / | %) OPERAND)*, the operators grouped from the left.
    fn parse_term(&mut self) -> (res: Result<ASTNode, ParseError>)
        ensures
            final(self)@ == term(old(self)@).0,
            node_result(res) == term(old(self)@).1,
            old(self)@.same_except_pos(final(self)@),
            final(self)@.remaining() <= old(self)@.remaining(),
            res is Ok ==> final(self)@.remaining() < old(self)@.remaining(),
        decreases old(self)@.remaining(), 2nat,
    {
        let mut acc = match self.parse_operand() {
            Ok(n) => n,
            Err(e) => return Err(e),
        };
        loop
            invariant
                term_tail(self@, acc@) == term(old(self)@),
                old(self)@.same_except_pos(self@),
                self@.remaining() < old(self)@.remaining(),
            decreases self@.remaining(),
        {
            let t = self.peek_next_token();
            match t.token {
                TokenEnum::Op(op) => {
                    if !is_multiplicative_op(op) {
                        return Ok(acc);
                    }
                    self.consume_token();
                    let right = match self.parse_operand() {
                        Ok(n) => n,
                        Err(e) => return Err(e),
                    };
                    acc = ASTNode::BinaryOp(Box::new(acc), op, Box::new(right));
                },
                _ => return Ok(acc),
            }
        }
    }

    /// EXPRESSION -> TERM ((+ | -) TERM)*, the operators grouped from the left;
    /// `*`, `/` and `%` bind tighter than `+` and `-`. This expression grammar is
    /// the library's own minimal one: operands are numbers, strings, variable
    /// names and parenthesised expressions; comparisons, logical operators and
    /// calls are not part of it.
    pub fn parse_logical_expression(&mut self) -> (res: Result<ASTNode, ParseError>)
        ensures
            final(self)@ == expression(old(self)@).0,
            node_result(res) == expression(old(self)@).1,
            old(self)@.same_except_pos(final(self)@),
            final(self)@.remaining() <= old(self)@.remaining(),
            res is Ok ==> final(self)@.remaining() < old(self)@.remaining(),
        decreases old(self)@.remaining(), 4nat,
    {
        let mut acc = match self.parse_term() {
            Ok(n) => n,
            Err(e) => return Err(e),
        };
        loop
            invariant
                expression_tail(self@, acc@) == expression(old(self)@),
                old(self)@.same_except_pos(self@),
                self@.remaining() < old(self)@.remaining(),
            decreases self@.remaining(),
        {
            let t = self.peek_next_token();
            match t.token {
                TokenEnum::Op(op) => {
                    if is_multiplicative_op(op) {
                        return Ok(acc);
                    }
                    self.consume_token();
                    let right = match self.parse_term() {
                        Ok(n) => n,
                        Err(e) => return Err(e),
                    };
                    acc = ASTNode::BinaryOp(Box::new(acc), op, Box::new(right));
                },
                _ => return Ok(acc),
            }
        }
    }
}

} // verus!
