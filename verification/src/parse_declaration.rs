use vstd::prelude::*;

use crate::error::ParseError;
use crate::ast::{ASTNode, DeclarationStatement};
use crate::grammar::{array_type, declaration, find_type, node_result, variable};
use crate::parser::Parser;
use crate::tokens::{Bracket, Number, TokenEnum};
use crate::types::VarType;
use crate::variable::Variable;

verus! {

impl Parser {
    /// `[N]` after a type: makes `actual_var_type` an array of `N` elements of `var_type`.
    fn check_if_array_type(&mut self, actual_var_type: &mut VarType, var_type: &VarType) -> (res: Result<(), ParseError>)
        ensures
            final(self)@ == array_type(old(self)@, *old(actual_var_type), *var_type).0,
            old(self)@.same_except_pos(final(self)@),
            final(self)@.remaining() <= old(self)@.remaining(),
            match array_type(old(self)@, *old(actual_var_type), *var_type).1 {
                Ok(t) => res is Ok && *final(actual_var_type) == t,
                Err(e) => res == Err::<(), ParseError>(e) && *final(actual_var_type) == *old(actual_var_type),
            },
    {
        let next = self.peek_next_token();
        if let TokenEnum::Bracket(Bracket::LSquare) = next.token {
            // is of type int[4]
            self.consume_token();
            let peeked_token = self.peek_next_token();
            if let TokenEnum::Number(Number::Integer(size)) = peeked_token.token {
                self.consume_token();
                match self.validate_and_consume_token(TokenEnum::Bracket(Bracket::RSquare)) {
                    Ok(_) => {},
                    Err(e) => return Err(e),
                }
                *actual_var_type = VarType::Array(Box::new(var_type.clone()), size as usize);
                Ok(())
            } else {
                Err(ParseError::UnexpectedToken {
                    found: peeked_token,
                    expected: Some(TokenEnum::Number(Number::Integer(0))),
                })
            }
        } else {
            Ok(())
        }
    }

    /// The type registered under `name`.
    fn find_user_type(&self, name: &String) -> (res: Option<VarType>)
        ensures
            res == find_type(self.user_defined_types@, name@),
    {
        let types = &self.user_defined_types;
        let mut i: usize = 0;
        assert(types@.skip(0) =~= types@);
        while i < types.len()
            invariant
                0 <= i <= types@.len(),
                types@ == self.user_defined_types@,
                find_type(types@, name@) == find_type(types@.skip(i as int), name@),
            decreases types@.len() - i,
        {
            assert(types@.skip(i as int).drop_first() =~= types@.skip(i + 1));
            assert(types@.skip(i as int)[0] == types@[i as int]);
            if types[i].name == *name {
                return Some(types[i].type_.clone());
            }
            i = i + 1;
        }
        assert(types@.skip(i as int) =~= Seq::<crate::parser::UserDefinedType>::empty());
        None
    }

    /// VARIABLE_DECLARATION -> def VAR_NAME: (*)* VAR_TYPE
    pub fn parse_variable(&mut self) -> (res: Result<Variable, ParseError>)
        ensures
            final(self)@ == variable(old(self)@).0,
            res == variable(old(self)@).1,
            old(self)@.same_except_pos(final(self)@),
            final(self)@.remaining() <= old(self)@.remaining(),
            res is Ok ==> final(self)@.remaining() < old(self)@.remaining(),
    {
        let token = self.consume_token();
        match token.token {
            TokenEnum::Variable(var_name) => {
                let token2 = self.consume_token();
                match token2.token {
                    // : after variable name, so can only be VAR_NAME: VAR_TYPE
                    TokenEnum::Colon => {
                        let token3 = self.peek_next_token();
                        match &token3.token {
                            TokenEnum::Type(var_type) => {
                                let mut actual_var_type = var_type.clone();
                                let type_token = self.consume_token();
                                match self.check_if_array_type(&mut actual_var_type, var_type) {
                                    Ok(()) => {},
                                    Err(e) => return Err(e),
                                }
                                Ok(Variable::new(Box::new(type_token), actual_var_type, var_name, false, false, 0))
                            },
                            // This could be a user defined type
                            TokenEnum::Variable(user_type) => {
                                match self.find_user_type(user_type) {
                                    None => Err(ParseError::NoSuchType(token3)),
                                    Some(var_type) => {
                                        let type_token = self.consume_token();
                                        let mut actual_var_type = var_type.clone();
                                        match self.check_if_array_type(&mut actual_var_type, &var_type) {
                                            Ok(()) => {},
                                            Err(e) => return Err(e),
                                        }
                                        Ok(Variable::new(
                                            Box::new(type_token),
                                            actual_var_type,
                                            var_name,
                                            false,
                                            false,
                                            0,
                                        ))
                                    },
                                }
                            },
                            _ => Err(ParseError::UnexpectedToken { found: token3, expected: None }),
                        }
                    },
                    _ => Err(ParseError::UnexpectedToken { found: token2, expected: Some(TokenEnum::Colon) }),
                }
            },
            _ => Err(ParseError::UnexpectedToken { found: token, expected: Some(TokenEnum::Colon) }),
        }
    }

    /// VARIABLE_DECLARATION -> def VAR_NAME: (*)* VAR_TYPE (= ASSIGNED_STATEMENT)*
    /// Without `=` the declaration has no value and the next token is left unread.
    pub fn parse_declaration_statement(&mut self) -> (res: Result<ASTNode, ParseError>)
        ensures
            final(self)@ == declaration(old(self)@).0,
            node_result(res) == declaration(old(self)@).1,
            old(self)@.same_except_pos(final(self)@),
            final(self)@.remaining() <= old(self)@.remaining(),
            res is Ok ==> final(self)@.remaining() < old(self)@.remaining(),
    {
        // we get here after consuming 'def'
        let left = match self.parse_variable() {
            Ok(v) => v,
            Err(e) => return Err(e),
        };
        let equals = self.peek_next_token();
        if let TokenEnum::Equals = equals.token {
            self.consume_token();
        } else {
            // a declaration without a value
            return Ok(ASTNode::DeclarationStatement(DeclarationStatement { left, right: None }));
        }
        let next = self.peek_next_token();
        if let TokenEnum::Bracket(Bracket::LCurly) = next.token {
            // struct literals are not handled here
            return Err(ParseError::Unsupported(next));
        }
        let right = match self.parse_logical_expression() {
            Ok(n) => n,
            Err(e) => return Err(e),
        };
        Ok(ASTNode::DeclarationStatement(DeclarationStatement { left, right: Some(Box::new(right)) }))
    }
}

} // verus!
