use vstd::prelude::*;

use std::rc::Rc;

use crate::ast::{ASTNode, FunctionDefinition, FunctionView};
use crate::error::ParseError;
use crate::grammar::{
    finishes, function_definition, function_index, function_index_from, node_result, parameter_list, register, seq_result,
    unique_names, ParserState,
};
use crate::parser::Parser;
use crate::tokens::{Bracket, TokenEnum};
use crate::variable::Variable;

verus! {

/// `Rc::clone` from std: a second handle to the same definition, hence equal to it.
#[verifier::external_body]
fn share_definition(def: &Rc<FunctionDefinition>) -> (res: Rc<FunctionDefinition>)
    ensures
        res == *def,
{
    Rc::clone(def)
}

impl Parser {
    /// Enters `def` in the table of functions, in place of the entry with the same name.
    fn register_function(&mut self, def: Rc<FunctionDefinition>)
        ensures
            final(self)@ == (ParserState { functions: register(old(self)@.functions, def@), ..old(self)@ }),
    {
        let mut i: usize = 0;
        while i < self.functions.len()
            invariant
                self@ == old(self)@,
                0 <= i <= self@.functions.len(),
                function_index(self@.functions, def.function_name@) == function_index_from(
                    self@.functions,
                    def.function_name@,
                    i as int,
                ),
            decreases self@.functions.len() - i,
        {
            if self.functions[i].function_name == def.function_name {
                let ghost before = self@.functions;
                self.functions.set(i, def);
                assert(self@.functions =~= before.update(i as int, def@));
                return;
            }
            i = i + 1;
        }
        let ghost before = self@.functions;
        self.functions.push(def);
        assert(self@.functions =~= before.push(def@));
    }

    /// (VAR_NAME : VAR_TYPE (,)*)* RPAREN, after the opening parenthesis.
    /// A bracket other than `)` at a parameter boundary does not stop the
    /// program: it is returned as an `UnexpectedToken` error.
    fn parse_function_definition_parameters(&mut self) -> (res: Result<Vec<Variable>, ParseError>)
        ensures
            final(self)@ == parameter_list(old(self)@, Seq::empty()).0,
            seq_result(res) == parameter_list(old(self)@, Seq::empty()).1,
            old(self)@.same_except_pos(final(self)@),
            final(self)@.remaining() <= old(self)@.remaining(),
    {
        let mut parameters: Vec<Variable> = Vec::new();
        loop
            invariant
                parameter_list(self@, parameters@) == parameter_list(old(self)@, Seq::empty()),
                old(self)@.same_except_pos(self@),
                self@.remaining() <= old(self)@.remaining(),
            decreases self@.remaining(),
        {
            let token = self.peek_next_token();
            match &token.token {
                TokenEnum::Bracket(Bracket::RParen) => {
                    self.consume_token();
                    return Ok(parameters);
                },
                TokenEnum::Bracket(_) => {
                    return Err(ParseError::UnexpectedToken { found: token, expected: None });
                },
                TokenEnum::Comma => {
                    self.consume_token();
                },
                _ => {
                    let variable = match self.parse_variable() {
                        Ok(v) => v,
                        Err(e) => return Err(e),
                    };
                    parameters.push(variable);
                },
            }
        }
    }

    /// FUNCTION_DEF -> fun VAR_NAME LPAREN (VAR_NAME : VAR_TYPE (,*))* RPAREN LCURLY STATEMENT[] RCURLY
    /// A missing name, `(`, `{` or closing `}` does not stop the program: it is
    /// returned as `ExpectedFunctionName`, `ExpectedLParen`, `ExpectedLCurly` or
    /// `ExpectedRCurly`, and the function is not entered in the table of functions.
    pub fn parse_function_definition(&mut self) -> (res: Result<ASTNode, ParseError>)
        requires
            old(self)@.depth_room(),
            finishes(function_definition(old(self)@).1),
        ensures
            final(self)@ == function_definition(old(self)@).0,
            node_result(res) == function_definition(old(self)@).1,
            final(self)@.tokens == old(self)@.tokens,
            final(self)@.remaining() <= old(self)@.remaining(),
            res is Ok ==> final(self)@.remaining() < old(self)@.remaining(),
            final(self)@.same_nesting(old(self)@),
            res is Ok ==> final(self).current_function_being_parsed is None,
            // the definition returned is the table's entry under its name
            res matches Ok(node) ==> (node matches ASTNode::FunctionDefinition(f) && function_index(
                final(self)@.functions,
                f.function_name@,
            ) matches Some(k) && final(self)@.functions[k] == f@),
            unique_names(old(self)@.functions) ==> unique_names(final(self)@.functions),
        decreases old(self)@.remaining(), 0nat,
    {
        // we get here after consuming 'fun'
        let name_token = self.consume_token();
        let function_name = match name_token.token {
            TokenEnum::Variable(n) => n,
            _ => return Err(ParseError::ExpectedFunctionName(name_token)),
        };
        let lparen = self.consume_token();
        match lparen.token {
            TokenEnum::Bracket(Bracket::LParen) => {},
            _ => return Err(ParseError::ExpectedLParen(lparen)),
        }
        let parameters = match self.parse_function_definition_parameters() {
            Ok(p) => p,
            Err(e) => return Err(e),
        };
        let lcurly = self.consume_token();
        match lcurly.token {
            TokenEnum::Bracket(Bracket::LCurly) => {},
            _ => return Err(ParseError::ExpectedLCurly(lcurly)),
        }

        // As we can fit an entire program inside a function
        self.inside_function_depth = self.inside_function_depth + 1;
        self.current_function_being_parsed = Some(function_name.clone());
        let body = self.parse_program();
        self.current_function_being_parsed = None;
        self.inside_function_depth = self.inside_function_depth - 1;
        let block = match body {
            Ok(b) => b,
            Err(e) => return Err(e),
        };

        let rcurly = self.consume_token();
        match rcurly.token {
            TokenEnum::Bracket(Bracket::RCurly) => {},
            _ => return Err(ParseError::ExpectedRCurly(rcurly)),
        }

        let function_def = Rc::new(FunctionDefinition { function_name, parameters, block: Box::new(block) });
        proof {
            crate::laws::lemma_register(self@.functions, function_def@);
        }
        self.register_function(share_definition(&function_def));
        Ok(ASTNode::FunctionDefinition(function_def))
    }
}

} // verus!
